//! Per-field probe logic: what each raw source yields, which failures abort
//! the run, and the snapshot assembled from the settled values.

use vstd::prelude::*;
use crate::text::{
    before, chars_of, decimal, has_prefix, lines, lines_of, push_decimal, starts_with, string_of,
    strip, strip_chars, take_before, Strip,
};

verus! {

/// The facts that make up a snapshot, in the order they are collected.
#[derive(Clone, Copy, Debug, PartialEq, Eq, Structural)]
pub enum Field {
    Os,
    Architecture,
    Kernel,
    Shell,
    Desktop,
    Packages,
    Uptime,
    Wm,
    Theme,
    Icons,
    Terminal,
}

pub const FIELD_COUNT: usize = 11;

pub open spec fn field_index(f: Field) -> nat {
    match f {
        Field::Os => 0,
        Field::Architecture => 1,
        Field::Kernel => 2,
        Field::Shell => 3,
        Field::Desktop => 4,
        Field::Packages => 5,
        Field::Uptime => 6,
        Field::Wm => 7,
        Field::Theme => 8,
        Field::Icons => 9,
        Field::Terminal => 10,
    }
}

/// The field collected at position `i` of the construction order.
pub fn field_at(i: usize) -> (f: Field)
    requires
        i < FIELD_COUNT,
    ensures
        field_index(f) == i,
{
    if i == 0 { Field::Os }
    else if i == 1 { Field::Architecture }
    else if i == 2 { Field::Kernel }
    else if i == 3 { Field::Shell }
    else if i == 4 { Field::Desktop }
    else if i == 5 { Field::Packages }
    else if i == 6 { Field::Uptime }
    else if i == 7 { Field::Wm }
    else if i == 8 { Field::Theme }
    else if i == 9 { Field::Icons }
    else { Field::Terminal }
}

/// Whether a failed invocation for this field aborts the run; otherwise it
/// is downgraded to the sentinel.
pub open spec fn fail_fast(f: Field) -> bool {
    match f {
        Field::Os | Field::Architecture | Field::Kernel | Field::Packages | Field::Uptime => true,
        _ => false,
    }
}

pub fn is_fail_fast(f: Field) -> (r: bool)
    ensures
        r == fail_fast(f),
{
    match f {
        Field::Os | Field::Architecture | Field::Kernel | Field::Packages | Field::Uptime => true,
        _ => false,
    }
}

/// What one probe produced.
pub enum ProbeOutcome {
    /// A value was read.
    Found(String),
    /// The source ran but held no usable value.
    Missing,
    /// The source could not be run or its output could not be decoded.
    Failed,
}

/// The run-level error: a fail-fast probe could not be run.
#[derive(Clone, Copy, Debug, PartialEq, Eq, Structural)]
pub enum ProbeError {
    Invocation(Field),
}

/// The sentinel for a fact that could not be determined.
pub open spec fn unknown() -> Seq<char> {
    "Unknown"@
}

pub fn unknown_text() -> (r: String)
    ensures
        r@ == unknown(),
{
    String::from_str("Unknown")
}

/// What a field holds after its probe's outcome: the value where one was
/// read and is not empty, an error where a fail-fast probe failed, and the
/// sentinel otherwise.
pub open spec fn settled(f: Field, o: ProbeOutcome) -> Result<Seq<char>, ProbeError> {
    match o {
        ProbeOutcome::Found(v) => if v@.len() > 0 {
            Ok(v@)
        } else {
            Ok(unknown())
        },
        ProbeOutcome::Missing => Ok(unknown()),
        ProbeOutcome::Failed => if fail_fast(f) {
            Err(ProbeError::Invocation(f))
        } else {
            Ok(unknown())
        },
    }
}

pub fn settle(f: Field, o: ProbeOutcome) -> (r: Result<String, ProbeError>)
    ensures
        match (r, settled(f, o)) {
            (Ok(v), Ok(w)) => v@ == w,
            (Err(e), Err(d)) => e == d,
            _ => false,
        },
{
    match o {
        ProbeOutcome::Found(v) => {
            if v.unicode_len() > 0 {
                Ok(v)
            } else {
                Ok(unknown_text())
            }
        },
        ProbeOutcome::Missing => Ok(unknown_text()),
        ProbeOutcome::Failed => {
            if is_fail_fast(f) {
                Err(ProbeError::Invocation(f))
            } else {
                Ok(unknown_text())
            }
        },
    }
}

/// The outcome for a value that may be empty: an empty one is missing.
pub open spec fn found_or_missing(v: Seq<char>, o: ProbeOutcome) -> bool {
    if v.len() > 0 {
        o matches ProbeOutcome::Found(s) && s@ == v
    } else {
        o is Missing
    }
}

fn found_or_missing_of(v: Vec<char>) -> (o: ProbeOutcome)
    ensures
        found_or_missing(v@, o),
{
    if v.len() > 0 {
        ProbeOutcome::Found(string_of(v.as_slice()))
    } else {
        ProbeOutcome::Missing
    }
}

pub open spec fn pretty_key() -> Seq<char> {
    "PRETTY_NAME="@
}

/// The value of the first `PRETTY_NAME=` line: what follows the key up to
/// any further `=`, without surrounding double quotes.
pub open spec fn pretty_name(ls: Seq<Seq<char>>) -> Option<Seq<char>>
    decreases ls.len(),
{
    if ls.len() == 0 {
        None
    } else if starts_with(ls[0], pretty_key()) {
        Some(
            strip(
                before(ls[0].subrange(pretty_key().len() as int, ls[0].len() as int), '='),
                Strip::Only('"'),
            ),
        )
    } else {
        pretty_name(ls.drop_first())
    }
}

/// The OS-name outcome from the release file's text, or `None` where the
/// file could not be read.
pub fn os_outcome(release: Option<&str>) -> (o: ProbeOutcome)
    ensures
        match release {
            None => o is Failed,
            Some(t) => match pretty_name(lines_of(t@)) {
                Some(v) => found_or_missing(v, o),
                None => o is Missing,
            },
        },
{
    match release {
        None => ProbeOutcome::Failed,
        Some(t) => {
            let cs = chars_of(t);
            let ls = lines(cs.as_slice());
            let key = chars_of("PRETTY_NAME=");
            let ghost all = lines_of(t@);
            let mut i: usize = 0;
            assert(all.subrange(0, all.len() as int) =~= all);
            while i < ls.len()
                invariant
                    i <= ls@.len() == all.len(),
                    all == lines_of(t@),
                    release == Some(t),
                    key@ == pretty_key(),
                    forall|k: int| 0 <= k < ls@.len() ==> #[trigger] ls@[k]@ == all[k],
                    pretty_name(all) == pretty_name(all.subrange(i as int, all.len() as int)),
                decreases ls@.len() - i,
            {
                let line = &ls[i];
                let ghost rest = all.subrange(i as int, all.len() as int);
                assert(rest[0] == line@);
                if has_prefix(line.as_slice(), key.as_slice()) {
                    let v = take_before(line.as_slice(), key.len(), '=');
                    let v = strip_chars(v.as_slice(), Strip::Only('"'));
                    assert(pretty_name(rest) == Some(v@));
                    return found_or_missing_of(v);
                }
                assert(rest.drop_first() =~= all.subrange(i + 1, all.len() as int));
                i += 1;
            }
            ProbeOutcome::Missing
        },
    }
}

/// The outcome for a utility whose trimmed output is the value, from that
/// output, or `None` where it could not be run or decoded.
pub fn trimmed_outcome(output: Option<&str>) -> (o: ProbeOutcome)
    ensures
        match output {
            None => o is Failed,
            Some(t) => found_or_missing(strip(t@, Strip::Space), o),
        },
{
    match output {
        None => ProbeOutcome::Failed,
        Some(t) => {
            let cs = chars_of(t);
            found_or_missing_of(strip_chars(cs.as_slice(), Strip::Space))
        },
    }
}

/// A desktop-settings answer: trimmed, then without surrounding single quotes.
pub open spec fn setting_value(t: Seq<char>) -> Seq<char> {
    strip(strip(t, Strip::Space), Strip::Only('\''))
}

/// The outcome for a desktop-settings query, from its output, or `None`
/// where it could not be run or decoded. The placeholder `Unknown` counts
/// as no value.
pub fn setting_outcome(output: Option<&str>) -> (o: ProbeOutcome)
    ensures
        match output {
            None => o is Failed,
            Some(t) => if setting_value(t@) == unknown() {
                o is Missing
            } else {
                found_or_missing(setting_value(t@), o)
            },
        },
{
    match output {
        None => ProbeOutcome::Failed,
        Some(t) => {
            let cs = chars_of(t);
            let v = strip_chars(cs.as_slice(), Strip::Space);
            let v = strip_chars(v.as_slice(), Strip::Only('\''));
            let u = chars_of("Unknown");
            if same_chars(v.as_slice(), u.as_slice()) {
                ProbeOutcome::Missing
            } else {
                found_or_missing_of(v)
            }
        },
    }
}

pub fn same_chars(a: &[char], b: &[char]) -> (r: bool)
    ensures
        r == (a@ == b@),
{
    if a.len() != b.len() {
        return false;
    }
    let mut i: usize = 0;
    while i < a.len()
        invariant
            a@.len() == b@.len(),
            i <= a@.len(),
            forall|k: int| 0 <= k < i ==> a@[k] == b@[k],
        decreases a@.len() - i,
    {
        if a[i] != b[i] {
            return false;
        }
        i += 1;
    }
    assert(a@ =~= b@);
    true
}

/// The characters of `s` after its last `/`, or all of `s`.
pub open spec fn last_segment(s: Seq<char>) -> Seq<char>
    decreases s.len(),
{
    if s.len() == 0 {
        s
    } else if s.last() == '/' {
        Seq::empty()
    } else {
        last_segment(s.drop_last()).push(s.last())
    }
}

/// The shell outcome from the shell-path variable: its final path segment.
pub fn shell_outcome(path: Option<&str>) -> (o: ProbeOutcome)
    ensures
        match path {
            None => o is Missing,
            Some(p) => found_or_missing(last_segment(p@), o),
        },
{
    match path {
        None => ProbeOutcome::Missing,
        Some(p) => {
            let cs = chars_of(p);
            let n = cs.len();
            let mut start: usize = n;
            assert(cs@.subrange(0, n as int) =~= cs@);
            assert(cs@ + cs@.subrange(n as int, n as int) =~= cs@);
            while start > 0 && cs[start - 1] != '/'
                invariant
                    start <= n == cs@.len(),
                    last_segment(cs@) == last_segment(cs@.subrange(0, start as int)) + cs@.subrange(
                        start as int,
                        n as int,
                    ),
                decreases start,
            {
                let ghost pre = cs@.subrange(0, start as int);
                assert(pre.drop_last() =~= cs@.subrange(0, start - 1));
                assert(cs@.subrange(start - 1, n as int) =~= seq![pre.last()] + cs@.subrange(
                    start as int,
                    n as int,
                ));
                assert(last_segment(pre) == last_segment(pre.drop_last()).push(pre.last()));
                assert(last_segment(pre.drop_last()).push(pre.last()) + cs@.subrange(
                    start as int,
                    n as int,
                ) =~= last_segment(pre.drop_last()) + cs@.subrange(start - 1, n as int));
                start -= 1;
            }
            assert(cs@.subrange(0, n as int) =~= cs@);
            assert(last_segment(cs@.subrange(0, start as int)) =~= Seq::<char>::empty());
            let mut seg: Vec<char> = Vec::new();
            let mut k: usize = start;
            while k < n
                invariant
                    start <= k <= n == cs@.len(),
                    seg@ == cs@.subrange(start as int, k as int),
                decreases n - k,
            {
                seg.push(cs[k]);
                k += 1;
                assert(seg@ =~= cs@.subrange(start as int, k as int));
            }
            assert(Seq::<char>::empty() + seg@ =~= seg@);
            found_or_missing_of(seg)
        },
    }
}

/// The first candidate that holds a non-empty value, if any.
pub open spec fn first_usable(c: Seq<Option<Seq<char>>>) -> Option<Seq<char>>
    decreases c.len(),
{
    if c.len() == 0 {
        None
    } else if c[0] matches Some(v) && v.len() > 0 {
        c[0]
    } else {
        first_usable(c.drop_first())
    }
}

pub open spec fn options_view(c: Seq<Option<String>>) -> Seq<Option<Seq<char>>> {
    c.map_values(|o: Option<String>| match o {
        Some(s) => Some(s@),
        None => None,
    })
}

/// The outcome for a chain of environment lookups, tried in order: the
/// first that is set and not empty wins.
pub fn env_outcome(candidates: &Vec<Option<String>>) -> (o: ProbeOutcome)
    ensures
        match first_usable(options_view(candidates@)) {
            Some(v) => o matches ProbeOutcome::Found(s) && s@ == v,
            None => o is Missing,
        },
{
    let ghost all = options_view(candidates@);
    let n = candidates.len();
    let mut i: usize = 0;
    assert(all.subrange(0, n as int) =~= all);
    while i < n
        invariant
            n == all.len() == candidates@.len(),
            i <= n,
            all == options_view(candidates@),
            first_usable(all) == first_usable(all.subrange(i as int, n as int)),
        decreases n - i,
    {
        let ghost tail = all.subrange(i as int, n as int);
        assert(tail[0] == all[i as int]);
        match &candidates[i] {
            Some(v) => {
                if v.unicode_len() > 0 {
                    return ProbeOutcome::Found(v.clone());
                }
            },
            None => {},
        }
        assert(tail.drop_first() =~= all.subrange(i + 1, n as int));
        i += 1;
    }
    ProbeOutcome::Missing
}

/// The package managers known, in priority order.
pub const MANAGER_COUNT: usize = 7;

pub open spec fn manager_name(i: nat) -> Seq<char> {
    if i == 0 { "pacman"@ }
    else if i == 1 { "apt"@ }
    else if i == 2 { "dnf"@ }
    else if i == 3 { "yum"@ }
    else if i == 4 { "zypper"@ }
    else if i == 5 { "emerge"@ }
    else { "xbps-query"@ }
}

/// The query arguments that list what manager `i` has installed.
pub open spec fn manager_query(i: nat) -> Seq<Seq<char>> {
    if i == 0 { seq!["-Qq"@] }
    else if i == 1 { seq!["list"@, "--installed"@] }
    else if i == 2 || i == 3 { seq!["list"@, "installed"@] }
    else if i == 4 { seq!["se"@, "--installed-only"@] }
    else if i == 5 { seq!["-Q"@] }
    else { seq!["-l"@] }
}

pub fn manager(i: usize) -> (r: &'static str)
    requires
        i < MANAGER_COUNT,
    ensures
        r@ == manager_name(i as nat),
{
    if i == 0 { "pacman" }
    else if i == 1 { "apt" }
    else if i == 2 { "dnf" }
    else if i == 3 { "yum" }
    else if i == 4 { "zypper" }
    else if i == 5 { "emerge" }
    else { "xbps-query" }
}

pub fn manager_args(i: usize) -> (r: Vec<&'static str>)
    requires
        i < MANAGER_COUNT,
    ensures
        r@.len() == manager_query(i as nat).len(),
        forall|k: int| 0 <= k < r@.len() ==> #[trigger] r@[k]@ == manager_query(i as nat)[k],
{
    if i == 0 { vec!["-Qq"] }
    else if i == 1 { vec!["list", "--installed"] }
    else if i == 2 || i == 3 { vec!["list", "installed"] }
    else if i == 4 { vec!["se", "--installed-only"] }
    else if i == 5 { vec!["-Q"] }
    else { vec!["-l"] }
}

/// The next move of the package-count probe.
#[derive(Clone, Copy, Debug, PartialEq, Eq, Structural)]
pub enum PackageStep {
    /// Ask whether manager `i` resolves on the execution path.
    Lookup(usize),
    /// Run manager `i` with its query and count what it lists.
    Invoke(usize),
    /// No manager resolved: the field is missing.
    GiveUp,
}

pub fn first_package_step() -> (r: PackageStep)
    ensures
        r == PackageStep::Lookup(0),
{
    PackageStep::Lookup(0)
}

/// The step after looking up manager `i`: the first one found is the only
/// one run; later ones are never tried.
pub fn after_lookup(i: usize, found: bool) -> (r: PackageStep)
    requires
        i < MANAGER_COUNT,
    ensures
        found ==> r == PackageStep::Invoke(i),
        !found && i + 1 < MANAGER_COUNT ==> r == PackageStep::Lookup((i + 1) as usize),
        !found && i + 1 >= MANAGER_COUNT ==> r == PackageStep::GiveUp,
{
    if found {
        PackageStep::Invoke(i)
    } else if i + 1 < MANAGER_COUNT {
        PackageStep::Lookup(i + 1)
    } else {
        PackageStep::GiveUp
    }
}

pub open spec fn newlines(b: Seq<u8>) -> nat
    decreases b.len(),
{
    if b.len() == 0 {
        0
    } else {
        newlines(b.drop_last()) + if b.last() == 10u8 {
            1nat
        } else {
            0nat
        }
    }
}

/// How many lines `b` holds: one per newline, and one more for text after
/// the last newline.
pub open spec fn line_count(b: Seq<u8>) -> nat {
    newlines(b) + if b.len() > 0 && b.last() != 10u8 {
        1nat
    } else {
        0nat
    }
}

pub fn count_lines(b: &[u8]) -> (r: u64)
    requires
        b@.len() < u64::MAX,
    ensures
        r == line_count(b@),
{
    let mut n: u64 = 0;
    let mut i: usize = 0;
    while i < b.len()
        invariant
            i <= b@.len() < u64::MAX,
            n == newlines(b@.subrange(0, i as int)),
            n <= i,
        decreases b@.len() - i,
    {
        assert(b@.subrange(0, i + 1).drop_last() =~= b@.subrange(0, i as int));
        if b[i] == 10u8 {
            n += 1;
        }
        i += 1;
    }
    assert(b@.subrange(0, b@.len() as int) =~= b@);
    if b.len() > 0 && b[b.len() - 1] != 10u8 {
        n + 1
    } else {
        n
    }
}

/// The package field's text: the count, then the manager's name in brackets.
pub open spec fn package_text(count: nat, i: nat) -> Seq<char> {
    decimal(count) + " ("@ + manager_name(i) + ")"@
}

/// The package-count outcome from the output of manager `i`, or `None`
/// where it could not be run.
pub fn packages_outcome(i: usize, output: Option<&Vec<u8>>) -> (o: ProbeOutcome)
    requires
        i < MANAGER_COUNT,
        output matches Some(b) ==> b@.len() < u64::MAX,
    ensures
        match output {
            None => o is Failed,
            Some(b) => o matches ProbeOutcome::Found(s) && s@ == package_text(line_count(b@), i as nat),
        },
{
    match output {
        None => ProbeOutcome::Failed,
        Some(b) => {
            let n = count_lines(b.as_slice());
            let mut cs: Vec<char> = Vec::new();
            push_decimal(n, &mut cs);
            let mut s = string_of(cs.as_slice());
            s.append(" (");
            s.append(manager(i));
            s.append(")");
            ProbeOutcome::Found(s)
        },
    }
}

/// The key that names a field in the display order, also its label.
pub open spec fn key_of(f: Field) -> Seq<char> {
    match f {
        Field::Os => "OS"@,
        Field::Architecture => "Architecture"@,
        Field::Kernel => "Kernel"@,
        Field::Shell => "Shell"@,
        Field::Desktop => "Desktop"@,
        Field::Packages => "Packages"@,
        Field::Uptime => "Uptime"@,
        Field::Wm => "WM"@,
        Field::Theme => "Theme"@,
        Field::Icons => "Icons"@,
        Field::Terminal => "Terminal"@,
    }
}

/// Whether `k` names a known field.
pub open spec fn is_key(k: Seq<char>) -> bool {
    exists|f: Field| key_of(f) == k
}

/// The field that `k` names, if any.
pub open spec fn field_for(k: Seq<char>) -> Option<Field> {
    if k == key_of(Field::Os) { Some(Field::Os) }
    else if k == key_of(Field::Architecture) { Some(Field::Architecture) }
    else if k == key_of(Field::Kernel) { Some(Field::Kernel) }
    else if k == key_of(Field::Shell) { Some(Field::Shell) }
    else if k == key_of(Field::Desktop) { Some(Field::Desktop) }
    else if k == key_of(Field::Packages) { Some(Field::Packages) }
    else if k == key_of(Field::Uptime) { Some(Field::Uptime) }
    else if k == key_of(Field::Wm) { Some(Field::Wm) }
    else if k == key_of(Field::Theme) { Some(Field::Theme) }
    else if k == key_of(Field::Icons) { Some(Field::Icons) }
    else if k == key_of(Field::Terminal) { Some(Field::Terminal) }
    else { None }
}

impl Field {
    pub fn key(self) -> (r: &'static str)
        ensures
            r@ == key_of(self),
    {
        match self {
            Field::Os => "OS",
            Field::Architecture => "Architecture",
            Field::Kernel => "Kernel",
            Field::Shell => "Shell",
            Field::Desktop => "Desktop",
            Field::Packages => "Packages",
            Field::Uptime => "Uptime",
            Field::Wm => "WM",
            Field::Theme => "Theme",
            Field::Icons => "Icons",
            Field::Terminal => "Terminal",
        }
    }

    /// The field that `key` names, if any.
    pub fn from_key(key: &str) -> (r: Option<Field>)
        ensures
            r == field_for(key@),
            match r {
                Some(f) => key_of(f) == key@,
                None => !is_key(key@),
            },
    {
        let k = chars_of(key);
        let mut i: usize = 0;
        while i < FIELD_COUNT
            invariant
                k@ == key@,
                i <= FIELD_COUNT,
                forall|f: Field| field_index(f) < i ==> key_of(f) != key@,
            decreases FIELD_COUNT - i,
        {
            let f = field_at(i);
            let name = chars_of(f.key());
            if same_chars(k.as_slice(), name.as_slice()) {
                return Some(f);
            }
            i += 1;
        }
        assert forall|f: Field| key_of(f) != key@ by {
            assert(field_index(f) < FIELD_COUNT);
        }
        None
    }
}

/// The collected facts, one per field, none empty.
pub struct SystemSnapshot {
    values: Vec<String>,
}

pub open spec fn all_nonempty(v: Seq<Seq<char>>) -> bool {
    forall|k: int| 0 <= k < v.len() ==> (#[trigger] v[k]).len() > 0
}

impl View for SystemSnapshot {
    type V = Seq<Seq<char>>;

    closed spec fn view(&self) -> Seq<Seq<char>> {
        self.values@.map_values(|s: String| s@)
    }
}

impl SystemSnapshot {
    pub open spec fn wf(&self) -> bool {
        self@.len() == FIELD_COUNT && all_nonempty(self@)
    }

    /// The value collected for `f`.
    pub fn value(&self, f: Field) -> (r: &String)
        requires
            self.wf(),
        ensures
            r@ == self@[field_index(f) as int],
    {
        let i: usize = match f {
            Field::Os => 0,
            Field::Architecture => 1,
            Field::Kernel => 2,
            Field::Shell => 3,
            Field::Desktop => 4,
            Field::Packages => 5,
            Field::Uptime => 6,
            Field::Wm => 7,
            Field::Theme => 8,
            Field::Icons => 9,
            Field::Terminal => 10,
        };
        &self.values[i]
    }
}

/// A snapshot under construction: the settled values of the fields so far,
/// in construction order.
pub struct SnapshotBuilder {
    values: Vec<String>,
}

impl View for SnapshotBuilder {
    type V = Seq<Seq<char>>;

    closed spec fn view(&self) -> Seq<Seq<char>> {
        self.values@.map_values(|s: String| s@)
    }
}

pub proof fn lemma_settled_nonempty(f: Field, o: ProbeOutcome)
    ensures
        settled(f, o) matches Ok(v) ==> v.len() > 0,
{
    reveal_strlit("Unknown");
}

impl SnapshotBuilder {
    pub open spec fn wf(&self) -> bool {
        self@.len() <= FIELD_COUNT && all_nonempty(self@)
    }

    pub fn new() -> (r: SnapshotBuilder)
        ensures
            r.wf(),
            r@ == Seq::<Seq<char>>::empty(),
    {
        let r = SnapshotBuilder { values: Vec::new() };
        assert(r@ =~= Seq::<Seq<char>>::empty());
        r
    }

    /// The field whose outcome is to be recorded next, if any is left.
    pub fn next_field(&self) -> (r: Option<Field>)
        requires
            self.wf(),
        ensures
            self@.len() < FIELD_COUNT ==> (r matches Some(f) && field_index(f) == self@.len()),
            self@.len() == FIELD_COUNT ==> r is None,
    {
        if self.values.len() < FIELD_COUNT {
            Some(field_at(self.values.len()))
        } else {
            None
        }
    }

    /// Records the outcome for the next field. A fail-fast field's failure
    /// is returned as the error and nothing is recorded.
    pub fn record(&mut self, o: ProbeOutcome) -> (r: Result<(), ProbeError>)
        requires
            old(self).wf(),
            old(self)@.len() < FIELD_COUNT,
        ensures
            final(self).wf(),
            forall|f: Field|
                field_index(f) == old(self)@.len() ==> match settled(f, o) {
                    Ok(v) => r is Ok && final(self)@ == old(self)@.push(v),
                    Err(e) => r == Err::<(), ProbeError>(e) && final(self)@ == old(self)@,
                },
    {
        let f = field_at(self.values.len());
        proof {
            lemma_settled_nonempty(f, o);
        }
        let ghost before = self@;
        match settle(f, o) {
            Ok(v) => {
                self.values.push(v);
                assert(self@ =~= before.push(v@));
                Ok(())
            },
            Err(e) => Err(e),
        }
    }

    /// The finished snapshot, once every field has been recorded.
    pub fn finish(self) -> (r: Option<SystemSnapshot>)
        requires
            self.wf(),
        ensures
            self@.len() == FIELD_COUNT ==> (r matches Some(s) && s.wf() && s@ == self@),
            self@.len() < FIELD_COUNT ==> r is None,
    {
        if self.values.len() == FIELD_COUNT {
            Some(SystemSnapshot { values: self.values })
        } else {
            None
        }
    }
}

} // verus!
