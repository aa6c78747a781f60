//! Character-level helpers: conversion between strings and characters,
//! stripping, line splitting and decimal rendering.

use vstd::prelude::*;

verus! {

/// Characters with the Unicode White_Space property, the set that
/// `char::is_whitespace` and `str::trim` use.
pub open spec fn is_space(c: char) -> bool {
    let u = c as u32;
    (0x9 <= u && u <= 0xd) || u == 0x20 || u == 0x85 || u == 0xa0 || u == 0x1680 || (0x2000 <= u
        && u <= 0x200a) || u == 0x2028 || u == 0x2029 || u == 0x202f || u == 0x205f || u == 0x3000
}

/// Which characters a strip removes from both ends.
#[derive(Clone, Copy, Debug, PartialEq, Eq, Structural)]
pub enum Strip {
    Space,
    Only(char),
}

pub open spec fn strips(mode: Strip, c: char) -> bool {
    match mode {
        Strip::Space => is_space(c),
        Strip::Only(x) => c == x,
    }
}

pub open spec fn strip_front(s: Seq<char>, mode: Strip) -> Seq<char>
    decreases s.len(),
{
    if s.len() > 0 && strips(mode, s[0]) {
        strip_front(s.drop_first(), mode)
    } else {
        s
    }
}

pub open spec fn strip_back(s: Seq<char>, mode: Strip) -> Seq<char>
    decreases s.len(),
{
    if s.len() > 0 && strips(mode, s.last()) {
        strip_back(s.drop_last(), mode)
    } else {
        s
    }
}

/// `s` without the leading and trailing characters that `mode` removes.
pub open spec fn strip(s: Seq<char>, mode: Strip) -> Seq<char> {
    strip_back(strip_front(s, mode), mode)
}

/// Relies on `String::push`: appends one character.
#[verifier::external_body]
fn push_char(s: &mut String, c: char)
    ensures
        final(s)@ == old(s)@.push(c),
{
    s.push(c)
}

/// The characters of `s`, in order.
pub fn chars_of(s: &str) -> (r: Vec<char>)
    ensures
        r@ == s@,
{
    let n = s.unicode_len();
    let mut r: Vec<char> = Vec::new();
    let mut i: usize = 0;
    while i < n
        invariant
            n == s@.len(),
            i <= n,
            r@ == s@.subrange(0, i as int),
        decreases n - i,
    {
        r.push(s.get_char(i));
        i += 1;
        assert(r@ =~= s@.subrange(0, i as int));
    }
    assert(r@ =~= s@);
    r
}

/// A string holding exactly the characters of `v`.
pub fn string_of(v: &[char]) -> (r: String)
    ensures
        r@ == v@,
{
    let mut r = String::new();
    let mut i: usize = 0;
    while i < v.len()
        invariant
            i <= v@.len(),
            r@ == v@.subrange(0, i as int),
        decreases v@.len() - i,
    {
        push_char(&mut r, v[i]);
        i += 1;
        assert(r@ =~= v@.subrange(0, i as int));
    }
    assert(r@ =~= v@);
    r
}

pub fn is_space_char(c: char) -> (r: bool)
    ensures
        r == is_space(c),
{
    let u = c as u32;
    (0x9 <= u && u <= 0xd) || u == 0x20 || u == 0x85 || u == 0xa0 || u == 0x1680 || (0x2000 <= u
        && u <= 0x200a) || u == 0x2028 || u == 0x2029 || u == 0x202f || u == 0x205f || u == 0x3000
}

fn strips_char(mode: Strip, c: char) -> (r: bool)
    ensures
        r == strips(mode, c),
{
    match mode {
        Strip::Space => is_space_char(c),
        Strip::Only(x) => c == x,
    }
}

/// `s` stripped at both ends of the characters that `mode` removes.
pub fn strip_chars(s: &[char], mode: Strip) -> (r: Vec<char>)
    ensures
        r@ == strip(s@, mode),
{
    let n = s.len();
    let mut i: usize = 0;
    assert(s@.subrange(0, n as int) =~= s@);
    while i < n && strips_char(mode, s[i])
        invariant
            n == s@.len(),
            i <= n,
            strip_front(s@, mode) == strip_front(s@.subrange(i as int, n as int), mode),
        decreases n - i,
    {
        assert(s@.subrange(i as int, n as int).drop_first() =~= s@.subrange(i + 1, n as int));
        i += 1;
    }
    assert(strip_front(s@, mode) == s@.subrange(i as int, n as int));
    let mut j: usize = n;
    while j > i && strips_char(mode, s[j - 1])
        invariant
            i <= j <= n == s@.len(),
            strip_back(s@.subrange(i as int, n as int), mode) == strip_back(
                s@.subrange(i as int, j as int),
                mode,
            ),
        decreases j,
    {
        assert(s@.subrange(i as int, j as int).drop_last() =~= s@.subrange(i as int, j - 1));
        j -= 1;
    }
    let mut r: Vec<char> = Vec::new();
    let mut k: usize = i;
    while k < j
        invariant
            i <= k <= j <= n == s@.len(),
            r@ == s@.subrange(i as int, k as int),
        decreases j - k,
    {
        r.push(s[k]);
        k += 1;
        assert(r@ =~= s@.subrange(i as int, k as int));
    }
    r
}

/// The pieces of `s` between its newline characters; always at least one.
pub open spec fn split_newlines(s: Seq<char>) -> Seq<Seq<char>>
    decreases s.len(),
{
    if s.len() == 0 {
        seq![Seq::empty()]
    } else if s.last() == '\n' {
        split_newlines(s.drop_last()).push(Seq::empty())
    } else {
        let p = split_newlines(s.drop_last());
        p.update(p.len() - 1, p.last().push(s.last()))
    }
}

pub open spec fn drop_cr(line: Seq<char>) -> Seq<char> {
    if line.len() > 0 && line.last() == '\r' {
        line.drop_last()
    } else {
        line
    }
}

/// The lines of `s` as `str::lines` gives them: split at each `\n`, a line
/// ended by `\n` also loses one `\r` before it, and no empty line follows a
/// final `\n`.
pub open spec fn lines_of(s: Seq<char>) -> Seq<Seq<char>> {
    let parts = split_newlines(s);
    let ended = parts.drop_last().map_values(|l: Seq<char>| drop_cr(l));
    if parts.last().len() == 0 {
        ended
    } else {
        ended.push(parts.last())
    }
}

/// The lines of `s`, as `lines_of` states them.
pub fn lines(s: &[char]) -> (r: Vec<Vec<char>>)
    ensures
        r@.len() == lines_of(s@).len(),
        forall|k: int| 0 <= k < r@.len() ==> #[trigger] r@[k]@ == lines_of(s@)[k],
{
    let mut done: Vec<Vec<char>> = Vec::new();
    let mut cur: Vec<char> = Vec::new();
    let mut i: usize = 0;
    while i < s.len()
        invariant
            i <= s@.len(),
            split_newlines(s@.subrange(0, i as int)).len() == done@.len() + 1,
            forall|k: int|
                0 <= k < done@.len() ==> #[trigger] done@[k]@ == split_newlines(
                    s@.subrange(0, i as int),
                )[k],
            cur@ == split_newlines(s@.subrange(0, i as int)).last(),
        decreases s@.len() - i,
    {
        let ghost prev = s@.subrange(0, i as int);
        assert(s@.subrange(0, i + 1).drop_last() =~= prev);
        if s[i] == '\n' {
            let piece = cur;
            done.push(piece);
            cur = Vec::new();
        } else {
            cur.push(s[i]);
        }
        i += 1;
    }
    assert(s@.subrange(0, s@.len() as int) =~= s@);
    let ghost parts = split_newlines(s@);
    let ghost ended = parts.drop_last().map_values(|l: Seq<char>| drop_cr(l));
    let mut r: Vec<Vec<char>> = Vec::new();
    let mut k: usize = 0;
    while k < done.len()
        invariant
            k <= done@.len(),
            parts.len() == done@.len() + 1,
            ended.len() == done@.len(),
            ended == parts.drop_last().map_values(|l: Seq<char>| drop_cr(l)),
            forall|m: int| 0 <= m < done@.len() ==> #[trigger] done@[m]@ == parts[m],
            r@.len() == k,
            forall|m: int| 0 <= m < k ==> #[trigger] r@[m]@ == ended[m],
        decreases done@.len() - k,
    {
        let line = &done[k];
        let mut copy: Vec<char> = Vec::new();
        let mut len: usize = line.len();
        if len > 0 && line[len - 1] == '\r' {
            len -= 1;
        }
        let mut m: usize = 0;
        while m < len
            invariant
                len <= line@.len(),
                m <= len,
                copy@ == line@.subrange(0, m as int),
            decreases len - m,
        {
            copy.push(line[m]);
            m += 1;
            assert(copy@ =~= line@.subrange(0, m as int));
        }
        assert(copy@ =~= drop_cr(line@));
        assert(ended[k as int] == drop_cr(parts[k as int]));
        r.push(copy);
        k += 1;
    }
    if cur.len() > 0 {
        r.push(cur);
    }
    r
}

/// Whether `s` begins with `prefix`.
pub open spec fn starts_with(s: Seq<char>, prefix: Seq<char>) -> bool {
    prefix.len() <= s.len() && s.subrange(0, prefix.len() as int) == prefix
}

pub fn has_prefix(s: &[char], prefix: &[char]) -> (r: bool)
    ensures
        r == starts_with(s@, prefix@),
{
    if prefix.len() > s.len() {
        return false;
    }
    let mut i: usize = 0;
    while i < prefix.len()
        invariant
            prefix@.len() <= s@.len(),
            i <= prefix@.len(),
            forall|k: int| 0 <= k < i ==> s@[k] == prefix@[k],
        decreases prefix@.len() - i,
    {
        if s[i] != prefix[i] {
            assert(s@.subrange(0, prefix@.len() as int)[i as int] != prefix@[i as int]);
            return false;
        }
        i += 1;
    }
    assert(s@.subrange(0, prefix@.len() as int) =~= prefix@);
    true
}

/// The characters of `s` before the first `c`, or all of `s`.
pub open spec fn before(s: Seq<char>, c: char) -> Seq<char>
    decreases s.len(),
{
    if s.len() == 0 {
        s
    } else if s[0] == c {
        Seq::empty()
    } else {
        seq![s[0]] + before(s.drop_first(), c)
    }
}

pub fn take_before(s: &[char], from: usize, c: char) -> (r: Vec<char>)
    requires
        from <= s@.len(),
    ensures
        r@ == before(s@.subrange(from as int, s@.len() as int), c),
{
    let mut r: Vec<char> = Vec::new();
    let mut k: usize = from;
    while k < s.len() && s[k] != c
        invariant
            from <= k <= s@.len(),
            r@ == s@.subrange(from as int, k as int),
            before(s@.subrange(from as int, s@.len() as int), c) == s@.subrange(from as int, k as int)
                + before(s@.subrange(k as int, s@.len() as int), c),
        decreases s@.len() - k,
    {
        let ghost rest = s@.subrange(k as int, s@.len() as int);
        assert(rest.drop_first() =~= s@.subrange(k + 1, s@.len() as int));
        assert(s@.subrange(from as int, k + 1) =~= s@.subrange(from as int, k as int) + seq![s@[k as int]]);
        r.push(s[k]);
        k += 1;
        assert(r@ =~= s@.subrange(from as int, k as int));
    }
    assert(before(s@.subrange(k as int, s@.len() as int), c) =~= Seq::<char>::empty());
    assert(s@.subrange(from as int, k as int) + Seq::<char>::empty() =~= s@.subrange(from as int, k as int));
    r
}

pub open spec fn digit(d: nat) -> char {
    if d == 0 { '0' }
    else if d == 1 { '1' }
    else if d == 2 { '2' }
    else if d == 3 { '3' }
    else if d == 4 { '4' }
    else if d == 5 { '5' }
    else if d == 6 { '6' }
    else if d == 7 { '7' }
    else if d == 8 { '8' }
    else { '9' }
}

/// The decimal digits of `n`, most significant first, without leading zeros.
pub open spec fn decimal(n: nat) -> Seq<char>
    decreases n,
{
    if n < 10 {
        seq![digit(n)]
    } else {
        decimal(n / 10).push(digit(n % 10))
    }
}

fn digit_char(d: u64) -> (r: char)
    requires
        d < 10,
    ensures
        r == digit(d as nat),
{
    if d == 0 { '0' }
    else if d == 1 { '1' }
    else if d == 2 { '2' }
    else if d == 3 { '3' }
    else if d == 4 { '4' }
    else if d == 5 { '5' }
    else if d == 6 { '6' }
    else if d == 7 { '7' }
    else if d == 8 { '8' }
    else { '9' }
}

/// Appends the decimal digits of `n` to `out`.
pub fn push_decimal(n: u64, out: &mut Vec<char>)
    ensures
        final(out)@ == old(out)@ + decimal(n as nat),
    decreases n,
{
    if n < 10 {
        out.push(digit_char(n));
        assert(old(out)@.push(digit(n as nat)) =~= old(out)@ + seq![digit(n as nat)]);
    } else {
        push_decimal(n / 10, out);
        out.push(digit_char(n % 10));
        assert(old(out)@ + decimal((n / 10) as nat).push(digit((n % 10) as nat)) =~= old(out)@
            + decimal((n / 10) as nat) + seq![digit((n % 10) as nat)]);
    }
}

} // verus!
