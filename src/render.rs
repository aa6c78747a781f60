//! Two-column layout: the logo on the left, the labeled facts on the right,
//! colored from a small closed palette.

use vstd::prelude::*;
use colored::Colorize;
use owo_colors::{AnsiColors, OwoColorize};
use crate::config::Config;
use crate::config::strings_view;
use crate::probe::{field_for, field_index, is_key, key_of, same_chars, Field, SystemSnapshot};
use crate::text::{chars_of, lines, lines_of, string_of};

verus! {

/// The colors a role can take, each drawn in its bright variant.
#[derive(Clone, Copy, Debug, PartialEq, Eq, Structural)]
pub enum Palette {
    Blue,
    Green,
    Red,
    Yellow,
    Magenta,
    Cyan,
    White,
}

/// The three colored parts of the output.
#[derive(Clone, Copy, Debug, PartialEq, Eq, Structural)]
pub enum Role {
    Label,
    Value,
    Logo,
}

/// The color a role takes when its configured name is not in the palette.
pub open spec fn role_default(role: Role) -> Palette {
    match role {
        Role::Label => Palette::Blue,
        Role::Value => Palette::White,
        Role::Logo => Palette::Cyan,
    }
}

pub open spec fn palette_name(p: Palette) -> Seq<char> {
    match p {
        Palette::Blue => "blue"@,
        Palette::Green => "green"@,
        Palette::Red => "red"@,
        Palette::Yellow => "yellow"@,
        Palette::Magenta => "magenta"@,
        Palette::Cyan => "cyan"@,
        Palette::White => "white"@,
    }
}

pub open spec fn is_palette_name(name: Seq<char>) -> bool {
    exists|p: Palette| palette_name(p) == name
}

/// The color that the configured `name` gives `role`: the named entry where
/// `name` is one, the role's default otherwise.
pub open spec fn palette_for(name: Seq<char>, role: Role) -> Palette {
    if name == palette_name(Palette::Blue) { Palette::Blue }
    else if name == palette_name(Palette::Green) { Palette::Green }
    else if name == palette_name(Palette::Red) { Palette::Red }
    else if name == palette_name(Palette::Yellow) { Palette::Yellow }
    else if name == palette_name(Palette::Magenta) { Palette::Magenta }
    else if name == palette_name(Palette::Cyan) { Palette::Cyan }
    else if name == palette_name(Palette::White) { Palette::White }
    else { role_default(role) }
}

/// A configured name outside the palette gives the role its own default
/// color; a name inside it gives the named color.
pub proof fn lemma_unlisted_color_uses_default(name: Seq<char>, role: Role)
    ensures
        !is_palette_name(name) ==> palette_for(name, role) == role_default(role),
        is_palette_name(name) ==> palette_name(palette_for(name, role)) == name,
{
    if !is_palette_name(name) {
        assert(name != palette_name(Palette::Blue));
        assert(name != palette_name(Palette::Green));
        assert(name != palette_name(Palette::Red));
        assert(name != palette_name(Palette::Yellow));
        assert(name != palette_name(Palette::Magenta));
        assert(name != palette_name(Palette::Cyan));
        assert(name != palette_name(Palette::White));
    }
}

fn palette_at(i: usize) -> (p: Palette)
    requires
        i < 7,
    ensures
        i == 0 ==> p == Palette::Blue,
        i == 1 ==> p == Palette::Green,
        i == 2 ==> p == Palette::Red,
        i == 3 ==> p == Palette::Yellow,
        i == 4 ==> p == Palette::Magenta,
        i == 5 ==> p == Palette::Cyan,
        i == 6 ==> p == Palette::White,
{
    if i == 0 { Palette::Blue }
    else if i == 1 { Palette::Green }
    else if i == 2 { Palette::Red }
    else if i == 3 { Palette::Yellow }
    else if i == 4 { Palette::Magenta }
    else if i == 5 { Palette::Cyan }
    else { Palette::White }
}

impl Palette {
    pub fn name(self) -> (r: &'static str)
        ensures
            r@ == palette_name(self),
    {
        match self {
            Palette::Blue => "blue",
            Palette::Green => "green",
            Palette::Red => "red",
            Palette::Yellow => "yellow",
            Palette::Magenta => "magenta",
            Palette::Cyan => "cyan",
            Palette::White => "white",
        }
    }

    /// The color that the configured `name` gives `role`.
    pub fn for_role(name: &str, role: Role) -> (p: Palette)
        ensures
            p == palette_for(name@, role),
    {
        let k = chars_of(name);
        let mut i: usize = 0;
        while i < 7
            invariant
                k@ == name@,
                i <= 7,
                forall|q: Palette|
                    #![trigger palette_name(q)]
                    (q == Palette::Blue && i > 0) || (q == Palette::Green && i > 1) || (q
                        == Palette::Red && i > 2) || (q == Palette::Yellow && i > 3) || (q
                        == Palette::Magenta && i > 4) || (q == Palette::Cyan && i > 5) || (q
                        == Palette::White && i > 6) ==> palette_name(q) != name@,
            decreases 7 - i,
        {
            let p = palette_at(i);
            let n = chars_of(p.name());
            if same_chars(k.as_slice(), n.as_slice()) {
                return p;
            }
            i += 1;
        }
        match role {
            Role::Label => Palette::Blue,
            Role::Value => Palette::White,
            Role::Logo => Palette::Cyan,
        }
    }
}

/// The digit that follows `9` in the bright foreground code of `p`.
pub open spec fn color_digit(p: Palette) -> char {
    match p {
        Palette::Red => '1',
        Palette::Green => '2',
        Palette::Yellow => '3',
        Palette::Blue => '4',
        Palette::Magenta => '5',
        Palette::Cyan => '6',
        Palette::White => '7',
    }
}

/// A terminal control sequence with the given parameters.
pub open spec fn csi(params: Seq<char>) -> Seq<char> {
    seq!['\x1b', '['] + params + seq!['m']
}

pub open spec fn bright(p: Palette) -> Seq<char> {
    seq!['9', color_digit(p)]
}

/// The text as the color crate draws it when coloring is on: the style's
/// sequence, the text, and a full reset.
pub open spec fn styled(params: Seq<char>, s: Seq<char>) -> Seq<char> {
    csi(params) + s + csi(seq!['0'])
}

/// Whether `r` is what the color crate can print for `s`: the text alone
/// when coloring is off (no terminal, or switched off in the environment),
/// else the styled text. Only text with an escape character of its own may
/// come out otherwise.
pub open spec fn drawn(r: Seq<char>, params: Seq<char>, s: Seq<char>) -> bool {
    r == s || r == styled(params, s) || s.contains('\x1b')
}

/// Relies on `colored::Colorize::color` and `bold` on `&str`, and
/// `ColoredString`'s `Display`: the text alone when coloring is off, else
/// wrapped in the bold bright style and a reset.
#[verifier::external_body]
fn paint_bold(s: &str, p: Palette) -> (r: String)
    ensures
        drawn(r@, seq!['1', ';'] + bright(p), s@),
{
    let c = match p {
        Palette::Blue => colored::Color::BrightBlue,
        Palette::Green => colored::Color::BrightGreen,
        Palette::Red => colored::Color::BrightRed,
        Palette::Yellow => colored::Color::BrightYellow,
        Palette::Magenta => colored::Color::BrightMagenta,
        Palette::Cyan => colored::Color::BrightCyan,
        Palette::White => colored::Color::BrightWhite,
    };
    Colorize::bold(Colorize::color(s, c)).to_string()
}

/// Relies on `colored::Colorize::color` on `&str`, and `ColoredString`'s
/// `Display`: the text alone when coloring is off, else wrapped in the
/// bright style and a reset.
#[verifier::external_body]
fn paint(s: &str, p: Palette) -> (r: String)
    ensures
        drawn(r@, bright(p), s@),
{
    let c = match p {
        Palette::Blue => colored::Color::BrightBlue,
        Palette::Green => colored::Color::BrightGreen,
        Palette::Red => colored::Color::BrightRed,
        Palette::Yellow => colored::Color::BrightYellow,
        Palette::Magenta => colored::Color::BrightMagenta,
        Palette::Cyan => colored::Color::BrightCyan,
        Palette::White => colored::Color::BrightWhite,
    };
    Colorize::color(s, c).to_string()
}

/// How `owo_colors` draws `s` in the bright foreground of `p`: the color's
/// sequence, the text, and a reset of the foreground only.
pub open spec fn tinted(p: Palette, s: Seq<char>) -> Seq<char> {
    csi(bright(p)) + s + csi(seq!['3', '9'])
}

/// Relies on `owo_colors::OwoColorize::color` with an `AnsiColors` bright
/// variant and the `Display` of the result, which writes `ESC [ 9n m`, the
/// text, then `ESC [ 39 m`.
#[verifier::external_body]
fn tint(s: &str, p: Palette) -> (r: String)
    ensures
        r@ == tinted(p, s@),
{
    let c = match p {
        Palette::Blue => AnsiColors::BrightBlue,
        Palette::Green => AnsiColors::BrightGreen,
        Palette::Red => AnsiColors::BrightRed,
        Palette::Yellow => AnsiColors::BrightYellow,
        Palette::Magenta => AnsiColors::BrightMagenta,
        Palette::Cyan => AnsiColors::BrightCyan,
        Palette::White => AnsiColors::BrightWhite,
    };
    OwoColorize::color(&s, c).to_string()
}

/// The fields shown for a display order: one row per key that names a
/// field, in order; other keys give no row.
pub open spec fn shown(order: Seq<Seq<char>>) -> Seq<Field>
    decreases order.len(),
{
    if order.len() == 0 {
        Seq::empty()
    } else {
        let rest = shown(order.drop_last());
        match field_for(order.last()) {
            Some(f) => rest.push(f),
            None => rest,
        }
    }
}

pub proof fn lemma_shown_concat(a: Seq<Seq<char>>, b: Seq<Seq<char>>)
    ensures
        shown(a + b) == shown(a) + shown(b),
    decreases b.len(),
{
    if b.len() == 0 {
        assert(a + b =~= a);
        assert(shown(a) + shown(b) =~= shown(a));
    } else {
        lemma_shown_concat(a, b.drop_last());
        assert((a + b).drop_last() =~= a + b.drop_last());
        assert((a + b).last() == b.last());
        match field_for(b.last()) {
            Some(f) => {
                assert(shown(a) + shown(b.drop_last()).push(f) =~= (shown(a) + shown(
                    b.drop_last(),
                )).push(f));
            },
            None => {},
        }
    }
}

/// A key that names no field adds no row, wherever it stands in the order.
pub proof fn lemma_unknown_key_adds_no_row(a: Seq<Seq<char>>, k: Seq<char>, b: Seq<Seq<char>>)
    requires
        !is_key(k),
    ensures
        shown(a + seq![k] + b) == shown(a + b),
{
    lemma_shown_concat(a + seq![k], b);
    lemma_shown_concat(a, seq![k]);
    lemma_shown_concat(a, b);
    assert(seq![k].drop_last() =~= Seq::<Seq<char>>::empty());
    assert(field_for(k) is None) by {
        if field_for(k) is Some {
            assert(key_of(field_for(k)->0) == k);
        }
    }
    assert(seq![k].last() == k);
    assert(shown(Seq::<Seq<char>>::empty()) == Seq::<Field>::empty());
    assert(shown(seq![k]) == shown(seq![k].drop_last()));
    assert(shown(seq![k]) =~= Seq::<Field>::empty());
    assert(shown(a) + Seq::<Field>::empty() =~= shown(a));
}

/// The fields that `order` shows, in order.
pub fn shown_fields(order: &Vec<String>) -> (r: Vec<Field>)
    ensures
        r@ == shown(strings_view(order@)),
{
    let ghost all = strings_view(order@);
    let mut r: Vec<Field> = Vec::new();
    let mut i: usize = 0;
    while i < order.len()
        invariant
            i <= order@.len(),
            all == strings_view(order@),
            r@ == shown(all.subrange(0, i as int)),
        decreases order@.len() - i,
    {
        assert(all.subrange(0, i + 1).drop_last() =~= all.subrange(0, i as int));
        assert(all.subrange(0, i + 1).last() == order@[i as int]@);
        match Field::from_key(order[i].as_str()) {
            Some(f) => r.push(f),
            None => {},
        }
        i += 1;
    }
    assert(all.subrange(0, order@.len() as int) =~= all);
    r
}

/// The fixed width of the logo column, before the configured spacing.
pub const LOGO_WIDTH: usize = 60;

pub open spec fn spaces(n: nat) -> Seq<char> {
    Seq::new(n, |i: int| ' ')
}

/// `s` followed by spaces up to `w` characters, as a left-aligned format
/// field of width `w` prints it.
pub open spec fn pad(s: Seq<char>, w: nat) -> Seq<char> {
    if s.len() >= w {
        s
    } else {
        s + spaces((w - s.len()) as nat)
    }
}

/// Output row `i`: the logo line padded to the column width, a space and the
/// info line where both exist; the logo line alone where only it exists; a
/// blank padded column, a space and the info line where only that exists.
pub open spec fn row(logo: Seq<Seq<char>>, info: Seq<Seq<char>>, i: int, w: nat) -> Seq<char> {
    if i < logo.len() && i < info.len() {
        pad(logo[i], w) + seq![' '] + info[i]
    } else if i < logo.len() {
        logo[i]
    } else {
        pad(Seq::empty(), w) + seq![' '] + info[i]
    }
}

pub open spec fn max(a: nat, b: nat) -> nat {
    if a >= b {
        a
    } else {
        b
    }
}

/// All output rows: as many as the longer of the two columns.
pub open spec fn layout(logo: Seq<Seq<char>>, info: Seq<Seq<char>>, w: nat) -> Seq<Seq<char>> {
    Seq::new(max(logo.len(), info.len()), |i: int| row(logo, info, i, w))
}

/// The logo column: the logo's lines where it is shown, nothing otherwise.
pub open spec fn logo_column(logo: Seq<Seq<char>>, show_logo: bool) -> Seq<Seq<char>> {
    if show_logo {
        logo
    } else {
        Seq::empty()
    }
}

/// With `N` logo lines and `M` info lines, the output has `max(N, M)` rows
/// when the logo is shown and `M` rows when it is not.
pub proof fn lemma_row_count(logo: Seq<Seq<char>>, info: Seq<Seq<char>>, show_logo: bool, w: nat)
    ensures
        layout(logo_column(logo, show_logo), info, w).len() == if show_logo {
            max(logo.len(), info.len())
        } else {
            info.len()
        },
{
}

fn padded(s: &str, w: usize) -> (r: String)
    ensures
        r@ == pad(s@, w as nat),
{
    let n = s.unicode_len();
    let mut r = String::from_str(s);
    if n >= w {
        return r;
    }
    let mut k: usize = n;
    while k < w
        invariant
            n <= k <= w,
            n == s@.len(),
            r@ == s@ + spaces((k - n) as nat),
        decreases w - k,
    {
        r.append(" ");
        proof {
            reveal_strlit(" ");
        }
        assert(s@ + spaces((k - n) as nat) + " "@ =~= s@ + spaces((k + 1 - n) as nat));
        k += 1;
    }
    r
}

/// The output rows for a logo column and an info column, the logo column
/// left out where `show_logo` is false.
pub fn compose_rows(logo: &Vec<String>, info: &Vec<String>, show_logo: bool, spacing: u8) -> (r:
    Vec<String>)
    ensures
        strings_view(r@) == layout(
            logo_column(strings_view(logo@), show_logo),
            strings_view(info@),
            (LOGO_WIDTH + spacing) as nat,
        ),
{
    let w: usize = LOGO_WIDTH + spacing as usize;
    let ghost lg = logo_column(strings_view(logo@), show_logo);
    let ghost inf = strings_view(info@);
    let n_logo: usize = if show_logo {
        logo.len()
    } else {
        0
    };
    let n = if n_logo >= info.len() {
        n_logo
    } else {
        info.len()
    };
    let ghost all = layout(lg, inf, w as nat);
    let mut r: Vec<String> = Vec::new();
    let mut i: usize = 0;
    while i < n
        invariant
            lg == logo_column(strings_view(logo@), show_logo),
            inf == strings_view(info@),
            all == layout(lg, inf, w as nat),
            n_logo == lg.len(),
            n == all.len(),
            i <= n,
            w == LOGO_WIDTH + spacing,
            strings_view(r@) == all.subrange(0, i as int),
        decreases n - i,
    {
        let line = if i < n_logo && i < info.len() {
            let mut l = padded(logo[i].as_str(), w);
            l.append(" ");
            l.append(info[i].as_str());
            l
        } else if i < n_logo {
            logo[i].clone()
        } else {
            let mut l = padded("", w);
            l.append(" ");
            l.append(info[i].as_str());
            l
        };
        proof {
            reveal_strlit(" ");
            reveal_strlit("");
        }
        assert(line@ == all[i as int]);
        let ghost before = r@;
        r.push(line);
        assert(r@ == before.push(line));
        assert(strings_view(r@) =~= strings_view(before).push(line@));
        assert(all.subrange(0, i + 1) =~= all.subrange(0, i as int).push(all[i as int]));
        i += 1;
    }
    assert(all.subrange(0, n as int) =~= all);
    r
}

/// The artwork drawn in the logo column.
pub const LOGO: &'static str = "\n                 .88888888:.\n                88888888.88888.\n              .8888888888888888.\n              888888888888888888\n              88' _`88'_  `88888\n              88 88 88 88  88888\n              88_88_::_88_:88888\n              88:::,::,:::::8888\n              88`:::::::::'`8888\n             .88  `::::'    8:88.\n            8888            `8:888.\n          .8888'             `888888.\n         .8888:..  .::.  ...:'8888888:.\n        .8888.'     :'     `'::`88:88888\n       .8888        '         `.888:8888.\n      888:8         .           888:88888\n    .888:88        .:           888:88888:\n    8888888.       ::           88:888888\n    `.::.888.      ::          .88888888\n   .::::::.888.    ::         :::`8888'.:.\n  ::::::::::.888   '         .::::::::::::\n  ::::::::::::.8    '      .:8::::::::::::.\n .::::::::::::::.        .:888:::::::::::::\n :::::::::::::::88:.__..:88888:::::::::::'\n  `'.:::::::::::88888888888.88:::::::::'\n        `':::_:' -- '' -'-' `':_::::'`\n";

/// The lines of the logo artwork.
pub fn logo_lines() -> (r: Vec<String>)
    ensures
        strings_view(r@) == lines_of(LOGO@),
{
    let cs = chars_of(LOGO);
    let ls = lines(cs.as_slice());
    let mut r: Vec<String> = Vec::new();
    let mut i: usize = 0;
    while i < ls.len()
        invariant
            i <= ls@.len() == lines_of(LOGO@).len(),
            forall|k: int| 0 <= k < ls@.len() ==> #[trigger] ls@[k]@ == lines_of(LOGO@)[k],
            strings_view(r@) == lines_of(LOGO@).subrange(0, i as int),
        decreases ls@.len() - i,
    {
        let line = string_of(ls[i].as_slice());
        let ghost before = r@;
        r.push(line);
        assert(strings_view(r@) =~= strings_view(before).push(line@));
        i += 1;
        assert(strings_view(r@) =~= lines_of(LOGO@).subrange(0, i as int));
    }
    assert(lines_of(LOGO@).subrange(0, ls@.len() as int) =~= lines_of(LOGO@));
    r
}

/// Each of `drawn_lines` is how the color crate can print the matching logo
/// line in the bright color `p`.
pub open spec fn logo_drawn(drawn_lines: Seq<Seq<char>>, lines: Seq<Seq<char>>, p: Palette) -> bool {
    drawn_lines.len() == lines.len() && forall|k: int|
        0 <= k < lines.len() ==> drawn(#[trigger] drawn_lines[k], bright(p), lines[k])
}

/// The logo lines, each colored in `p`.
pub fn paint_logo(lines: &Vec<String>, p: Palette) -> (r: Vec<String>)
    ensures
        logo_drawn(strings_view(r@), strings_view(lines@), p),
{
    let mut r: Vec<String> = Vec::new();
    let mut i: usize = 0;
    while i < lines.len()
        invariant
            i <= lines@.len(),
            r@.len() == i,
            forall|k: int|
                0 <= k < i ==> drawn(#[trigger] r@[k]@, bright(p), lines@[k]@),
        decreases lines@.len() - i,
    {
        let line = paint(lines[i].as_str(), p);
        r.push(line);
        i += 1;
    }
    r
}

/// Info row `k`: the label as the color crate can print it bold in `lp`, a
/// space, then the field's value tinted in `vp`.
pub open spec fn info_row(
    line: Seq<char>,
    f: Field,
    snapshot: Seq<Seq<char>>,
    lp: Palette,
    vp: Palette,
) -> bool {
    exists|label: Seq<char>|
        drawn(label, seq!['1', ';'] + bright(lp), key_of(f)) && line == label + seq![' '] + tinted(
            vp,
            snapshot[field_index(f) as int],
        )
}

pub open spec fn info_drawn(
    info: Seq<Seq<char>>,
    fields: Seq<Field>,
    snapshot: Seq<Seq<char>>,
    lp: Palette,
    vp: Palette,
) -> bool {
    info.len() == fields.len() && forall|k: int|
        0 <= k < info.len() ==> info_row(#[trigger] info[k], fields[k], snapshot, lp, vp)
}

/// One info line per field of `fields`, label colored in `lp` and value in `vp`.
pub fn info_lines(snapshot: &SystemSnapshot, fields: &Vec<Field>, lp: Palette, vp: Palette) -> (r:
    Vec<String>)
    requires
        snapshot.wf(),
    ensures
        info_drawn(strings_view(r@), fields@, snapshot@, lp, vp),
{
    let mut r: Vec<String> = Vec::new();
    let mut i: usize = 0;
    while i < fields.len()
        invariant
            snapshot.wf(),
            i <= fields@.len(),
            r@.len() == i,
            forall|k: int|
                0 <= k < i ==> info_row(#[trigger] r@[k]@, fields@[k], snapshot@, lp, vp),
        decreases fields@.len() - i,
    {
        let f = fields[i];
        let mut line = paint_bold(f.key(), lp);
        let ghost label = line@;
        let value = tint(snapshot.value(f).as_str(), vp);
        line.append(" ");
        line.append(value.as_str());
        proof {
            reveal_strlit(" ");
        }
        assert(line@ =~= label + seq![' '] + tinted(vp, snapshot@[field_index(f) as int]));
        assert(info_row(line@, f, snapshot@, lp, vp));
        r.push(line);
        i += 1;
    }
    assert(strings_view(r@).len() == fields@.len());
    assert forall|k: int| 0 <= k < r@.len() implies info_row(
        #[trigger] strings_view(r@)[k],
        fields@[k],
        snapshot@,
        lp,
        vp,
    ) by {
        assert(strings_view(r@)[k] == r@[k]@);
    }
    r
}

/// The printed output for a snapshot under a configuration: the colored
/// logo column (when shown) beside the colored info rows that the display
/// order selects, laid out at the fixed column width plus the spacing.
pub fn render(snapshot: &SystemSnapshot, config: &Config) -> (r: Vec<String>)
    requires
        snapshot.wf(),
    ensures
        exists|logo: Seq<Seq<char>>, info: Seq<Seq<char>>|
            {
                &&& logo_drawn(
                    logo,
                    lines_of(LOGO@),
                    palette_for(config.colors.logo@, Role::Logo),
                )
                &&& info_drawn(
                    info,
                    shown(strings_view(config.info_order@)),
                    snapshot@,
                    palette_for(config.colors.label@, Role::Label),
                    palette_for(config.colors.value@, Role::Value),
                )
                &&& strings_view(r@) == layout(
                    logo_column(logo, config.show_logo),
                    info,
                    (LOGO_WIDTH + config.spacing) as nat,
                )
            },
{
    let lp = Palette::for_role(config.colors.label.as_str(), Role::Label);
    let vp = Palette::for_role(config.colors.value.as_str(), Role::Value);
    let gp = Palette::for_role(config.colors.logo.as_str(), Role::Logo);
    let raw = logo_lines();
    let column = if config.show_logo {
        paint_logo(&raw, gp)
    } else {
        raw
    };
    let fields = shown_fields(&config.info_order);
    let info = info_lines(snapshot, &fields, lp, vp);
    let r = compose_rows(&column, &info, config.show_logo, config.spacing);
    assert(logo_drawn(strings_view(column@), lines_of(LOGO@), gp));
    assert(info_drawn(strings_view(info@), shown(strings_view(config.info_order@)), snapshot@, lp, vp));
    r
}

} // verus!
