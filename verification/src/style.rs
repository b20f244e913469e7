//! Colors and text attributes of a cell, and the escape sequences that carry them.
use vstd::prelude::*;

use crate::text::{decimal, push_decimal};

verus! {

/// A foreground or background color.
#[derive(Clone, Copy, Debug, PartialEq, Eq, Structural)]
pub enum Color {
    Default,
    Indexed(u8),
    Rgb(u8, u8, u8),
}

impl Default for Color {
    fn default() -> (r: Self)
        ensures
            r == Color::Default,
    {
        Color::Default
    }
}

/// How a character is drawn.
#[derive(Clone, Copy, Debug, PartialEq, Eq, Structural)]
pub struct Style {
    pub fg: Color,
    pub bg: Color,
    pub bold: bool,
    pub italic: bool,
    pub underline: bool,
    pub reverse: bool,
}

/// The style of plain text: default colors and no attribute.
pub open spec fn plain_style() -> Style {
    Style {
        fg: Color::Default,
        bg: Color::Default,
        bold: false,
        italic: false,
        underline: false,
        reverse: false,
    }
}

impl Default for Style {
    fn default() -> (r: Self)
        ensures
            r == plain_style(),
    {
        Style {
            fg: Color::Default,
            bg: Color::Default,
            bold: false,
            italic: false,
            underline: false,
            reverse: false,
        }
    }
}

/// The low byte of an SGR parameter.
pub open spec fn low_byte(v: u16) -> u8 {
    (v % 256) as u8
}

/// The parameter at `i`, where a missing one counts as 0.
pub open spec fn code_at(codes: Seq<u16>, i: int) -> u16 {
    if 0 <= i < codes.len() {
        codes[i]
    } else {
        0
    }
}

/// The color that follows a leading 38 or 48, and how many parameters the two
/// take up together.
pub open spec fn extended_color(codes: Seq<u16>) -> (Color, nat) {
    if codes.len() > 1 && codes[1] == 5 {
        (Color::Indexed(low_byte(code_at(codes, 2))), 3)
    } else if codes.len() > 1 && codes[1] == 2 {
        (
            Color::Rgb(
                low_byte(code_at(codes, 2)),
                low_byte(code_at(codes, 3)),
                low_byte(code_at(codes, 4)),
            ),
            5,
        )
    } else {
        (Color::Default, 1)
    }
}

/// What the first of the parameters does to a style, and how many parameters it
/// takes up.
pub open spec fn apply_first(style: Style, codes: Seq<u16>) -> (Style, nat)
    recommends
        codes.len() > 0,
{
    let c = codes[0];
    if c == 38 {
        (Style { fg: extended_color(codes).0, ..style }, extended_color(codes).1)
    } else if c == 48 {
        (Style { bg: extended_color(codes).0, ..style }, extended_color(codes).1)
    } else {
        (apply_simple(style, c), 1)
    }
}

/// What a parameter that stands for itself does to a style.
pub open spec fn apply_simple(style: Style, c: u16) -> Style {
    if c == 0 {
        plain_style()
    } else if c == 1 {
        Style { bold: true, ..style }
    } else if c == 3 {
        Style { italic: true, ..style }
    } else if c == 4 {
        Style { underline: true, ..style }
    } else if c == 7 {
        Style { reverse: true, ..style }
    } else if c == 22 {
        Style { bold: false, ..style }
    } else if c == 23 {
        Style { italic: false, ..style }
    } else if c == 24 {
        Style { underline: false, ..style }
    } else if c == 27 {
        Style { reverse: false, ..style }
    } else if 30 <= c <= 37 {
        Style { fg: Color::Indexed((c - 30) as u8), ..style }
    } else if c == 39 {
        Style { fg: Color::Default, ..style }
    } else if 90 <= c <= 97 {
        Style { fg: Color::Indexed((c - 90 + 8) as u8), ..style }
    } else if 40 <= c <= 47 {
        Style { bg: Color::Indexed((c - 40) as u8), ..style }
    } else if c == 49 {
        Style { bg: Color::Default, ..style }
    } else if 100 <= c <= 107 {
        Style { bg: Color::Indexed((c - 100 + 8) as u8), ..style }
    } else {
        style
    }
}

/// What the parameters, taken from the left, do to a style.
pub open spec fn apply_each(style: Style, codes: Seq<u16>) -> Style
    decreases codes.len(),
{
    if codes.len() == 0 {
        style
    } else {
        let (next, used) = apply_first(style, codes);
        if used >= codes.len() {
            next
        } else {
            apply_each(next, codes.skip(used as int))
        }
    }
}

/// What an SGR sequence with these parameters does to a style. One without
/// parameters resets it.
pub open spec fn apply_codes(style: Style, codes: Seq<u16>) -> Style {
    if codes.len() == 0 {
        plain_style()
    } else {
        apply_each(style, codes)
    }
}

/// The parameter at `i`, cut to its low byte; 0 where there is none.
fn byte_at(codes: &Vec<u16>, i: usize, ahead: usize) -> (r: u8)
    requires
        i < codes.len(),
    ensures
        r == low_byte(code_at(codes@, i + ahead)),
{
    if codes.len() - i > ahead {
        let v: u16 = codes[i + ahead];
        assert((v as u8) == (v % 256) as u8) by (bit_vector);
        v as u8
    } else {
        0
    }
}

/// The style that an SGR sequence with these parameters leaves behind.
pub fn styled(style: Style, codes: &Vec<u16>) -> (r: Style)
    ensures
        r == apply_codes(style, codes@),
{
    let n: usize = codes.len();
    if n == 0 {
        return Style::default();
    }
    let mut s: Style = style;
    let mut i: usize = 0;
    assert(codes@.skip(0) =~= codes@);
    while i < n
        invariant
            i <= n == codes.len(),
            n > 0,
            apply_each(s, codes@.skip(i as int)) == apply_codes(style, codes@),
        decreases n - i,
    {
        let c: u16 = codes[i];
        let ghost rest = codes@.skip(i as int);
        let ghost before = s;
        let mut used: usize = 1;
        assert(rest[0] == c);
        if c == 38 || c == 48 {
            let mut color = Color::Default;
            if n - i > 1 && codes[i + 1] == 5 {
                color = Color::Indexed(byte_at(codes, i, 2));
                used = 3;
            } else if n - i > 1 && codes[i + 1] == 2 {
                color = Color::Rgb(byte_at(codes, i, 2), byte_at(codes, i, 3), byte_at(codes, i, 4));
                used = 5;
            }
            assert((color, used as nat) == extended_color(rest));
            if c == 38 {
                s.fg = color;
            } else {
                s.bg = color;
            }
        } else {
            s = styled_once(s, c);
        }
        assert(apply_first(before, rest) == (s, used as nat));
        if n - i > used {
            assert(rest.skip(used as int) =~= codes@.skip(i + used));
            i = i + used;
        } else {
            i = n;
            assert(codes@.skip(n as int) =~= seq![]);
        }
    }
    s
}

/// The style that a parameter which stands for itself leaves behind.
fn styled_once(style: Style, c: u16) -> (r: Style)
    ensures
        r == apply_simple(style, c),
{
    let mut s: Style = style;
    match c {
        0 => {
            s = Style::default();
        },
        1 => {
            s.bold = true;
        },
        3 => {
            s.italic = true;
        },
        4 => {
            s.underline = true;
        },
        7 => {
            s.reverse = true;
        },
        22 => {
            s.bold = false;
        },
        23 => {
            s.italic = false;
        },
        24 => {
            s.underline = false;
        },
        27 => {
            s.reverse = false;
        },
        30..=37 => {
            s.fg = Color::Indexed((c - 30) as u8);
        },
        39 => {
            s.fg = Color::Default;
        },
        90..=97 => {
            s.fg = Color::Indexed((c - 90 + 8) as u8);
        },
        40..=47 => {
            s.bg = Color::Indexed((c - 40) as u8);
        },
        49 => {
            s.bg = Color::Default;
        },
        100..=107 => {
            s.bg = Color::Indexed((c - 100 + 8) as u8);
        },
        _ => {},
    }
    s
}

/// The SGR parameters of a color behind 38 (foreground) or 48 (background); none
/// for the default color.
pub open spec fn color_codes(lead: u16, color: Color) -> Seq<u16> {
    match color {
        Color::Default => seq![],
        Color::Indexed(i) => seq![lead, 5, i as u16],
        Color::Rgb(r, g, b) => seq![lead, 2, r as u16, g as u16, b as u16],
    }
}

/// The single parameter `code` where `on` holds, else none.
pub open spec fn flag_code(on: bool, code: u16) -> Seq<u16> {
    if on {
        seq![code]
    } else {
        seq![]
    }
}

impl Style {
    /// The SGR parameters that establish this style: a reset, then what it turns on.
    pub open spec fn codes(self) -> Seq<u16> {
        seq![0u16] + flag_code(self.bold, 1) + flag_code(self.italic, 3) + flag_code(
            self.underline,
            4,
        ) + flag_code(self.reverse, 7) + color_codes(38, self.fg) + color_codes(48, self.bg)
    }
}

/// The numerals of the parameters, with a semicolon between each two neighbours.
pub open spec fn code_list(codes: Seq<u16>) -> Seq<char>
    decreases codes.len(),
{
    if codes.len() == 0 {
        seq![]
    } else if codes.len() == 1 {
        decimal(codes[0] as nat)
    } else {
        code_list(codes.drop_last()).push(';') + decimal(codes.last() as nat)
    }
}

/// The numerals of a parameter and its subparameters, with a colon between each two
/// neighbours.
pub open spec fn subparam_list(group: Seq<u16>) -> Seq<char>
    decreases group.len(),
{
    if group.len() == 0 {
        seq![]
    } else if group.len() == 1 {
        decimal(group[0] as nat)
    } else {
        subparam_list(group.drop_last()).push(':') + decimal(group.last() as nat)
    }
}

/// The parameters, each with its subparameters, with a semicolon between each two
/// neighbours.
pub open spec fn param_list(groups: Seq<Seq<u16>>) -> Seq<char>
    decreases groups.len(),
{
    if groups.len() == 0 {
        seq![]
    } else if groups.len() == 1 {
        subparam_list(groups[0])
    } else {
        param_list(groups.drop_last()).push(';') + subparam_list(groups.last())
    }
}

/// Each parameter by itself, without subparameters.
pub open spec fn single_params(codes: Seq<u16>) -> Seq<Seq<u16>> {
    codes.map_values(|c: u16| seq![c])
}

/// Without subparameters only semicolons separate.
pub proof fn single_params_are_listed(codes: Seq<u16>)
    ensures
        param_list(single_params(codes)) == code_list(codes),
    decreases codes.len(),
{
    if codes.len() > 0 {
        single_params_are_listed(codes.drop_last());
        assert(single_params(codes).drop_last() =~= single_params(codes.drop_last()));
        assert(subparam_list(seq![codes.last()]) == decimal(codes.last() as nat));
        assert(single_params(codes).last() == seq![codes.last()]);
    }
}

/// The SGR sequence with these parameters: escape, bracket, the list, `m`.
pub open spec fn sgr_sequence(codes: Seq<u16>) -> Seq<char> {
    seq!['\x1b', '['] + code_list(codes) + seq!['m']
}

/// Appends a semicolon and one more parameter.
fn push_code(out: &mut String, code: u8, Ghost(codes): Ghost<Seq<u16>>)
    requires
        codes.len() > 0,
        old(out)@ == seq!['\x1b', '['] + code_list(codes),
    ensures
        final(out)@ == seq!['\x1b', '['] + code_list(codes.push(code as u16)),
{
    out.push(';');
    push_decimal(out, code as u128);
    assert(codes.push(code as u16).drop_last() =~= codes);
    assert(out@ =~= seq!['\x1b', '['] + code_list(codes.push(code as u16)));
}

/// Appends the parameters of a color behind `lead`.
fn push_color(out: &mut String, lead: u8, color: Color, Ghost(codes): Ghost<Seq<u16>>)
    requires
        codes.len() > 0,
        old(out)@ == seq!['\x1b', '['] + code_list(codes),
    ensures
        final(out)@ == seq!['\x1b', '['] + code_list(codes + color_codes(lead as u16, color)),
{
    match color {
        Color::Default => {
            assert(codes + color_codes(lead as u16, color) =~= codes);
        },
        Color::Indexed(i) => {
            push_code(out, lead, Ghost(codes));
            push_code(out, 5, Ghost(codes.push(lead as u16)));
            push_code(out, i, Ghost(codes.push(lead as u16).push(5)));
            assert(codes + color_codes(lead as u16, color) =~= codes.push(lead as u16).push(5).push(
                i as u16,
            ));
        },
        Color::Rgb(r, g, b) => {
            let ghost c2 = codes.push(lead as u16).push(2);
            push_code(out, lead, Ghost(codes));
            push_code(out, 2, Ghost(codes.push(lead as u16)));
            push_code(out, r, Ghost(c2));
            push_code(out, g, Ghost(c2.push(r as u16)));
            push_code(out, b, Ghost(c2.push(r as u16).push(g as u16)));
            assert(codes + color_codes(lead as u16, color) =~= c2.push(r as u16).push(
                g as u16,
            ).push(b as u16));
        },
    }
}

impl Style {
    /// The SGR sequence that establishes this style from any other: a reset first,
    /// then what this style turns on.
    pub fn sgr(&self) -> (r: String)
        ensures
            r@ == sgr_sequence(self.codes()),
    {
        let mut out = String::new();
        out.push('\x1b');
        out.push('[');
        out.push('0');
        let ghost mut codes: Seq<u16> = seq![0u16];
        assert(out@ =~= seq!['\x1b', '['] + code_list(codes));
        if self.bold {
            push_code(&mut out, 1, Ghost(codes));
        }
        proof {
            assert(codes.push(1) =~= codes + seq![1u16]);
            assert(codes + seq![] =~= codes);
            codes = codes + flag_code(self.bold, 1);
        }
        if self.italic {
            push_code(&mut out, 3, Ghost(codes));
        }
        proof {
            assert(codes.push(3) =~= codes + seq![3u16]);
            assert(codes + seq![] =~= codes);
            codes = codes + flag_code(self.italic, 3);
        }
        if self.underline {
            push_code(&mut out, 4, Ghost(codes));
        }
        proof {
            assert(codes.push(4) =~= codes + seq![4u16]);
            assert(codes + seq![] =~= codes);
            codes = codes + flag_code(self.underline, 4);
        }
        if self.reverse {
            push_code(&mut out, 7, Ghost(codes));
        }
        proof {
            assert(codes.push(7) =~= codes + seq![7u16]);
            assert(codes + seq![] =~= codes);
            codes = codes + flag_code(self.reverse, 7);
        }
        push_color(&mut out, 38, self.fg, Ghost(codes));
        proof {
            codes = codes + color_codes(38, self.fg);
        }
        push_color(&mut out, 48, self.bg, Ghost(codes));
        out.push('m');
        assert(out@ =~= sgr_sequence(self.codes()));
        out
    }
}

/// Parameters that are read one after the other do what they do in two portions, where
/// the first portion holds only parameters that stand for themselves.
pub proof fn portions_apply_in_turn(style: Style, first: Seq<u16>, rest: Seq<u16>)
    requires
        forall|i: int|
            0 <= i < first.len() ==> #[trigger] first[i] != 38 && first[i] != 48,
    ensures
        apply_each(style, first + rest) == apply_each(apply_each(style, first), rest),
    decreases first.len(),
{
    if first.len() == 0 {
        assert(first + rest =~= rest);
    } else {
        let all = first + rest;
        let next = apply_simple(style, first[0]);
        assert(all[0] == first[0]);
        assert(all.skip(1) =~= first.skip(1) + rest);
        assert(apply_each(style, first) == apply_each(next, first.skip(1)));
        assert(apply_each(style, all) == apply_each(next, first.skip(1) + rest));
        portions_apply_in_turn(next, first.skip(1), rest);
    }
}

proof fn apply_after_one(style: Style, c: u16, rest: Seq<u16>)
    requires
        c != 38,
        c != 48,
    ensures
        apply_each(style, seq![c] + rest) == apply_each(apply_simple(style, c), rest),
{
    portions_apply_in_turn(style, seq![c], rest);
    assert(seq![c].skip(1) =~= seq![]);
    assert(apply_each(style, seq![c]) == apply_each(apply_simple(style, c), seq![]));
}

proof fn apply_after_flag(style: Style, on: bool, c: u16, rest: Seq<u16>)
    requires
        c != 38,
        c != 48,
    ensures
        apply_each(style, flag_code(on, c) + rest) == apply_each(
            if on {
                apply_simple(style, c)
            } else {
                style
            },
            rest,
        ),
{
    if on {
        apply_after_one(style, c, rest);
    } else {
        assert(flag_code(on, c) + rest =~= rest);
    }
}

proof fn apply_after_color(style: Style, lead: u16, color: Color, rest: Seq<u16>)
    requires
        lead == 38 || lead == 48,
    ensures
        apply_each(style, color_codes(lead, color) + rest) == apply_each(
            if color == Color::Default {
                style
            } else if lead == 38 {
                Style { fg: color, ..style }
            } else {
                Style { bg: color, ..style }
            },
            rest,
        ),
{
    let all = color_codes(lead, color) + rest;
    match color {
        Color::Default => {
            assert(all =~= rest);
        },
        Color::Indexed(i) => {
            assert(all[0] == lead && all[1] == 5 && all[2] == i as u16);
            assert(low_byte(all[2]) == i);
            if rest.len() > 0 {
                assert(all.skip(3) =~= rest);
            }
        },
        Color::Rgb(r, g, b) => {
            assert(all[0] == lead && all[1] == 2);
            assert(all[2] == r as u16 && all[3] == g as u16 && all[4] == b as u16);
            assert(low_byte(all[2]) == r && low_byte(all[3]) == g && low_byte(all[4]) == b);
            if rest.len() > 0 {
                assert(all.skip(5) =~= rest);
            }
        },
    }
}

proof fn concat_from_the_right(
    a: Seq<u16>,
    b: Seq<u16>,
    c: Seq<u16>,
    d: Seq<u16>,
    e: Seq<u16>,
    f: Seq<u16>,
    g: Seq<u16>,
)
    ensures
        a + b + c + d + e + f + g == a + (b + (c + (d + (e + (f + g))))),
{
    assert(a + b + c + d + e + f + g =~= a + (b + (c + (d + (e + (f + g))))));
}

/// The parameters of a style's own sequence turn every style into that style.
pub proof fn sgr_establishes_style(before: Style, style: Style)
    ensures
        apply_codes(before, style.codes()) == style,
{
    let c6 = color_codes(48, style.bg);
    let c5 = color_codes(38, style.fg) + c6;
    let c4 = flag_code(style.reverse, 7) + c5;
    let c3 = flag_code(style.underline, 4) + c4;
    let c2 = flag_code(style.italic, 3) + c3;
    let c1 = flag_code(style.bold, 1) + c2;
    assert(style.codes() == seq![0u16] + c1) by {
        concat_from_the_right(
            seq![0u16],
            flag_code(style.bold, 1),
            flag_code(style.italic, 3),
            flag_code(style.underline, 4),
            flag_code(style.reverse, 7),
            color_codes(38, style.fg),
            c6,
        );
    }
    let s0 = plain_style();
    let s1 = Style { bold: style.bold, ..s0 };
    let s2 = Style { italic: style.italic, ..s1 };
    let s3 = Style { underline: style.underline, ..s2 };
    let s4 = Style { reverse: style.reverse, ..s3 };
    let s5 = Style { fg: style.fg, ..s4 };
    apply_after_one(before, 0, c1);
    apply_after_flag(s0, style.bold, 1, c2);
    apply_after_flag(s1, style.italic, 3, c3);
    apply_after_flag(s2, style.underline, 4, c4);
    apply_after_flag(s3, style.reverse, 7, c5);
    apply_after_color(s4, 38, style.fg, c6);
    assert(c6 =~= c6 + seq![]);
    apply_after_color(s5, 48, style.bg, seq![]);
    assert(apply_each(style, seq![]) == style);
}

} // verus!
