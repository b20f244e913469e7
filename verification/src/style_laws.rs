//! What the parameters of SGR sequences mean, and what a style's own sequence says.
use vstd::prelude::*;

use crate::style::{apply_codes, apply_first, Color, Style};

verus! {

proof fn first_then_rest(style: Style, codes: Seq<u16>)
    requires
        codes.len() > 0,
    ensures
        ({
            let (next, used) = apply_first(style, codes);
            apply_codes(style, codes) == if used >= codes.len() {
                next
            } else {
                apply_codes(next, codes.skip(used as int))
            }
        }),
{
}

/// The style that `rest` makes of `style`, where the parameters of a sequence go on;
/// `style` itself where they do not.
pub open spec fn going_on(style: Style, rest: Seq<u16>) -> Style {
    if rest.len() == 0 {
        style
    } else {
        apply_codes(style, rest)
    }
}

/// A reset, by an empty list or by a zero, leaves default colors and no attribute.
pub proof fn resets_leave_nothing(style: Style)
    ensures
        forall|codes: Seq<u16>|
            codes.len() == 0 || codes == seq![0u16] ==> ({
                let r = #[trigger] apply_codes(style, codes);
                &&& r.fg == Color::Default && r.bg == Color::Default
                &&& !r.bold && !r.italic && !r.underline && !r.reverse
            }),
{
    assert forall|codes: Seq<u16>| codes.len() == 0 || codes == seq![0u16] implies ({
        let r = #[trigger] apply_codes(style, codes);
        &&& r.fg == Color::Default && r.bg == Color::Default
        &&& !r.bold && !r.italic && !r.underline && !r.reverse
    }) by {
        if codes.len() > 0 {
            first_then_rest(style, codes);
        }
    }
}

/// The colors of the palette: 30 to 37 and 90 to 97 name the sixteen foreground colors
/// that 38;5;0 to 38;5;15 name, and 40 to 47 and 100 to 107 the background colors that
/// 48;5;0 to 48;5;15 name. Nothing but that color changes.
pub proof fn short_codes_name_the_palette(style: Style, n: u16)
    requires
        n < 8,
    ensures
        apply_codes(style, seq![(30 + n) as u16]) == apply_codes(style, seq![38, 5, n]),
        apply_codes(style, seq![(40 + n) as u16]) == apply_codes(style, seq![48, 5, n]),
        apply_codes(style, seq![(90 + n) as u16]) == apply_codes(
            style,
            seq![38, 5, (8 + n) as u16],
        ),
        apply_codes(style, seq![(100 + n) as u16]) == apply_codes(
            style,
            seq![48, 5, (8 + n) as u16],
        ),
        apply_codes(style, seq![(30 + n) as u16]) == (Style {
            fg: Color::Indexed(n as u8),
            ..style
        }),
        apply_codes(style, seq![(40 + n) as u16]) == (Style {
            bg: Color::Indexed(n as u8),
            ..style
        }),
{
    first_then_rest(style, seq![(30 + n) as u16]);
    first_then_rest(style, seq![(40 + n) as u16]);
    first_then_rest(style, seq![(90 + n) as u16]);
    first_then_rest(style, seq![(100 + n) as u16]);
    first_then_rest(style, seq![38, 5, n]);
    first_then_rest(style, seq![48, 5, n]);
    first_then_rest(style, seq![38, 5, (8 + n) as u16]);
    first_then_rest(style, seq![48, 5, (8 + n) as u16]);
}

/// 38;5;i and 48;5;i set the foreground and the background to color i of the palette,
/// and what follows goes on from there. Only the low byte of i counts.
pub proof fn indexed_colors_are_taken_over(style: Style, i: u16, rest: Seq<u16>)
    ensures
        apply_codes(style, seq![38u16, 5, i] + rest) == going_on(
            Style { fg: Color::Indexed((i % 256) as u8), ..style },
            rest,
        ),
        apply_codes(style, seq![48u16, 5, i] + rest) == going_on(
            Style { bg: Color::Indexed((i % 256) as u8), ..style },
            rest,
        ),
{
    let fg = seq![38u16, 5, i] + rest;
    let bg = seq![48u16, 5, i] + rest;
    first_then_rest(style, fg);
    first_then_rest(style, bg);
    assert(fg[0] == 38 && fg[1] == 5 && fg[2] == i);
    assert(bg[0] == 48 && bg[1] == 5 && bg[2] == i);
    assert(fg.skip(3) =~= rest);
    assert(bg.skip(3) =~= rest);
}

/// 38;2;r;g;b and 48;2;r;g;b set the foreground and the background to these shares of
/// red, green and blue, and what follows goes on from there.
pub proof fn true_colors_are_taken_over(style: Style, r: u16, g: u16, b: u16, rest: Seq<u16>)
    ensures
        apply_codes(style, seq![38u16, 2, r, g, b] + rest) == going_on(
            Style {
                fg: Color::Rgb((r % 256) as u8, (g % 256) as u8, (b % 256) as u8),
                ..style
            },
            rest,
        ),
        apply_codes(style, seq![48u16, 2, r, g, b] + rest) == going_on(
            Style {
                bg: Color::Rgb((r % 256) as u8, (g % 256) as u8, (b % 256) as u8),
                ..style
            },
            rest,
        ),
{
    let fg = seq![38u16, 2, r, g, b] + rest;
    let bg = seq![48u16, 2, r, g, b] + rest;
    first_then_rest(style, fg);
    first_then_rest(style, bg);
    assert(fg[0] == 38 && fg[1] == 2 && fg[2] == r && fg[3] == g && fg[4] == b);
    assert(bg[0] == 48 && bg[1] == 2 && bg[2] == r && bg[3] == g && bg[4] == b);
    assert(fg.skip(5) =~= rest);
    assert(bg.skip(5) =~= rest);
}

/// A color that is cut off at the end of the list is read as if zeros followed.
pub proof fn missing_shares_are_zero(style: Style, lead: u16, r: u16, g: u16)
    requires
        lead == 38 || lead == 48,
    ensures
        apply_codes(style, seq![lead, 5]) == apply_codes(style, seq![lead, 5, 0]),
        apply_codes(style, seq![lead, 2]) == apply_codes(style, seq![lead, 2, 0, 0, 0]),
        apply_codes(style, seq![lead, 2, r]) == apply_codes(style, seq![lead, 2, r, 0, 0]),
        apply_codes(style, seq![lead, 2, r, g]) == apply_codes(style, seq![lead, 2, r, g, 0]),
{
    first_then_rest(style, seq![lead, 5]);
    first_then_rest(style, seq![lead, 5, 0]);
    first_then_rest(style, seq![lead, 2]);
    first_then_rest(style, seq![lead, 2, r]);
    first_then_rest(style, seq![lead, 2, r, g]);
    first_then_rest(style, seq![lead, 2, 0, 0, 0]);
    first_then_rest(style, seq![lead, 2, r, 0, 0]);
    first_then_rest(style, seq![lead, 2, r, g, 0]);
}

/// 38 and 48 without a kind of color that is known go back to the default color, like 39
/// and 49, and what follows counts by itself.
pub proof fn unknown_colors_are_the_default(style: Style, rest: Seq<u16>)
    requires
        rest.len() > 0 ==> rest[0] != 5 && rest[0] != 2,
    ensures
        apply_codes(style, seq![38u16] + rest) == going_on(
            Style { fg: Color::Default, ..style },
            rest,
        ),
        apply_codes(style, seq![48u16] + rest) == going_on(
            Style { bg: Color::Default, ..style },
            rest,
        ),
        apply_codes(style, seq![39u16]) == (Style { fg: Color::Default, ..style }),
        apply_codes(style, seq![49u16]) == (Style { bg: Color::Default, ..style }),
{
    let fg = seq![38u16] + rest;
    let bg = seq![48u16] + rest;
    first_then_rest(style, fg);
    first_then_rest(style, bg);
    first_then_rest(style, seq![39u16]);
    first_then_rest(style, seq![49u16]);
    if rest.len() > 0 {
        assert(fg[1] == rest[0] && bg[1] == rest[0]);
    }
    assert(fg.skip(1) =~= rest);
    assert(bg.skip(1) =~= rest);
}

/// 1, 3, 4 and 7 switch bold, italic, underline and reverse on, and 22, 23, 24 and 27
/// switch them off again; nothing else changes.
pub proof fn attributes_switch_on_and_off(style: Style)
    ensures
        apply_codes(style, seq![1u16]) == (Style { bold: true, ..style }),
        apply_codes(style, seq![3u16]) == (Style { italic: true, ..style }),
        apply_codes(style, seq![4u16]) == (Style { underline: true, ..style }),
        apply_codes(style, seq![7u16]) == (Style { reverse: true, ..style }),
        apply_codes(style, seq![22u16]) == (Style { bold: false, ..style }),
        apply_codes(style, seq![23u16]) == (Style { italic: false, ..style }),
        apply_codes(style, seq![24u16]) == (Style { underline: false, ..style }),
        apply_codes(style, seq![27u16]) == (Style { reverse: false, ..style }),
{
    first_then_rest(style, seq![1u16]);
    first_then_rest(style, seq![3u16]);
    first_then_rest(style, seq![4u16]);
    first_then_rest(style, seq![7u16]);
    first_then_rest(style, seq![22u16]);
    first_then_rest(style, seq![23u16]);
    first_then_rest(style, seq![24u16]);
    first_then_rest(style, seq![27u16]);
}

/// Every other parameter leaves the style as it is.
pub proof fn other_codes_mean_nothing(style: Style, c: u16)
    requires
        c == 2 || c == 5 || c == 6 || 8 <= c <= 21 || c == 25 || c == 26 || c == 28 || c == 29
            || 50 <= c <= 89 || 98 <= c <= 99 || 108 <= c,
    ensures
        apply_codes(style, seq![c]) == style,
{
    first_then_rest(style, seq![c]);
}

/// A parameter that stands for itself does the same in a longer list, and what follows
/// goes on from there.
pub proof fn codes_count_one_by_one(style: Style, c: u16, rest: Seq<u16>)
    requires
        c != 38,
        c != 48,
    ensures
        apply_codes(style, seq![c] + rest) == going_on(apply_codes(style, seq![c]), rest),
{
    let all = seq![c] + rest;
    first_then_rest(style, all);
    first_then_rest(style, seq![c]);
    assert(all[0] == c);
    assert(all.skip(1) =~= rest);
}

/// A style's own sequence holds a reset and no more than it has to: one parameter for
/// each attribute that is on, three for a color of the palette, five for a true color.
pub proof fn own_sequences_are_short(style: Style)
    ensures
        style.codes()[0] == 0,
        style.codes().len() == 1 + (if style.bold {
            1int
        } else {
            0
        }) + (if style.italic {
            1int
        } else {
            0
        }) + (if style.underline {
            1int
        } else {
            0
        }) + (if style.reverse {
            1int
        } else {
            0
        }) + (match style.fg {
            Color::Default => 0int,
            Color::Indexed(_) => 3,
            Color::Rgb(_, _, _) => 5,
        }) + (match style.bg {
            Color::Default => 0int,
            Color::Indexed(_) => 3,
            Color::Rgb(_, _, _) => 5,
        }),
{
}

/// The reset and the attributes stand in ascending order in a style's own sequence.
pub proof fn own_attributes_ascend(style: Style)
    requires
        style.fg == Color::Default,
        style.bg == Color::Default,
    ensures
        forall|i: int, j: int|
            0 <= i < j < style.codes().len() ==> #[trigger] style.codes()[i]
                < #[trigger] style.codes()[j],
{
}

/// Attributes come first in a style's own sequence, then the foreground, then the
/// background.
pub proof fn own_sequences_end_in_the_background(style: Style, fg: Style)
    requires
        fg == (Style { bg: Color::Default, ..style }),
    ensures
        fg.codes().is_prefix_of(style.codes()),
        (Style { fg: Color::Default, ..fg }).codes().is_prefix_of(fg.codes()),
{
    let bare = Style { fg: Color::Default, ..fg };
    assert(fg.codes() =~= style.codes().take(fg.codes().len() as int));
    assert(bare.codes() =~= fg.codes().take(bare.codes().len() as int));
}

} // verus!
