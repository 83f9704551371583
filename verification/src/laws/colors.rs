//! What rendition sequences do to the attributes.

use vstd::prelude::*;

use crate::laws::frames::{
    after_csi, are_plain, lemma_screen_csi, same_frame, same_modes, same_settings,
};
use crate::parser::{
    channel, colored, rendition, renditions, style_control, values_of, TerminalModel,
};
use crate::screen::cell::{AttrState, Rgb};
use crate::screen::model::ScreenModel;
use crate::screen::palette::{basic_color, palette_color};

verus! {

/// Whether a control sequence carries these numbers; subparameters do not count.
pub open spec fn carries(groups: Seq<Seq<u16>>, codes: Seq<u16>) -> bool {
    &&& groups.len() == codes.len()
    &&& forall|i: int|
        0 <= i < codes.len() ==> (#[trigger] groups[i]).len() >= 1 && groups[i][0] == codes[i]
}

/// The attributes after a rendition sequence.
pub open spec fn attrs_after(
    terminal: TerminalModel,
    groups: Seq<Seq<u16>>,
    marks: Seq<u8>,
) -> AttrState {
    after_csi(terminal, groups, marks, 'm').screen.attrs()
}

/// Whether the attributes are all that may differ.
pub open spec fn only_restyles(before: ScreenModel, after: ScreenModel) -> bool {
    &&& same_frame(before, after)
    &&& same_settings(before.active(), after.active())
    &&& after.active().lines == before.active().lines
    &&& after.cursor() == before.cursor()
    &&& after.scrollback == before.scrollback
    &&& after.dirty == before.dirty
}

/// Whether the four styles are the same.
pub open spec fn same_styles(before: AttrState, after: AttrState) -> bool {
    &&& after.bold == before.bold
    &&& after.italic == before.italic
    &&& after.underline == before.underline
    &&& after.inverse == before.inverse
}

/// Whether the two colours are the same.
pub open spec fn same_colors(before: AttrState, after: AttrState) -> bool {
    after.fg == before.fg && after.bg == before.bg
}

/// Whether a colour has these channels.
pub open spec fn is_rgb(color: Rgb, r: int, g: int, b: int) -> bool {
    color.r == r && color.g == g && color.b == b
}

/// Whether a colour is one of the eight basic ones, which are black, red, green,
/// yellow, blue, magenta, cyan and white.
pub open spec fn is_basic(color: Rgb, n: int) -> bool {
    &&& n == 0 ==> is_rgb(color, 0, 0, 0)
    &&& n == 1 ==> is_rgb(color, 205, 49, 49)
    &&& n == 2 ==> is_rgb(color, 13, 188, 121)
    &&& n == 3 ==> is_rgb(color, 229, 229, 16)
    &&& n == 4 ==> is_rgb(color, 36, 114, 200)
    &&& n == 5 ==> is_rgb(color, 188, 63, 188)
    &&& n == 6 ==> is_rgb(color, 17, 168, 205)
    &&& n == 7 ==> is_rgb(color, 229, 229, 229)
}

/// Whether a colour is one of the eight bright ones.
pub open spec fn is_bright(color: Rgb, n: int) -> bool {
    &&& n == 0 ==> is_rgb(color, 102, 102, 102)
    &&& n == 1 ==> is_rgb(color, 241, 76, 76)
    &&& n == 2 ==> is_rgb(color, 35, 209, 139)
    &&& n == 3 ==> is_rgb(color, 245, 245, 67)
    &&& n == 4 ==> is_rgb(color, 59, 142, 234)
    &&& n == 5 ==> is_rgb(color, 214, 112, 214)
    &&& n == 6 ==> is_rgb(color, 41, 184, 219)
    &&& n == 7 ==> is_rgb(color, 255, 255, 255)
}

/// Whether a channel has the intensity of a step of the colour cube.
pub open spec fn is_cube_step(value: u8, step: int) -> bool {
    (step == 0 && value == 0) || (step > 0 && value == 55 + 40 * step)
}

/// Whether a colour is the one with this number in the palette: sixteen fixed colours,
/// the cube of six steps each of red, green and blue, and the grays.
pub open spec fn is_in_palette(color: Rgb, n: int) -> bool {
    &&& n == 0 ==> is_rgb(color, 0, 0, 0)
    &&& n == 1 ==> is_rgb(color, 205, 0, 0)
    &&& n == 2 ==> is_rgb(color, 0, 205, 0)
    &&& n == 3 ==> is_rgb(color, 205, 205, 0)
    &&& n == 4 ==> is_rgb(color, 0, 0, 238)
    &&& n == 5 ==> is_rgb(color, 205, 0, 205)
    &&& n == 6 ==> is_rgb(color, 0, 205, 205)
    &&& n == 7 ==> is_rgb(color, 229, 229, 229)
    &&& n == 8 ==> is_rgb(color, 127, 127, 127)
    &&& n == 9 ==> is_rgb(color, 255, 0, 0)
    &&& n == 10 ==> is_rgb(color, 0, 255, 0)
    &&& n == 11 ==> is_rgb(color, 255, 255, 0)
    &&& n == 12 ==> is_rgb(color, 92, 92, 255)
    &&& n == 13 ==> is_rgb(color, 255, 0, 255)
    &&& n == 14 ==> is_rgb(color, 0, 255, 255)
    &&& n == 15 ==> is_rgb(color, 255, 255, 255)
    &&& forall|r: int, g: int, b: int|
        0 <= r < 6 && 0 <= g < 6 && 0 <= b < 6 && n == 16 + 36 * r + 6 * g + b
            ==> #[trigger] is_cube_color(color, r, g, b)
    &&& 232 <= n <= 255 ==> is_rgb(
        color,
        8 + 10 * (n - 232),
        8 + 10 * (n - 232),
        8 + 10 * (n - 232),
    )
    &&& n > 255 ==> is_rgb(color, 230, 230, 230)
}

/// Whether a colour lies at these steps of the cube.
pub open spec fn is_cube_color(color: Rgb, r: int, g: int, b: int) -> bool {
    is_cube_step(color.r, r) && is_cube_step(color.g, g) && is_cube_step(color.b, b)
}

/// The palette is what it is said to be.
proof fn lemma_palette(n: u16)
    ensures
        is_in_palette(palette_color(n), n as int),
{
    let color = palette_color(n);
    assert forall|r: int, g: int, b: int|
        0 <= r < 6 && 0 <= g < 6 && 0 <= b < 6 && n == 16 + 36 * r + 6 * g
            + b implies #[trigger] is_cube_color(color, r, g, b) by {
        let c = 36 * r + 6 * g + b;
        assert(c / 36 == r);
        assert(c / 6 == 6 * r + g);
        assert(c / 6 % 6 == g);
        assert(c % 6 == b);
    }
}

proof fn lemma_basic(n: u16)
    requires
        n < 8,
    ensures
        is_basic(basic_color(n, false), n as int),
        is_bright(basic_color(n, true), n as int),
{
}

/// The attributes after a rendition sequence, and all else as it was.
proof fn lemma_attrs_after(
    terminal: TerminalModel,
    groups: Seq<Seq<u16>>,
    marks: Seq<u8>,
    codes: Seq<u16>,
)
    requires
        carries(groups, codes),
        codes.len() > 0,
    ensures
        attrs_after(terminal, groups, marks) == renditions(terminal.screen.attrs(), codes),
        only_restyles(terminal.screen, after_csi(terminal, groups, marks, 'm').screen),
        same_modes(terminal, after_csi(terminal, groups, marks, 'm')),
{
    reveal(style_control);
    lemma_screen_csi(terminal, groups, marks, 'm');
    assert(values_of(groups) =~= codes);
}

proof fn lemma_single(attrs: AttrState, code: u16)
    requires
        code != 38,
        code != 48,
    ensures
        renditions(attrs, seq![code]) == rendition(attrs, code),
{
    let codes = seq![code];
    assert(codes.skip(1) =~= Seq::<u16>::empty());
    assert(renditions(rendition(attrs, code), Seq::<u16>::empty()) == rendition(attrs, code));
}

/// Whether one of the four styles, and nothing else, is now on or off.
pub open spec fn is_styled(before: AttrState, after: AttrState, code: u16) -> bool {
    &&& same_colors(before, after)
    &&& after.bold == (if code == 1 {
        true
    } else if code == 22 {
        false
    } else {
        before.bold
    })
    &&& after.italic == (if code == 3 {
        true
    } else if code == 23 {
        false
    } else {
        before.italic
    })
    &&& after.underline == (if code == 4 {
        true
    } else if code == 24 {
        false
    } else {
        before.underline
    })
    &&& after.inverse == (if code == 7 {
        true
    } else if code == 27 {
        false
    } else {
        before.inverse
    })
}

/// A single rendition code: zero takes everything back; 1, 3, 4 and 7 switch bold,
/// italic, underline and inverse on, and 22, 23, 24 and 27 switch them off; from 30, 40,
/// 90 and 100 on come the basic and the bright colours of foreground and background; 39
/// and 49 are the default colours. Each code changes only what it names, and a code that
/// names nothing changes nothing.
pub proof fn law_single_renditions(
    terminal: TerminalModel,
    groups: Seq<Seq<u16>>,
    marks: Seq<u8>,
    code: u16,
)
    requires
        carries(groups, seq![code]),
    ensures
        ({
            let before = terminal.screen.attrs();
            let after = attrs_after(terminal, groups, marks);
            let sets_fg = 30 <= code <= 37 || code == 39 || 90 <= code <= 97;
            let sets_bg = 40 <= code <= 47 || code == 49 || 100 <= code <= 107;
            &&& only_restyles(terminal.screen, after_csi(terminal, groups, marks, 'm').screen)
            &&& same_modes(terminal, after_csi(terminal, groups, marks, 'm'))
            &&& code == 0 ==> are_plain(after)
            &&& code != 0 && !sets_fg && !sets_bg ==> is_styled(before, after, code)
            &&& code != 0 && (sets_fg || sets_bg) ==> same_styles(before, after)
            &&& sets_fg ==> after.bg == before.bg
            &&& sets_bg ==> after.fg == before.fg
            &&& 30 <= code <= 37 ==> is_basic(after.fg, code - 30)
            &&& 90 <= code <= 97 ==> is_bright(after.fg, code - 90)
            &&& code == 39 ==> is_rgb(after.fg, 230, 230, 230)
            &&& 40 <= code <= 47 ==> is_basic(after.bg, code - 40)
            &&& 100 <= code <= 107 ==> is_bright(after.bg, code - 100)
            &&& code == 49 ==> is_rgb(after.bg, 12, 12, 12)
        }),
{
    let before = terminal.screen.attrs();
    lemma_attrs_after(terminal, groups, marks, seq![code]);
    if code == 38 || code == 48 {
        let codes = seq![code];
        assert(codes.skip(1) =~= Seq::<u16>::empty());
        assert(renditions(before, Seq::<u16>::empty()) == before);
    } else {
        lemma_single(before, code);
    }
    if 30 <= code <= 37 {
        lemma_basic((code - 30) as u16);
    } else if 40 <= code <= 47 {
        lemma_basic((code - 40) as u16);
    } else if 90 <= code <= 97 {
        lemma_basic((code - 90) as u16);
    } else if 100 <= code <= 107 {
        lemma_basic((code - 100) as u16);
    }
}

/// A rendition sequence without numbers takes all attributes back.
pub proof fn law_rendition_without_numbers(terminal: TerminalModel, marks: Seq<u8>)
    ensures
        are_plain(attrs_after(terminal, Seq::empty(), marks)),
{
    reveal(style_control);
    lemma_screen_csi(terminal, Seq::empty(), marks, 'm');
    lemma_single(terminal.screen.attrs(), 0);
}

/// 38 and 5 select the foreground from the palette, 48 and 5 the background; the other
/// colour and the styles stay.
pub proof fn law_palette_renditions(
    terminal: TerminalModel,
    groups: Seq<Seq<u16>>,
    marks: Seq<u8>,
    code: u16,
    n: u16,
)
    requires
        code == 38 || code == 48,
        carries(groups, seq![code, 5u16, n]),
    ensures
        ({
            let before = terminal.screen.attrs();
            let after = attrs_after(terminal, groups, marks);
            &&& only_restyles(terminal.screen, after_csi(terminal, groups, marks, 'm').screen)
            &&& same_styles(before, after)
            &&& code == 38 ==> is_in_palette(after.fg, n as int) && after.bg == before.bg
            &&& code == 48 ==> is_in_palette(after.bg, n as int) && after.fg == before.fg
        }),
{
    let codes = seq![code, 5u16, n];
    let before = terminal.screen.attrs();
    lemma_attrs_after(terminal, groups, marks, codes);
    lemma_palette(n);
    assert(codes.skip(3) =~= Seq::<u16>::empty());
    let after = colored(before, code == 38, palette_color(n));
    assert(renditions(after, Seq::<u16>::empty()) == after);
}

/// Whether a channel is the number that was given, or the largest if that is too large.
pub open spec fn is_channel(value: u8, number: u16) -> bool {
    (number <= 255 && value == number) || (number > 255 && value == 255)
}

/// 38 and 2 set the foreground to red, green and blue, 48 and 2 the background; the
/// other colour and the styles stay.
pub proof fn law_true_color_renditions(
    terminal: TerminalModel,
    groups: Seq<Seq<u16>>,
    marks: Seq<u8>,
    code: u16,
    r: u16,
    g: u16,
    b: u16,
)
    requires
        code == 38 || code == 48,
        carries(groups, seq![code, 2u16, r, g, b]),
    ensures
        ({
            let before = terminal.screen.attrs();
            let after = attrs_after(terminal, groups, marks);
            let set = if code == 38 {
                after.fg
            } else {
                after.bg
            };
            &&& only_restyles(terminal.screen, after_csi(terminal, groups, marks, 'm').screen)
            &&& same_styles(before, after)
            &&& is_channel(set.r, r)
            &&& is_channel(set.g, g)
            &&& is_channel(set.b, b)
            &&& code == 38 ==> after.bg == before.bg
            &&& code == 48 ==> after.fg == before.fg
        }),
{
    let codes = seq![code, 2u16, r, g, b];
    let before = terminal.screen.attrs();
    lemma_attrs_after(terminal, groups, marks, codes);
    assert(codes.skip(5) =~= Seq::<u16>::empty());
    let color = Rgb { r: channel(r), g: channel(g), b: channel(b) };
    let after = colored(before, code == 38, color);
    assert(renditions(after, Seq::<u16>::empty()) == after);
}

/// Whether these numbers are one rendition: a code by itself, or one of the two that
/// take a colour with all that belongs to it.
pub open spec fn is_one_rendition(codes: Seq<u16>) -> bool {
    ||| codes.len() == 1 && codes[0] != 38 && codes[0] != 48
    ||| codes.len() == 3 && (codes[0] == 38 || codes[0] == 48) && codes[1] == 5
    ||| codes.len() == 5 && (codes[0] == 38 || codes[0] == 48) && codes[1] == 2
}

/// Several renditions in one sequence do what they do in one sequence each.
pub proof fn law_renditions_in_turn(
    terminal: TerminalModel,
    marks: Seq<u8>,
    first: Seq<Seq<u16>>,
    rest: Seq<Seq<u16>>,
    codes: Seq<u16>,
    more: Seq<u16>,
)
    requires
        is_one_rendition(codes),
        carries(first, codes),
        carries(rest, more),
        more.len() > 0,
    ensures
        attrs_after(terminal, first + rest, marks) == attrs_after(
            after_csi(terminal, first, marks, 'm'),
            rest,
            marks,
        ),
{
    let before = terminal.screen.attrs();
    let middle = after_csi(terminal, first, marks, 'm');
    let all = codes + more;
    assert(carries(first + rest, all)) by {
        assert forall|i: int| 0 <= i < all.len() implies (#[trigger] (first + rest)[i]).len() >= 1
            && (first + rest)[i][0] == all[i] by {
            if i < codes.len() {
                assert((first + rest)[i] == first[i]);
            } else {
                assert((first + rest)[i] == rest[i - codes.len()]);
            }
        }
    }
    lemma_attrs_after(terminal, first, marks, codes);
    lemma_attrs_after(terminal, first + rest, marks, all);
    lemma_attrs_after(middle, rest, marks, more);
    let len = codes.len() as int;
    assert(all.skip(len) =~= more);
    assert(codes.skip(len) =~= Seq::<u16>::empty());
    let after = renditions(before, codes);
    if len == 1 {
        assert(after == renditions(rendition(before, codes[0]), Seq::<u16>::empty()));
    } else if len == 3 {
        let set = colored(before, codes[0] == 38, palette_color(codes[2]));
        assert(after == renditions(set, Seq::<u16>::empty()));
    } else {
        let color = Rgb { r: channel(codes[2]), g: channel(codes[3]), b: channel(codes[4]) };
        let set = colored(before, codes[0] == 38, color);
        assert(after == renditions(set, Seq::<u16>::empty()));
    }
}

/// A code that asks for a colour which does not follow is passed over.
pub proof fn law_incomplete_color_is_passed_over(
    terminal: TerminalModel,
    marks: Seq<u8>,
    groups: Seq<Seq<u16>>,
    code: u16,
    more: Seq<u16>,
)
    requires
        code == 38 || code == 48,
        more.len() > 0,
        carries(groups, seq![code] + more),
        !(more.len() >= 2 && more[0] == 5),
        !(more.len() >= 4 && more[0] == 2),
    ensures
        attrs_after(terminal, groups, marks) == attrs_after(terminal, groups.skip(1), marks),
{
    let all = seq![code] + more;
    assert(carries(groups.skip(1), more)) by {
        assert forall|i: int| 0 <= i < more.len() implies (#[trigger] groups.skip(1)[i]).len() >= 1
            && groups.skip(1)[i][0] == more[i] by {
            assert(groups.skip(1)[i] == groups[i + 1]);
            assert(all[i + 1] == more[i]);
        }
    }
    lemma_attrs_after(terminal, groups, marks, all);
    lemma_attrs_after(terminal, groups.skip(1), marks, more);
    assert(all.skip(1) =~= more);
}

} // verus!
