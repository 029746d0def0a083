//! Foreground colors, text attributes, and the escape sequences that apply them.
use vstd::prelude::*;
use termcolor::WriteColor;

verus! {

/// The palette of foreground colors, in the order random styling draws from.
#[derive(Clone, Copy, Debug, PartialEq, Eq, Structural)]
pub enum Hue {
    Black,
    White,
    Red,
    Green,
    Blue,
    Yellow,
    Cyan,
    Magenta,
}

/// Number of colors in the palette.
pub const PALETTE_SIZE: usize = 8;

/// Position of a color in the palette.
pub open spec fn hue_index(h: Hue) -> nat {
    match h {
        Hue::Black => 0,
        Hue::White => 1,
        Hue::Red => 2,
        Hue::Green => 3,
        Hue::Blue => 4,
        Hue::Yellow => 5,
        Hue::Cyan => 6,
        Hue::Magenta => 7,
    }
}

/// At most one of dim and intense.
#[derive(Clone, Copy, Debug, PartialEq, Eq, Structural)]
pub enum Emphasis {
    Plain,
    Dim,
    Intense,
}

/// A foreground color with text attributes.
#[derive(Clone, Copy, Debug, PartialEq, Eq, Structural)]
pub struct Style {
    pub fg: Hue,
    pub bold: bool,
    pub italic: bool,
    pub underline: bool,
    pub emphasis: Emphasis,
}

/// How lines are styled: not at all, with one color, or with a fresh random style each.
#[derive(Clone, Copy, Debug, PartialEq, Eq, Structural)]
pub enum Color {
    Disabled,
    Fixed(Hue),
    Random,
}

/// The style that fixed color mode applies: the color and no attributes.
pub open spec fn plain_style(h: Hue) -> Style {
    Style { fg: h, bold: false, italic: false, underline: false, emphasis: Emphasis::Plain }
}

/// What an ANSI terminal writer emits to switch to a color and a set of attributes.
pub uninterp spec fn ansi_style_sequence(
    fg: nat,
    bold: bool,
    italic: bool,
    underline: bool,
    dimmed: bool,
    intense: bool,
) -> Seq<u8>;

/// The style-set sequence of `s`.
pub open spec fn set_sequence(s: Style) -> Seq<u8> {
    ansi_style_sequence(
        hue_index(s.fg),
        s.bold,
        s.italic,
        s.underline,
        s.emphasis == Emphasis::Dim,
        s.emphasis == Emphasis::Intense,
    )
}

/// The style-reset sequence: ESC [ 0 m.
pub open spec fn reset_sequence() -> Seq<u8> {
    seq![0x1bu8, 0x5bu8, 0x30u8, 0x6du8]
}

/// Relies on termcolor's `Ansi::set_color`, writing into a `Vec`, for the bytes that
/// select a color and attributes; the bytes depend on the arguments alone.
#[verifier::external_body]
fn ansi_set_bytes(fg: Hue, bold: bool, italic: bool, underline: bool, dimmed: bool, intense: bool)
    -> (r: Vec<u8>)
    ensures
        r@ == ansi_style_sequence(hue_index(fg), bold, italic, underline, dimmed, intense),
{
    let c = match fg {
        Hue::Black => termcolor::Color::Black,
        Hue::White => termcolor::Color::White,
        Hue::Red => termcolor::Color::Red,
        Hue::Green => termcolor::Color::Green,
        Hue::Blue => termcolor::Color::Blue,
        Hue::Yellow => termcolor::Color::Yellow,
        Hue::Cyan => termcolor::Color::Cyan,
        Hue::Magenta => termcolor::Color::Magenta,
    };
    let mut spec = termcolor::ColorSpec::new();
    spec.set_fg(Some(c)).set_bold(bold).set_italic(italic).set_underline(underline);
    let mut out = termcolor::Ansi::new(Vec::new());
    let _ = out.set_color(spec.set_dimmed(dimmed).set_intense(intense));
    out.into_inner()
}

/// Relies on termcolor's `Ansi::reset`, writing into a `Vec`, which writes ESC [ 0 m.
#[verifier::external_body]
fn ansi_reset_bytes() -> (r: Vec<u8>)
    ensures
        r@ == reset_sequence(),
{
    let mut out = termcolor::Ansi::new(Vec::new());
    let _ = out.reset();
    out.into_inner()
}

/// Relies on rand's `Rng::gen_range` on the thread-local generator: a value in
/// `0..bound` (the call panics on an empty range).
#[verifier::external_body]
pub(crate) fn random_below(bound: usize) -> (r: usize)
    requires
        bound > 0,
    ensures
        r < bound,
{
    rand::Rng::gen_range(&mut rand::thread_rng(), 0..bound)
}

/// Relies on rand's `Rng::gen_ratio(1, 2)` on the thread-local generator: a fair coin.
#[verifier::external_body]
fn coin_flip() -> (r: bool) {
    rand::Rng::gen_ratio(&mut rand::thread_rng(), 1, 2)
}

/// The color at position `i` of the palette.
pub fn hue_at(i: usize) -> (r: Hue)
    requires
        i < PALETTE_SIZE,
    ensures
        hue_index(r) == i,
{
    match i {
        0 => Hue::Black,
        1 => Hue::White,
        2 => Hue::Red,
        3 => Hue::Green,
        4 => Hue::Blue,
        5 => Hue::Yellow,
        6 => Hue::Cyan,
        _ => Hue::Magenta,
    }
}

/// The emphasis chosen by a draw from `0..3`: none, dim, or intense.
pub fn emphasis_at(i: usize) -> (r: Emphasis)
    requires
        i < 3,
    ensures
        i == 0 ==> r == Emphasis::Plain,
        i == 1 ==> r == Emphasis::Dim,
        i == 2 ==> r == Emphasis::Intense,
{
    match i {
        0 => Emphasis::Plain,
        1 => Emphasis::Dim,
        _ => Emphasis::Intense,
    }
}

/// The style that a set of draws selects: a palette position, three coin flips,
/// and a draw from `0..3` for the emphasis.
pub fn style_from_draws(
    color_draw: usize,
    bold: bool,
    italic: bool,
    underline: bool,
    emphasis_draw: usize,
) -> (r: Style)
    requires
        color_draw < PALETTE_SIZE,
        emphasis_draw < 3,
    ensures
        hue_index(r.fg) == color_draw,
        r.bold == bold,
        r.italic == italic,
        r.underline == underline,
        emphasis_draw == 0 ==> r.emphasis == Emphasis::Plain,
        emphasis_draw == 1 ==> r.emphasis == Emphasis::Dim,
        emphasis_draw == 2 ==> r.emphasis == Emphasis::Intense,
{
    Style { fg: hue_at(color_draw), bold, italic, underline, emphasis: emphasis_at(emphasis_draw) }
}

/// A style drawn at random: each color equally likely, each attribute a fair coin,
/// and none, dim or intense equally likely.
pub fn random_style() -> (r: Style) {
    let color_draw = random_below(PALETTE_SIZE);
    let bold = coin_flip();
    let italic = coin_flip();
    let underline = coin_flip();
    let emphasis_draw = random_below(3);
    style_from_draws(color_draw, bold, italic, underline, emphasis_draw)
}

/// The plain style of a color.
pub fn plain(h: Hue) -> (r: Style)
    ensures
        r == plain_style(h),
{
    Style { fg: h, bold: false, italic: false, underline: false, emphasis: Emphasis::Plain }
}

/// The bytes that switch the output to style `s`.
pub fn set_bytes(s: &Style) -> (r: Vec<u8>)
    ensures
        r@ == set_sequence(*s),
{
    let dimmed = match s.emphasis {
        Emphasis::Dim => true,
        _ => false,
    };
    let intense = match s.emphasis {
        Emphasis::Intense => true,
        _ => false,
    };
    ansi_set_bytes(s.fg, s.bold, s.italic, s.underline, dimmed, intense)
}

/// The bytes that reset the output's style.
pub fn reset_bytes() -> (r: Vec<u8>)
    ensures
        r@ == reset_sequence(),
{
    ansi_reset_bytes()
}

} // verus!
