//! Styled writes: the bytes that each write sends to the output stream.
use vstd::prelude::*;
use crate::bytes::{append_bytes, line_of, NEWLINE};
use crate::config::Config;
use crate::style::{plain, plain_style, random_style, reset_bytes, reset_sequence, set_bytes, set_sequence, Color, Hue, Style};

verus! {

/// `text` between the style-set sequence of `s` and the reset sequence.
pub open spec fn framed(s: Style, text: Seq<u8>) -> Seq<u8> {
    set_sequence(s) + text + reset_sequence()
}

/// `out` is what a write of `text` sends in color mode `color`.
pub open spec fn styled(color: Color, text: Seq<u8>, out: Seq<u8>) -> bool {
    match color {
        Color::Disabled => out == text,
        Color::Fixed(h) => out == framed(plain_style(h), text),
        Color::Random => exists|s: Style| out == #[trigger] framed(s, text),
    }
}

/// `out` is a styled write of `text` followed by an unstyled terminator.
pub open spec fn styled_line(color: Color, text: Seq<u8>, out: Seq<u8>) -> bool {
    out.len() >= 1 && out.last() == NEWLINE && styled(color, text, out.drop_last())
}

/// Produces the bytes of styled writes in one color mode.
pub struct Writer {
    pub color: Color,
}

impl Writer {
    /// A writer in the color mode of `config`.
    pub fn new_from_config(config: &Config) -> (r: Writer)
        ensures
            r.color == config.color,
    {
        Writer { color: config.color }
    }

    /// Whether one write may carry many lines under a single style: true unless
    /// every line needs a style of its own.
    pub fn supports_multiple_messages(&self) -> (r: bool)
        ensures
            r == !(self.color is Random),
    {
        match self.color {
            Color::Random => false,
            _ => true,
        }
    }

    /// The bytes that write `message`: as it is, or framed by a style-set sequence
    /// and a reset (a fresh random style in random mode).
    pub fn write(&self, message: &[u8]) -> (r: Vec<u8>)
        ensures
            styled(self.color, message@, r@),
    {
        match self.color {
            Color::Disabled => {
                let mut out: Vec<u8> = Vec::new();
                append_bytes(&mut out, message);
                out
            },
            Color::Fixed(h) => Self::write_color(message, &plain(h)),
            Color::Random => {
                let s = random_style();
                let out = Self::write_color(message, &s);
                assert(out@ == framed(s, message@));
                out
            },
        }
    }

    fn write_color(message: &[u8], s: &Style) -> (r: Vec<u8>)
        ensures
            r@ == framed(*s, message@),
    {
        let mut out = set_bytes(s);
        append_bytes(&mut out, message);
        let reset = reset_bytes();
        append_bytes(&mut out, reset.as_slice());
        out
    }

    /// The bytes that write `message` and then a terminator outside the style.
    pub fn writeln(&self, message: &[u8]) -> (r: Vec<u8>)
        ensures
            styled_line(self.color, message@, r@),
    {
        let mut out = self.write(message);
        let ghost body = out@;
        out.push(NEWLINE);
        assert(out@.drop_last() =~= body);
        out
    }

    /// The bytes that end styling for good: a reset, or nothing when color is off.
    pub fn reset(&self) -> (r: Vec<u8>)
        ensures
            self.color is Disabled ==> r@.len() == 0,
            !(self.color is Disabled) ==> r@ == reset_sequence(),
    {
        match self.color {
            Color::Disabled => Vec::new(),
            _ => reset_bytes(),
        }
    }
}

/// With color off, a write sends exactly its text and a line write exactly its text
/// and the terminator: no style-set or reset byte is added.
pub proof fn lemma_disabled_writes_are_plain(text: Seq<u8>, out: Seq<u8>, line_out: Seq<u8>)
    requires
        styled(Color::Disabled, text, out),
        styled_line(Color::Disabled, text, line_out),
    ensures
        out == text,
        line_out == line_of(text),
{
    assert(line_out =~= line_out.drop_last().push(line_out.last()));
}

/// In fixed color mode every write opens with one and the same style-set sequence,
/// that of the color with no attributes, and closes with the reset sequence.
pub proof fn lemma_fixed_writes_share_frame(h: Hue, t1: Seq<u8>, o1: Seq<u8>, t2: Seq<u8>, o2: Seq<u8>)
    requires
        styled(Color::Fixed(h), t1, o1),
        styled(Color::Fixed(h), t2, o2),
    ensures
        ({
            let set = set_sequence(plain_style(h));
            &&& o1.subrange(0, set.len() as int) == set
            &&& o2.subrange(0, set.len() as int) == set
            &&& o1.subrange(o1.len() - 4, o1.len() as int) == reset_sequence()
            &&& o2.subrange(o2.len() - 4, o2.len() as int) == reset_sequence()
            &&& o1.subrange(set.len() as int, o1.len() - 4) == t1
            &&& o2.subrange(set.len() as int, o2.len() - 4) == t2
        }),
{
    let set = set_sequence(plain_style(h));
    assert(o1.subrange(0, set.len() as int) =~= set);
    assert(o2.subrange(0, set.len() as int) =~= set);
    assert(o1.subrange(o1.len() - 4, o1.len() as int) =~= reset_sequence());
    assert(o2.subrange(o2.len() - 4, o2.len() as int) =~= reset_sequence());
    assert(o1.subrange(set.len() as int, o1.len() - 4) =~= t1);
    assert(o2.subrange(set.len() as int, o2.len() - 4) =~= t2);
}

} // verus!
