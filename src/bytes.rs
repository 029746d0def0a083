//! Byte sequences: terminated lines and their repetitions.
use vstd::prelude::*;

verus! {

/// The line terminator.
pub const NEWLINE: u8 = 10;

/// A message followed by the terminator.
pub open spec fn line_of(m: Seq<u8>) -> Seq<u8> {
    m.push(NEWLINE)
}

/// `n` terminated copies of `m`, one after another.
pub open spec fn repeat_lines(m: Seq<u8>, n: nat) -> Seq<u8>
    decreases n,
{
    if n == 0 {
        Seq::empty()
    } else {
        repeat_lines(m, (n - 1) as nat) + line_of(m)
    }
}

/// Each repetition adds one line's worth of bytes.
pub proof fn lemma_repeat_lines_len(m: Seq<u8>, n: nat)
    ensures
        repeat_lines(m, n).len() == n * (m.len() + 1),
    decreases n,
{
    if n > 0 {
        lemma_repeat_lines_len(m, (n - 1) as nat);
        assert(line_of(m).len() == m.len() + 1);
        assert(n * (m.len() + 1) == (n - 1) * (m.len() + 1) + m.len() + 1) by (nonlinear_arith);
    } else {
        assert(n * (m.len() + 1) == 0) by (nonlinear_arith)
            requires n == 0;
    }
}

/// Repeating `a + b` times is repeating `a` times, then `b` times.
pub proof fn lemma_repeat_lines_add(m: Seq<u8>, a: nat, b: nat)
    ensures
        repeat_lines(m, a + b) == repeat_lines(m, a) + repeat_lines(m, b),
    decreases b,
{
    if b == 0 {
        assert(repeat_lines(m, a) + Seq::empty() =~= repeat_lines(m, a));
    } else {
        lemma_repeat_lines_add(m, a, (b - 1) as nat);
        assert(repeat_lines(m, a + b) == repeat_lines(m, (a + b - 1) as nat) + line_of(m));
        assert(repeat_lines(m, a) + repeat_lines(m, (b - 1) as nat) + line_of(m) =~= repeat_lines(m, a)
            + (repeat_lines(m, (b - 1) as nat) + line_of(m)));
    }
}

/// Appends every byte of `src` to `dst`.
pub fn append_bytes(dst: &mut Vec<u8>, src: &[u8])
    ensures
        final(dst)@ == old(dst)@ + src@,
{
    let ghost start = dst@;
    let mut i: usize = 0;
    while i < src.len()
        invariant
            i <= src@.len(),
            dst@ == start + src@.subrange(0, i as int),
        decreases src@.len() - i,
    {
        dst.push(src[i]);
        i = i + 1;
        assert(dst@ =~= start + src@.subrange(0, i as int));
    }
    assert(src@.subrange(0, i as int) =~= src@);
}

/// Appends `text` and then the terminator to `dst`.
pub fn append_line(dst: &mut Vec<u8>, text: &[u8])
    ensures
        final(dst)@ == old(dst)@ + line_of(text@),
{
    append_bytes(dst, text);
    dst.push(NEWLINE);
    assert(dst@ =~= old(dst)@ + line_of(text@));
}

} // verus!
