//! Sizing and filling the buffer that batched writes send in one piece.
use vstd::prelude::*;
use crate::bytes::{append_line, lemma_repeat_lines_len, line_of, repeat_lines};

verus! {

/// The byte size that one batched write aims for.
pub const TARGET_CAPACITY: usize = 8192;

/// How many lines of a message of `len` bytes one buffer holds.
pub open spec fn repeat_count_of(len: nat, capacity: nat, limit: Option<usize>) -> nat {
    let fit = capacity / (len + 1);
    let base: nat = if fit >= 1 { fit } else { 1 };
    match limit {
        Some(l) => if (l as nat) < base { l as nat } else { base },
        None => base,
    }
}

/// A message repeated as whole terminated lines, with the number of lines.
pub struct RepeatedBuffer {
    pub bytes: Vec<u8>,
    pub repeat_count: usize,
}

impl RepeatedBuffer {
    /// The buffer is `repeat_count` copies of `message` and the terminator.
    pub open spec fn holds(&self, message: Seq<u8>) -> bool {
        self.bytes@ == repeat_lines(message, self.repeat_count as nat)
    }
}

/// Builds the buffer for `message`: as many lines as fit in `capacity` bytes, at
/// least one, and never more than `limit` when one is given. A limit of zero gives
/// an empty buffer and a count of zero.
pub fn build_buffer(message: &[u8], capacity: usize, limit: Option<usize>) -> (r: RepeatedBuffer)
    requires
        message@.len() < usize::MAX,
    ensures
        r.repeat_count == repeat_count_of(message@.len(), capacity as nat, limit),
        r.holds(message@),
        limit == Some(0usize) ==> r.repeat_count == 0 && r.bytes@.len() == 0,
        limit != Some(0usize) ==> r.repeat_count >= 1,
        r.repeat_count > 1 ==> r.bytes@.len() <= capacity,
{
    let line_len: usize = message.len() + 1;
    let fit: usize = capacity / line_len;
    let base: usize = if fit >= 1 { fit } else { 1 };
    let count: usize = match limit {
        Some(l) => if l < base { l } else { base },
        None => base,
    };
    proof {
        assert(count * line_len <= capacity || count <= 1) by (nonlinear_arith)
            requires
                fit == capacity / line_len,
                line_len >= 1,
                count <= fit || count <= 1,
        {};
    }
    let mut bytes: Vec<u8> = Vec::new();
    let mut i: usize = 0;
    while i < count
        invariant
            i <= count,
            line_len == message@.len() + 1,
            count * line_len <= capacity || count <= 1,
            bytes@ == repeat_lines(message@, i as nat),
        decreases count - i,
    {
        proof {
            lemma_repeat_lines_len(message@, i as nat);
            assert(i * line_len <= count * line_len) by (nonlinear_arith)
                requires i <= count;
        }
        append_line(&mut bytes, message);
        i = i + 1;
    }
    proof {
        lemma_repeat_lines_len(message@, count as nat);
    }
    RepeatedBuffer { bytes, repeat_count: count }
}

} // verus!
