//! The settings that one run of emission follows.
use vstd::prelude::*;
use crate::style::Color;

verus! {

/// Where output goes, how many lines, which messages, and how they are styled.
pub struct Config {
    /// Write to standard error rather than standard output.
    pub std_err: bool,
    /// Pick each line at random among the messages.
    pub random: bool,
    /// The number of lines to emit; `None` emits until stopped.
    pub max_lines: Option<usize>,
    /// The messages given by the user, possibly none.
    pub strings: Vec<Vec<u8>>,
    pub color: Color,
}

} // verus!
