//! Emits a message, or a random pick among several, as repeated terminated lines.
//!
//! The library decides what bytes go out and when to stop; the program around it
//! owns the output stream and sets the shutdown flag.
pub mod bytes;
pub mod buffer;
pub mod style;
pub mod config;
pub mod writer;
pub mod emission;
pub mod source;
pub mod shutdown;
