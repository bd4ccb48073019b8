//! The core of a small `cat`: which inputs a command line names, how a line
//! is rendered and counted, and what an invocation writes to its two output
//! streams.
//!
//! Nothing here reads or writes. The caller resolves the specifiers, reads the
//! lines and hands them to an [`Emitter`], one [`Event`] at a time; the
//! emitter answers each with the [`Action`] to perform. [`run`] does the same
//! on inputs that are held in memory and gives back the [`Transcript`].

pub mod args;
pub mod emitter;
pub mod laws;
pub mod render;
pub mod source;
pub mod transcript;

pub use args::{Args, Numbering, UsageError};
pub use emitter::{Action, Emitter, Event};
pub use source::Source;
pub use transcript::{run, Input, Transcript};
