//! Formats a history listing for reading: every line that begins with a
//! full commit identifier gets the commit's message appended, in a column
//! that is aligned over the lines seen so far; every other line is passed
//! through unchanged.
//!
//! - [`text`]: character sequences, and trimming, tokens and removal on them
//! - [`pattern`]: the test for a commit line
//! - [`resolver`]: the lookup command, and the message for each way the
//!   lookup can end
//! - [`formatter`]: the pass over the log, line by line
//!
//! The library does no input or output. A caller reads the lines, runs each
//! lookup command, and writes what the formatter emits.

pub mod formatter;
pub mod pattern;
pub mod resolver;
pub mod text;
