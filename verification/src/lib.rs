//! Checks the files of a source tree for tabs and illegal characters, and
//! removes trailing whitespace from their lines.
//!
//! - [`check`] holds the checks: the configuration, the paths that are left
//!   out, the findings on a file's content, and the cleaning of its lines.
//! - [`args`] holds the settings of a run and how they follow from the
//!   command line.
//! - [`text`] holds what both need to know about characters and lines.
//!
//! Nothing here reads or writes a file: content comes in as text or bytes,
//! and what is to be written goes out as text.

pub mod args;
pub mod check;
pub mod text;
