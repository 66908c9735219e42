//! A command logger: it records what a child process writes to its two output
//! streams, line by line, into one or two log files.
//!
//! This library holds the rules of that recording: how lines are formatted,
//! how the header and the trailer of a log read, how file names are rendered
//! from a template, and how the two output streams are merged. The caller
//! spawns the process, reads its pipes and writes the files.

pub mod clock;
pub mod config;
pub mod format;
pub mod host;
pub mod laws;
pub mod lines;
pub mod name_laws;
pub mod paths;
pub mod run;
pub mod session;
pub mod sink;
pub mod template;
pub mod text;
