//! A replicated key-value store, as far as it is decided: commands and
//! their grammar, the state table and the command applier, the command log
//! and its replay, and what a leader and a follower do with their input.
//! Reading input, writing the log and talking to the network are left to
//! the program that uses this library.
//!
//! - [`text`]: characters, tokens and lines.
//! - [`command`]: commands, the grammar of a line, the record of a command.
//! - [`response`]: what applying a command did.
//! - [`table`]: the state table and the command applier.
//! - [`log`]: replaying a log, and why log and table stay in step.
//! - [`session`]: the steps of a leader's and of a follower's session.

pub mod command;
pub mod log;
pub mod response;
pub mod session;
pub mod table;
pub mod text;
