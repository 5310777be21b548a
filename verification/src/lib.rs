//! The command core of a terminal client for a vehicle signal broker.
//!
//! The core reads a typed line as a command, decides what the command asks
//! of the broker, reads free text as a value of a signal's declared type,
//! completes signal paths from the names of the known signals, and words
//! everything that the client tells its user. It neither prints nor calls the
//! broker: whoever runs the terminal does both, and hands the answers back.
//!
//! - [`text`], [`decimal`], [`fractional`]: characters, integer literals,
//!   literals with a fraction.
//! - [`value`]: typed values, and text read as a value of a declared type.
//! - [`metadata`], [`namespace`]: signal descriptors, and the snapshot of
//!   the namespace that a metadata refresh replaces as a whole.
//! - [`trie`], [`trie_laws`]: the completion trie, and what holds of it.
//! - [`pattern`]: name patterns and the signals they select.
//! - [`display`], [`report`]: how values, tables and answers are worded.
//! - [`session`]: subscription sessions and the text of their updates.
//! - [`command`], [`dispatch`]: input lines as commands, and commands as
//!   actions.

pub mod command;
pub mod decimal;
pub mod dispatch;
pub mod display;
pub mod fractional;
pub mod metadata;
pub mod namespace;
pub mod pattern;
pub mod report;
pub mod session;
pub mod text;
pub mod trie;
pub mod trie_laws;
pub mod value;
