//! Audits configured directories against per-directory "allowed contents"
//! rules, reports misplaced files, and plans guarded moves of misplaced
//! files into configured destinations.
//!
//! The crate is organised around three subsystems:
//! - [`rules`]: a composable boolean predicate tree evaluated per
//!   filesystem entry, with filename patterns compiled once from
//!   configuration;
//! - [`checker`]: a recursive scan of a directory snapshot producing a
//!   flat report of entries that violate the directory's rule;
//! - [`automove`]: selection of misplaced files from a source directory,
//!   derivation of destination paths (optionally through an external
//!   renaming program), and guarded move planning with overwrite
//!   protection.
//!
//! Filesystem reading, subprocess invocation and terminal presentation are
//! left to the embedding program: the functions here work on plain
//! snapshot values and on the recorded outcomes of those outside effects.

pub mod automove;
pub mod checker;
pub mod config;
pub mod fsmodel;
pub mod pathstr;
pub mod rules;
