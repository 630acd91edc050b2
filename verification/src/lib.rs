//! Sterna: an issue tracker whose state lives in a source-control object
//! database, as a chain of commits on a reference of its own.
//!
//! This crate holds the rules of the snapshot engine, on plain values: the
//! entity model and its wire form, identifier generation, the snapshot and
//! its chain of commits, the cycle check that guards new edges, the merge of
//! two snapshots, the ready-set queries, and the operations that a user asks
//! for. What touches a repository, a file or the terminal is the caller's.

pub mod commands;
pub mod dag;
pub mod engine;
pub mod error;
pub mod id;
pub mod index;
pub mod laws;
pub mod lifecycle;
pub mod merge;
pub mod merge_laws;
pub mod query;
pub mod resolve;
pub mod seqs;
pub mod snapshot;
pub mod storage;
pub mod text;
pub mod types;
pub mod wire;
