//! A library that keeps a directory of "cue card" documents (dance-call
//! instruction sheets written as Markdown files) in sync with a relational
//! store of cue card records.
//!
//! The heart of the library is the reconciliation engine: it extracts
//! structured metadata from a document's text, classifies every document as
//! new, changed or unchanged using a per-document marker file as the
//! change-detection oracle, and plans exactly which repository and marker
//! writes have to happen.  All of that logic is pure and verified; the thin
//! binary around it performs the actual file system and database calls.

pub mod classify;
pub mod config;
pub mod convert;
pub mod extract;
pub mod json;
pub mod meta;
pub mod scan;
pub mod search;
pub mod sidecar;
pub mod text;
