//! Renders a directory tree into one flat document for reading by people and
//! by language models.
//!
//! The library decides which files qualify (`policy`), in which order they
//! appear (`order`), how much of each is read and what its bytes are taken
//! for (`content`), and how each file becomes a labelled, fenced block of
//! text (`render`, `run`). Walking the directory and reading the files is the
//! caller's part; `walk` says which conventions the walk is to honour.
//!
//! Globs are matched by the `ignore` crate. What is assumed of it, without
//! proof, stands in `matcher`; the few assumptions about the standard library
//! stand beside their callers in `content` and `paths`.

pub mod content;
pub mod matcher;
pub mod order;
pub mod paths;
pub mod policy;
pub mod render;
pub mod run;
pub mod text;
pub mod walk;
