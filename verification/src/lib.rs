//! Verified core of an MDD/DDF survey-dataset duplication engine.
//!
//! A dataset travels as a pair of files: a binary dataset file holding one
//! opaque payload per record, and a companion text file declaring the
//! dataset's variables.  The library parses both, duplicates the records a
//! requested number of times while rewriting identifier-like fields so that
//! no two output records collide, re-emits the two file formats, and packages
//! the result as a compressed archive.  All file and directory I/O stays with
//! the caller: every function here is a pure computation over bytes and
//! strings, with the one exception of the archive wrappers, which drive the
//! `zip` crate over in-memory buffers.

pub mod archive;
pub mod ddf;
pub mod engine;
pub mod model;
pub mod parser;
pub mod paths;
pub mod pipeline;
pub mod roundtrip;
pub mod services;
pub mod text;
pub mod validate;
pub mod writer;
