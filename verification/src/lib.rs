//! A virtual-filesystem and font-resolution layer for a document compiler.
//!
//! The crate answers three questions for the compiler it serves: which
//! registered source a file identity resolves to, what bytes back that
//! identity, and which font backs a font index.  Filesystem entities that are
//! reachable through several paths collapse to one identity, every resolution
//! is cached for the length of one compile run, and all caches are cleared
//! when the next run begins.

pub mod diag;
pub mod errors;
pub mod file_id;
pub mod fonts;
pub mod identity;
pub mod laws;
pub mod numfmt;
pub mod path_norm;
pub mod sources;
pub mod world;
