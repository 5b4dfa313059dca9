//! Reader for the Intel Object Module Format (OMF), the linkable object
//! format emitted by 16- and early 32-bit DOS/Windows toolchains.
//!
//! The input is a byte buffer holding one object module: a forward-only
//! stream of variable-length records (THEADR, LNAMES, SEGDEF, LEDATA,
//! FIXUPP, ...) in which later records refer to earlier ones through
//! 1-based indices.  Parsing yields an [`module::OmfFile`] exposing the
//! module's segments, symbols, groups, common blocks, COMDAT fragments
//! and tool comments.
//!
//! Every parsing function is specified against a mathematical decoder of
//! the byte stream, so the parse result is a pure function of the input
//! bytes.

pub mod comment;
pub mod consts;
pub mod error;
pub mod fixupp;
pub mod laws;
pub mod lidata;
pub mod module;
pub mod object;
pub mod parse;
pub mod prims;
pub mod section;
pub mod symbol;
