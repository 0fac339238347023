//! Codec for the sprite archive formats of a family of legacy 2-D games:
//! format detection, header and index parsing, palette-indexed and
//! compressed pixel decoding, lazy per-entry loading, mutation and saving.

pub mod error;
pub mod formats;
pub mod image;


use vstd::prelude::*;

verus! {

/// Name of the application built on this library.
pub const APP_NAME: &'static str = "Library Editor";

/// Author line of the application built on this library.
pub const APP_AUTHOR: &'static str = "Rust Implementation";

} // verus!
