//! Error type shared by every codec.

use vstd::prelude::*;

verus! {

/// What can go wrong while reading, decoding or writing a library.
#[derive(Debug, Clone, PartialEq, Eq)]
pub enum LibraryError {
    /// Reading or writing failed, or the data ended early.
    Io(String),
    /// A raster could not be decoded.
    ImageDecode(String),
    /// The graphical shell reported a failure.
    Gui(String),
    /// A compressed payload could not be inflated or deflated.
    Compression(String),
    /// The magic bytes or the file extension are not recognised.
    InvalidFormat,
    /// A version field holds an unsupported value.
    UnsupportedVersion(i32),
    /// An entry index is past the end of the library.
    IndexOutOfBounds(usize),
    /// A file of the library does not exist.
    FileNotFound(String),
    /// Dimensions or pixel data do not fit together.
    InvalidImageData,
    /// A value could not be parsed.
    ParseError(String),
}

/// Result of a library operation.
pub type Result<T> = core::result::Result<T, LibraryError>;

} // verus!
