//! Error types for the graphics protocol subsystem.

use vstd::prelude::*;
use crate::graphics::types::ImageId;

verus! {

/// The base64 crate's decoding error, carried through unchanged.
#[verifier::external_type_specification]
#[verifier::external_body]
pub struct ExDecodeError(base64::DecodeError);

/// std's I/O error, carried through unchanged.
#[verifier::external_type_specification]
#[verifier::external_body]
pub struct ExIoError(std::io::Error);

/// Errors that can occur during graphics protocol operations.
#[derive(Debug)]
pub enum GraphicsError {
    /// The image ID was not found in the store.
    ImageNotFound(ImageId),
    /// The placement ID was not found for the given image.
    PlacementNotFound { image_id: ImageId, placement_id: u32 },
    /// The image data exceeds the maximum allowed size.
    ImageTooLarge { size: usize, max: usize },
    /// The total memory quota has been exceeded.
    QuotaExceeded { used: usize, quota: usize },
    /// Invalid image dimensions.
    InvalidDimensions { width: u32, height: u32 },
    /// Base64 decoding failed.
    Base64Decode(base64::DecodeError),
    /// The pixel format is invalid or unsupported.
    UnsupportedFormat(String),
    /// An error occurred while parsing a graphics protocol command.
    ParseError(String),
    /// File I/O error (for file-based transmission).
    FileError(std::io::Error),
    /// Chunked transfer is incomplete or corrupted.
    IncompleteTransfer(ImageId),
}

} // verus!
