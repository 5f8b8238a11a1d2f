//! Clipboard content types and errors, the choice of what a pasteboard
//! read yields, and the conversion of pasted TIFF images to PNG.
//!
//! Access to the system pasteboard itself happens outside the library.

use std::path::PathBuf;
use vstd::prelude::*;

verus! {

/// A file path, carried through unchanged.
#[verifier::external_type_specification]
#[verifier::external_body]
pub struct ExPathBuf(std::path::PathBuf);

/// A decoded image of the `image` crate, carried between its calls.
#[verifier::external_type_specification]
#[verifier::external_body]
pub struct ExDynamicImage(image::DynamicImage);

/// Errors that can occur during clipboard operations.
#[derive(Debug)]
pub enum ClipboardError {
    NoPasteboardTypes,
    NoSupportedContent,
    NoText,
    NoImage,
    WriteFailed,
    NotImplemented,
    ImageDecode(String),
    ImageEncode(String),
}

impl ClipboardError {
    /// The message that describes the error.
    pub open spec fn spec_message(&self) -> Seq<char> {
        match self {
            ClipboardError::NoPasteboardTypes => "no pasteboard types available"@,
            ClipboardError::NoSupportedContent => "no supported clipboard content found"@,
            ClipboardError::NoText => "no text in pasteboard"@,
            ClipboardError::NoImage => "no image data in pasteboard"@,
            ClipboardError::WriteFailed => "failed to write to pasteboard"@,
            ClipboardError::NotImplemented => "file path reading not yet implemented"@,
            ClipboardError::ImageDecode(e) => "failed to decode image: "@ + e@,
            ClipboardError::ImageEncode(e) => "failed to encode image: "@ + e@,
        }
    }

    /// The message that describes the error.
    pub fn to_string(&self) -> (s: String)
        ensures
            s@ == self.spec_message(),
    {
        match self {
            ClipboardError::NoPasteboardTypes => String::from_str("no pasteboard types available"),
            ClipboardError::NoSupportedContent => String::from_str("no supported clipboard content found"),
            ClipboardError::NoText => String::from_str("no text in pasteboard"),
            ClipboardError::NoImage => String::from_str("no image data in pasteboard"),
            ClipboardError::WriteFailed => String::from_str("failed to write to pasteboard"),
            ClipboardError::NotImplemented => String::from_str("file path reading not yet implemented"),
            ClipboardError::ImageDecode(e) => String::from_str("failed to decode image: ").concat(e.as_str()),
            ClipboardError::ImageEncode(e) => String::from_str("failed to encode image: ").concat(e.as_str()),
        }
    }
}

/// Represents the different types of content that can be stored in the
/// clipboard.
#[derive(Debug, Clone, PartialEq)]
pub enum ClipboardContent {
    /// Plain text content
    Text(String),
    /// HTML content
    Html(String),
    /// Image data in PNG format
    Image { png_data: Vec<u8> },
    /// List of file paths
    FilePaths(Vec<PathBuf>),
}

/// What a pasteboard offers: whether it lists any types at all, and for
/// each kind of content the value read, where the pasteboard lists that
/// type and reading it succeeded.
pub struct PasteboardOffer {
    pub has_types: bool,
    pub file_paths: Option<Vec<PathBuf>>,
    /// An image listed as PNG.
    pub png_image: Option<Vec<u8>>,
    /// An image listed as TIFF (already converted to PNG).
    pub tiff_image: Option<Vec<u8>>,
    pub html: Option<String>,
    pub text: Option<String>,
}

/// The content a read yields: file paths before images (PNG, then TIFF),
/// images before HTML, HTML before plain text.
pub fn pick_content(offer: PasteboardOffer) -> (r: Result<ClipboardContent, ClipboardError>)
    ensures
        !offer.has_types ==> r matches Err(ClipboardError::NoPasteboardTypes),
        offer.has_types ==> match offer.file_paths {
            Some(p) => r == Ok::<ClipboardContent, ClipboardError>(ClipboardContent::FilePaths(p)),
            None => match offer.png_image {
                Some(d) => r == Ok::<ClipboardContent, ClipboardError>(ClipboardContent::Image { png_data: d }),
                None => match offer.tiff_image {
                    Some(d) => r == Ok::<ClipboardContent, ClipboardError>(ClipboardContent::Image { png_data: d }),
                    None => match offer.html {
                        Some(h) => r == Ok::<ClipboardContent, ClipboardError>(ClipboardContent::Html(h)),
                        None => match offer.text {
                            Some(t) => r == Ok::<ClipboardContent, ClipboardError>(ClipboardContent::Text(t)),
                            None => r matches Err(ClipboardError::NoSupportedContent),
                        },
                    },
                },
            },
        },
{
    if !offer.has_types {
        return Err(ClipboardError::NoPasteboardTypes);
    }
    if let Some(p) = offer.file_paths {
        return Ok(ClipboardContent::FilePaths(p));
    }
    if let Some(d) = offer.png_image {
        return Ok(ClipboardContent::Image { png_data: d });
    }
    if let Some(d) = offer.tiff_image {
        return Ok(ClipboardContent::Image { png_data: d });
    }
    if let Some(h) = offer.html {
        return Ok(ClipboardContent::Html(h));
    }
    if let Some(t) = offer.text {
        return Ok(ClipboardContent::Text(t));
    }
    Err(ClipboardError::NoSupportedContent)
}

/// What `image::load_from_memory_with_format` makes of bytes read as TIFF:
/// the decoded image, or the text of its error.
pub uninterp spec fn tiff_decode(tiff: Seq<u8>) -> Result<image::DynamicImage, Seq<char>>;

/// Whether the bytes decode as TIFF.
pub open spec fn tiff_decodes(tiff: Seq<u8>) -> bool {
    tiff_decode(tiff) is Ok
}

/// What `image::DynamicImage::write_to` with the PNG format makes of an
/// image: the PNG bytes, or the text of its error.
pub uninterp spec fn png_encode(img: image::DynamicImage) -> Result<Seq<u8>, Seq<char>>;

/// Decodes TIFF bytes with `image::load_from_memory_with_format`; its
/// result is the named decoding of the bytes.
#[verifier::external_body]
fn decode_tiff(tiff: &[u8]) -> (r: Result<image::DynamicImage, String>)
    ensures
        match r {
            Ok(img) => tiff_decode(tiff@) == Ok::<image::DynamicImage, Seq<char>>(img),
            Err(e) => tiff_decode(tiff@) == Err::<image::DynamicImage, Seq<char>>(e@),
        },
{
    image::load_from_memory_with_format(tiff, image::ImageFormat::Tiff).map_err(|e| e.to_string())
}

/// Encodes an image as PNG with `image::DynamicImage::write_to`; its
/// result is the named encoding of the image.
#[verifier::external_body]
fn encode_png(img: &image::DynamicImage) -> (r: Result<Vec<u8>, String>)
    ensures
        match r {
            Ok(p) => png_encode(*img) == Ok::<Seq<u8>, Seq<char>>(p@),
            Err(e) => png_encode(*img) == Err::<Seq<u8>, Seq<char>>(e@),
        },
{
    let mut png_buf = Vec::new();
    match img.write_to(&mut std::io::Cursor::new(&mut png_buf), image::ImageFormat::Png) {
        Ok(()) => Ok(png_buf),
        Err(e) => Err(e.to_string()),
    }
}

/// Convert TIFF image data to PNG format.
///
/// Bytes that do not decode as TIFF give `ImageDecode`; an image that then
/// fails to encode gives `ImageEncode`; each carries the library's message.
pub fn tiff_to_png(tiff_data: &[u8]) -> (r: Result<Vec<u8>, ClipboardError>)
    ensures
        match tiff_decode(tiff_data@) {
            Err(e) => r matches Err(ClipboardError::ImageDecode(m)) && m@ == e,
            Ok(img) => match png_encode(img) {
                Ok(p) => r matches Ok(b) && b@ == p,
                Err(e) => r matches Err(ClipboardError::ImageEncode(m)) && m@ == e,
            },
        },
{
    let img = match decode_tiff(tiff_data) {
        Ok(i) => i,
        Err(e) => return Err(ClipboardError::ImageDecode(e)),
    };
    match encode_png(&img) {
        Ok(png) => Ok(png),
        Err(e) => Err(ClipboardError::ImageEncode(e)),
    }
}

} // verus!
