//! Core types for the graphics protocol subsystem.

use vstd::prelude::*;

verus! {

/// Unique identifier for a stored image. ID 0 means "no explicit ID".
#[derive(Debug, Clone, Copy, PartialEq, Eq, Hash, Structural)]
pub struct ImageId(pub u32);

/// Pixel format for image data.
#[derive(Debug, Clone, Copy, PartialEq, Eq, Structural)]
pub enum PixelFormat {
    /// 3 bytes per pixel: Red, Green, Blue.
    Rgb,
    /// 4 bytes per pixel: Red, Green, Blue, Alpha.
    Rgba,
    /// 4 bytes per pixel: Blue, Green, Red, Alpha (Metal native).
    Bgra,
    /// Compressed PNG data (needs decoding before use).
    Png,
}

/// How image data is transmitted from the application to the terminal.
#[derive(Debug, Clone, Copy, PartialEq, Eq, Structural)]
pub enum TransmissionMode {
    /// Data is sent directly inline, base64-encoded in the escape sequence.
    Direct,
    /// Data is read from a regular file path.
    File,
    /// Data is read from a temporary file (deleted after reading).
    TempFile,
    /// Data is transferred via shared memory.
    SharedMemory,
}

/// Raw image data with dimensions and format metadata.
#[derive(Debug, Clone)]
pub struct ImageData {
    /// Pixel data in the specified format.
    pub data: Vec<u8>,
    /// Width in pixels.
    pub width: u32,
    /// Height in pixels.
    pub height: u32,
    /// Pixel format of the data.
    pub format: PixelFormat,
}

/// RGBA bytes with red and blue swapped in every complete 4-byte pixel;
/// trailing bytes that do not form a whole pixel are kept.
pub open spec fn rgba_to_bgra_bytes(d: Seq<u8>) -> Seq<u8> {
    Seq::new(
        d.len(),
        |i: int|
            if i < d.len() / 4 * 4 {
                if i % 4 == 0 {
                    d[i + 2]
                } else if i % 4 == 2 {
                    d[i - 2]
                } else {
                    d[i]
                }
            } else {
                d[i]
            },
    )
}

/// RGB bytes expanded to BGRA with alpha 255, one output pixel per complete
/// 3-byte input pixel; trailing bytes that do not form a whole pixel are dropped.
pub open spec fn rgb_to_bgra_bytes(d: Seq<u8>) -> Seq<u8> {
    Seq::new(
        d.len() / 3 * 4,
        |i: int|
            if i % 4 == 0 {
                d[3 * (i / 4) + 2]
            } else if i % 4 == 1 {
                d[3 * (i / 4) + 1]
            } else if i % 4 == 2 {
                d[3 * (i / 4)]
            } else {
                255u8
            },
    )
}

impl ImageData {
    /// Create new image data.
    pub fn new(data: Vec<u8>, width: u32, height: u32, format: PixelFormat) -> (r: Self)
        ensures
            r.data@ == data@,
            r.width == width,
            r.height == height,
            r.format == format,
    {
        ImageData { data, width, height, format }
    }

    /// Convert the image data to BGRA format in place.
    ///
    /// This is a no-op if the data is already BGRA; PNG data is left
    /// untouched (it must be decoded first).
    pub fn to_bgra(&mut self)
        ensures
            final(self).width == old(self).width,
            final(self).height == old(self).height,
            match old(self).format {
                PixelFormat::Bgra => final(self).data@ == old(self).data@ && final(self).format
                    == PixelFormat::Bgra,
                PixelFormat::Png => final(self).data@ == old(self).data@ && final(self).format
                    == PixelFormat::Png,
                PixelFormat::Rgba => final(self).data@ == rgba_to_bgra_bytes(old(self).data@)
                    && final(self).format == PixelFormat::Bgra,
                PixelFormat::Rgb => final(self).data@ == rgb_to_bgra_bytes(old(self).data@)
                    && final(self).format == PixelFormat::Bgra,
            },
    {
        match self.format {
            PixelFormat::Bgra => {},
            PixelFormat::Rgba => {
                let ghost d = self.data@;
                let len: usize = self.data.len();
                let n: usize = len / 4;
                let mut j: usize = 0;
                while j < n
                    invariant
                        n == d.len() / 4,
                        len == d.len(),
                        j <= n,
                        self.data@.len() == d.len(),
                        self.width == old(self).width,
                        self.height == old(self).height,
                        self.format == old(self).format,
                        d == old(self).data@,
                        forall|i: int|
                            0 <= i < self.data@.len() ==> #[trigger] self.data@[i] == (if i < 4 * j {
                                rgba_to_bgra_bytes(d)[i]
                            } else {
                                d[i]
                            }),
                    decreases n - j,
                {
                    assert(4 * j + 3 < len) by (nonlinear_arith)
                        requires
                            j < n,
                            n == len / 4,
                    ;
                    let r = self.data[4 * j];
                    let b = self.data[4 * j + 2];
                    self.data.set(4 * j, b);
                    self.data.set(4 * j + 2, r);
                    j += 1;
                }
                proof {
                    assert(self.data@ =~= rgba_to_bgra_bytes(d));
                }
                self.format = PixelFormat::Bgra;
            },
            PixelFormat::Rgb => {
                let ghost d = self.data@;
                let len: usize = self.data.len();
                let n: usize = len / 3;
                let mut bgra: Vec<u8> = Vec::new();
                let mut j: usize = 0;
                while j < n
                    invariant
                        n == d.len() / 3,
                        len == d.len(),
                        j <= n,
                        d == self.data@,
                        bgra@.len() == 4 * j,
                        forall|i: int|
                            0 <= i < bgra@.len() ==> #[trigger] bgra@[i] == rgb_to_bgra_bytes(d)[i],
                    decreases n - j,
                {
                    assert(3 * j + 2 < len) by (nonlinear_arith)
                        requires
                            j < n,
                            n == len / 3,
                    ;
                    bgra.push(self.data[3 * j + 2]);
                    bgra.push(self.data[3 * j + 1]);
                    bgra.push(self.data[3 * j]);
                    bgra.push(255);
                    j += 1;
                }
                proof {
                    assert(bgra@ =~= rgb_to_bgra_bytes(d));
                }
                self.data = bgra;
                self.format = PixelFormat::Bgra;
            },
            PixelFormat::Png => {},
        }
    }

    /// Returns the size of the pixel data in bytes.
    pub fn byte_size(&self) -> (r: usize)
        ensures
            r == self.data@.len(),
    {
        self.data.len()
    }
}

/// Describes where and how an image is placed in the terminal grid.
#[derive(Debug, Clone, Copy, PartialEq, Eq, Structural)]
pub struct ImagePlacement {
    /// The image this placement refers to.
    pub image_id: ImageId,
    /// Unique placement ID (0 = default placement).
    pub placement_id: u32,
    /// Column position in the terminal grid (0-indexed).
    pub column: u32,
    /// Row position in the terminal grid (0-indexed, relative to scrollback).
    pub row: i32,
    /// Display width in columns (0 = auto from image dimensions).
    pub columns: u32,
    /// Display height in rows (0 = auto from image dimensions).
    pub rows: u32,
    /// X offset within the source image in pixels.
    pub source_x: u32,
    /// Y offset within the source image in pixels.
    pub source_y: u32,
    /// Width of the source region in pixels (0 = full width).
    pub source_width: u32,
    /// Height of the source region in pixels (0 = full height).
    pub source_height: u32,
    /// Z-index for layering: negative = under text, positive = over text.
    pub z_index: i32,
}

impl ImagePlacement {
    /// Create a new placement with default values.
    pub fn new(image_id: ImageId) -> (r: Self)
        ensures
            r == (ImagePlacement {
                image_id,
                placement_id: 0,
                column: 0,
                row: 0,
                columns: 0,
                rows: 0,
                source_x: 0,
                source_y: 0,
                source_width: 0,
                source_height: 0,
                z_index: 0,
            }),
    {
        ImagePlacement {
            image_id,
            placement_id: 0,
            column: 0,
            row: 0,
            columns: 0,
            rows: 0,
            source_x: 0,
            source_y: 0,
            source_width: 0,
            source_height: 0,
            z_index: 0,
        }
    }
}

/// Law: converting to BGRA twice is the same as converting once.
pub proof fn lemma_to_bgra_idempotent(d: Seq<u8>)
    ensures
        rgba_to_bgra_bytes(rgba_to_bgra_bytes(d)) == d,
        rgb_to_bgra_bytes(d).len() == d.len() / 3 * 4,
{
    assert(rgba_to_bgra_bytes(rgba_to_bgra_bytes(d)) =~= d);
}

} // verus!
