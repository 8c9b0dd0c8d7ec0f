//! Reference images: decoding a PNG file and quantizing its pixels.

use vstd::prelude::*;
use crate::descriptor::ResolveError;
use crate::palette::{palette, quantize, quantizes_to, standard_palette, Color};

verus! {

/// How the samples of a decoded pixel are laid out.
#[derive(Clone, Copy, Debug, PartialEq, Eq, Structural)]
pub enum PixelLayout {
    Grayscale,
    Rgb,
    Indexed,
    GrayscaleAlpha,
    Rgba,
}

/// A decoded image: its size, its layout and its samples, row by row.
#[derive(Debug)]
pub struct RawImage {
    pub width: u32,
    pub height: u32,
    pub layout: PixelLayout,
    pub data: Vec<u8>,
}

/// The mathematical content of a decoded image.
pub struct Raster {
    pub width: u32,
    pub height: u32,
    pub layout: PixelLayout,
    pub data: Seq<u8>,
}

impl View for RawImage {
    type V = Raster;

    open spec fn view(&self) -> Raster {
        Raster { width: self.width, height: self.height, layout: self.layout, data: self.data@ }
    }
}

/// Bytes of the buffer that a reference image is decoded into: room for a
/// frame as large as the canvas with four samples per pixel.
pub const FRAME_ROOM: usize = 4000000;

/// The first frame that the `png` decoder reads from the file `bytes` into a
/// buffer of `room` bytes when it is set to give 8-bit samples, if it reads
/// one. The samples stand at the front of the buffer.
pub uninterp spec fn png_frame(bytes: Seq<u8>, room: usize) -> Option<Raster>;

/// Samples per pixel of the layouts that can be quantized: three or four
/// 8-bit channels.
pub open spec fn channels(layout: PixelLayout) -> Option<int> {
    match layout {
        PixelLayout::Rgb => Some(3),
        PixelLayout::Rgba => Some(4),
        _ => None,
    }
}

impl Raster {
    /// The image has three or four channels and holds a sample for each
    /// channel of each pixel.
    pub open spec fn is_usable(self) -> bool {
        match channels(self.layout) {
            Some(c) => self.data.len() >= self.width * self.height * c,
            None => false,
        }
    }

    /// The color of pixel `i` in row-major order; a pixel without an alpha
    /// channel is fully opaque.
    pub open spec fn color(self, i: int) -> Color {
        if self.layout == PixelLayout::Rgba {
            Color {
                r: self.data[4 * i],
                g: self.data[4 * i + 1],
                b: self.data[4 * i + 2],
                a: self.data[4 * i + 3],
            }
        } else {
            Color { r: self.data[3 * i], g: self.data[3 * i + 1], b: self.data[3 * i + 2], a: 255 }
        }
    }

    /// `image` holds the quantization of each pixel, in row-major order.
    pub open spec fn quantizes_into(self, image: Seq<u8>) -> bool {
        &&& image.len() == self.width * self.height
        &&& forall|i: int|
            0 <= i < image.len() ==> quantizes_to(
                standard_palette(),
                self.color(i),
                #[trigger] image[i] as int,
            )
    }
}

/// Decodes the first frame of a PNG file with the `png` crate: a decoder over
/// the bytes, set to normalize to 8-bit samples, reads the header and then
/// the frame (`Reader::next_frame`) into a zeroed buffer of `room` bytes. The
/// result is the size and layout that the decoder reports for the frame
/// together with the buffer, and `None` where the decoder reports an error,
/// as it does where the buffer is too small.
#[verifier::external_body]
fn decode_png(bytes: &[u8], room: usize) -> (r: Option<RawImage>)
    ensures
        match r {
            Some(raw) => png_frame(bytes@, room) == Some(raw@),
            None => png_frame(bytes@, room).is_none(),
        },
{
    let mut decoder = png::Decoder::new(bytes);
    decoder.set_transformations(png::Transformations::normalize_to_color8());
    let mut reader = decoder.read_info().ok()?;
    let mut data = vec![0u8; room];
    let info = reader.next_frame(&mut data).ok()?;
    let layout = match info.color_type {
        png::ColorType::Grayscale => PixelLayout::Grayscale,
        png::ColorType::Rgb => PixelLayout::Rgb,
        png::ColorType::Indexed => PixelLayout::Indexed,
        png::ColorType::GrayscaleAlpha => PixelLayout::GrayscaleAlpha,
        png::ColorType::Rgba => PixelLayout::Rgba,
    };
    Some(RawImage { width: info.width, height: info.height, layout, data })
}

/// Tells whether a decoded image can be quantized.
pub fn is_usable(raw: &RawImage) -> (ok: bool)
    ensures
        ok == raw@.is_usable(),
{
    let w = raw.width as u64;
    let h = raw.height as u64;
    assert(w * h <= 0xffff_fffe_0000_0001) by (nonlinear_arith)
        requires
            0 <= w <= 0xffff_ffff,
            0 <= h <= 0xffff_ffff,
    ;
    let pixels: u64 = w * h;
    let len = raw.data.len();
    match raw.layout {
        PixelLayout::Rgb => (len / 3) as u64 >= pixels,
        PixelLayout::Rgba => (len / 4) as u64 >= pixels,
        _ => false,
    }
}

/// Quantizes every pixel of a decoded image against the standard palette.
pub fn quantize_image(raw: &RawImage) -> (r: Result<Vec<u8>, ResolveError>)
    ensures
        match r {
            Ok(image) => raw@.is_usable() && raw@.quantizes_into(image@),
            Err(e) => e == ResolveError::Format && !raw@.is_usable(),
        },
{
    if !is_usable(raw) {
        return Err(ResolveError::Format);
    }
    let opaque = match raw.layout {
        PixelLayout::Rgba => false,
        _ => true,
    };
    assert(0 <= raw.width * raw.height) by (nonlinear_arith);
    proof {
        let pixels = raw.width * raw.height;
        if opaque {
            assert(channels(raw.layout) == Some(3int));
            assert(raw.data.len() >= pixels * 3);
        } else {
            assert(channels(raw.layout) == Some(4int));
            assert(raw.data.len() >= pixels * 4);
        }
    }
    let count: usize = (raw.width as usize) * (raw.height as usize);
    let colors = palette();
    let mut image: Vec<u8> = Vec::new();
    let mut i: usize = 0;
    while i < count
        invariant
            raw@.is_usable(),
            opaque == (raw.layout != PixelLayout::Rgba),
            opaque ==> count * 3 <= raw.data.len(),
            !opaque ==> count * 4 <= raw.data.len(),
            count == raw.width * raw.height,
            colors@ == standard_palette(),
            0 <= i <= count,
            image.len() == i,
            forall|j: int|
                0 <= j < i ==> quantizes_to(
                    standard_palette(),
                    raw@.color(j),
                    #[trigger] image@[j] as int,
                ),
        decreases count - i,
    {
        let color = if opaque {
            Color { r: raw.data[3 * i], g: raw.data[3 * i + 1], b: raw.data[3 * i + 2], a: 255 }
        } else {
            Color {
                r: raw.data[4 * i],
                g: raw.data[4 * i + 1],
                b: raw.data[4 * i + 2],
                a: raw.data[4 * i + 3],
            }
        };
        assert(color == raw@.color(i as int));
        image.push(quantize(colors.as_slice(), color));
        i += 1;
    }
    Ok(image)
}

/// The decoded image of the PNG file `bytes`.
pub open spec fn reference_of(bytes: Seq<u8>) -> Option<Raster> {
    png_frame(bytes, FRAME_ROOM)
}

/// Decodes a PNG file and quantizes its pixels. Returns the width, the
/// height and the palette index of each pixel. A file that cannot be
/// decoded, whose frame is larger than the decoding buffer, or whose pixels
/// are not of three or four 8-bit channels, is a format error.
pub fn read_reference(png: &[u8]) -> (r: Result<(u32, u32, Vec<u8>), ResolveError>)
    ensures
        match r {
            Ok((width, height, image)) => match reference_of(png@) {
                Some(raster) => {
                    &&& raster.is_usable()
                    &&& width == raster.width
                    &&& height == raster.height
                    &&& raster.quantizes_into(image@)
                },
                None => false,
            },
            Err(e) => e == ResolveError::Format && match reference_of(png@) {
                Some(raster) => !raster.is_usable(),
                None => true,
            },
        },
{
    match decode_png(png, FRAME_ROOM) {
        Some(raw) => match quantize_image(&raw) {
            Ok(image) => Ok((raw.width, raw.height, image)),
            Err(e) => Err(e),
        },
        None => Err(ResolveError::Format),
    }
}

} // verus!
