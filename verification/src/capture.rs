//! The primary screen's size, the size of a raw BGRA frame of it, and JPEG
//! compression of captured frames.
use vstd::prelude::*;

verus! {

/// The JPEG file that `jpeg_encoder` writes for BGRA pixels of the given size
/// at the given quality.
pub uninterp spec fn jpeg_bgra(pixels: Seq<u8>, width: u16, height: u16, quality: u8) -> Seq<u8>;

/// `jpeg_encoder::Encoder::new(&mut Vec<u8>, quality).encode(pixels, width,
/// height, ColorType::Bgra)`: the encoder refuses a zero width or height and
/// pixel data shorter than `width * height * 4` bytes (writing to a `Vec`
/// cannot fail); otherwise the written file is named by [`jpeg_bgra`].  The
/// error is the encoder's description of the refusal.
#[verifier::external_body]
fn encode_bgra_jpeg(pixels: &[u8], width: u16, height: u16, quality: u8) -> (res: Result<Vec<u8>, String>)
    ensures
        res is Ok <==> (width > 0 && height > 0 && pixels@.len() >= width * height * 4),
        res matches Ok(j) ==> j@ == jpeg_bgra(pixels@, width, height, quality),
{
    let mut out: Vec<u8> = Vec::new();
    let encoder = jpeg_encoder::Encoder::new(&mut out, quality);
    match encoder.encode(pixels, width, height, jpeg_encoder::ColorType::Bgra) {
        Ok(()) => Ok(out),
        Err(e) => Err(e.to_string()),
    }
}

/// The primary screen, by its size in pixels.
pub struct ScreenCapture {
    width: i32,
    height: i32,
}

impl ScreenCapture {
    /// The screen's width.
    pub closed spec fn width(&self) -> i32 {
        self.width
    }

    /// The screen's height.
    pub closed spec fn height(&self) -> i32 {
        self.height
    }

    /// The screen of the given size (as the system reports it).
    pub fn new(width: i32, height: i32) -> (res: Self)
        ensures
            res.width() == width,
            res.height() == height,
    {
        ScreenCapture { width, height }
    }

    /// The screen's width and height.
    pub fn dimensions(&self) -> (res: (i32, i32))
        ensures
            res == (self.width(), self.height()),
    {
        (self.width, self.height)
    }

    /// The size in bytes of a raw frame: four bytes (blue, green, red, alpha)
    /// per pixel.
    pub fn frame_buffer_len(&self) -> (res: usize)
        requires
            0 <= self.width() * self.height() * 4 <= i32::MAX,
        ensures
            res == self.width() * self.height() * 4,
    {
        let n: i32 = self.width * self.height * 4;
        n as usize
    }

    /// Compresses a raw BGRA frame of this screen into JPEG at the given
    /// quality (the size is given to the encoder as 16-bit numbers).
    pub fn encode_jpeg(&self, bgra: &[u8], quality: u8) -> (res: Result<Vec<u8>, String>)
        ensures
            res is Ok <==> ((self.width() as u16) > 0 && (self.height() as u16) > 0 && bgra@.len() >= (
            self.width() as u16) * (self.height() as u16) * 4),
            res matches Ok(j) ==> j@ == jpeg_bgra(
                bgra@,
                self.width() as u16,
                self.height() as u16,
                quality,
            ),
    {
        encode_bgra_jpeg(bgra, self.width as u16, self.height as u16, quality)
    }
}

} // verus!
