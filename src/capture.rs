use vstd::prelude::*;

verus! {

/// Capture textures are allocated with widths that are a multiple of this.
pub const WIDTH_ALIGNMENT: u32 = 64;

/// Bytes of one RGBA or BGRA pixel.
pub const BYTES_PER_PIXEL: u32 = 4;

/// The largest requested width whose padded row still has a byte count that
/// fits in `u32`.
pub const MAX_CAPTURE_WIDTH: u32 = 1073741760;

/// `width` rounded up to the next multiple of the alignment.
pub open spec fn padded_width(width: int) -> int {
    ((width + 63) / 64) * 64
}

/// Rounds a requested screenshot width up to the next multiple of 64, which
/// texture copies need. Such an image may be wider than requested.
pub fn screenshot_width(width: u32) -> (r: u32)
    requires
        width <= MAX_CAPTURE_WIDTH,
    ensures
        r == padded_width(width as int),
        r % 64 == 0,
        width <= r < width + 64,
{
    let r = ((width + 63) / WIDTH_ALIGNMENT) * WIDTH_ALIGNMENT;
    assert(r == padded_width(width as int) && r % 64 == 0 && width <= r < width + 64)
        by (nonlinear_arith)
        requires
            r == ((width + 63) / 64) * 64,
    ;
    r
}

/// The sizes of the texture and of the buffer that one screenshot is drawn
/// into and read back from.
#[derive(Debug, Clone, Copy, PartialEq, Eq, Structural)]
pub struct CaptureSize {
    pub texture_width: u32,
    pub texture_height: u32,
    pub bytes_per_row: u32,
    pub buffer_size: u64,
}

/// The capture texture is as high as requested and padded in width; the
/// readback buffer holds its rows tightly packed, four bytes per pixel.
pub fn capture_size(width: u32, height: u32) -> (r: CaptureSize)
    requires
        width <= MAX_CAPTURE_WIDTH,
    ensures
        r.texture_width == padded_width(width as int),
        r.texture_height == height,
        r.bytes_per_row == 4 * r.texture_width,
        r.buffer_size == 4 * r.texture_width * height,
{
    let texture_width = screenshot_width(width);
    let bytes_per_row = texture_width * BYTES_PER_PIXEL;
    let tw = texture_width as u64;
    let h = height as u64;
    assert(tw * h <= 1073741760 * 4294967295u64) by (nonlinear_arith)
        requires
            tw <= 1073741760,
            h <= 4294967295u64,
    ;
    let pixel_count = tw * h;
    let buffer_size = pixel_count * 4;
    assert(buffer_size == 4 * texture_width * height) by (nonlinear_arith)
        requires
            buffer_size == pixel_count * 4,
            pixel_count == tw * h,
            tw == texture_width,
            h == height,
    ;
    CaptureSize { texture_width, texture_height: height, bytes_per_row, buffer_size }
}

/// `data` with the first and third byte of each of its first `len / 4`
/// pixels exchanged (of `len` bytes, which are whole pixels); bytes past
/// those pixels are kept.
pub open spec fn swap_red_blue(data: Seq<u8>, len: int) -> Seq<u8> {
    Seq::new(
        data.len(),
        |i: int|
            if i < len - len % 4 && i % 4 == 0 {
                data[i + 2]
            } else if i < len - len % 4 && i % 4 == 2 {
                data[i - 2]
            } else {
                data[i]
            },
    )
}

/// Turns the first `len` bytes of BGRA pixels into RGBA pixels, in place.
pub fn bgra_to_rgba(data: &mut Vec<u8>, len: usize)
    requires
        len <= old(data)@.len(),
    ensures
        final(data)@ == swap_red_blue(old(data)@, len as int),
{
    let pixels = len / 4;
    let mut p: usize = 0;
    while p < pixels
        invariant
            pixels == len / 4,
            len <= data@.len(),
            data@.len() == old(data)@.len(),
            p <= pixels,
            forall|i: int|
                0 <= i < data@.len() ==> #[trigger] data@[i] == (if i < 4 * p {
                    swap_red_blue(old(data)@, len as int)[i]
                } else {
                    old(data)@[i]
                }),
        decreases pixels - p,
    {
        let i = 4 * p;
        let blue = data[i];
        let red = data[i + 2];
        data.set(i, red);
        data.set(i + 2, blue);
        p = p + 1;
    }
    assert(data@ =~= swap_red_blue(old(data)@, len as int));
}

/// An RGBA image of the `image` crate, as a capture returns it. Verus does
/// not take `image::ImageBuffer`'s declaration, whose pixel type is bound by a
/// trait of that crate, so the image is held here.
#[verifier::external_body]
pub struct CapturedImage {
    pub image: image::RgbaImage,
}

/// The raw bytes that a captured image holds, four per pixel, row by row.
pub uninterp spec fn captured_bytes(img: CapturedImage) -> Seq<u8>;

/// The width in pixels of a captured image.
pub uninterp spec fn captured_width(img: CapturedImage) -> u32;

/// The height in pixels of a captured image.
pub uninterp spec fn captured_height(img: CapturedImage) -> u32;

/// Relies on image::ImageBuffer::from_raw: it keeps the given bytes and size
/// unchanged, and returns `None` exactly when fewer than
/// `4 * width * height` bytes are given.
#[verifier::external_body]
fn rgba_image_from_raw(width: u32, height: u32, data: Vec<u8>) -> (r: Option<CapturedImage>)
    ensures
        r.is_some() <==> 4 * width * height <= data@.len(),
        r matches Some(img) ==> {
            &&& captured_bytes(img) == data@
            &&& captured_width(img) == width
            &&& captured_height(img) == height
        },
{
    image::ImageBuffer::from_raw(width, height, data).map(|image| CapturedImage { image })
}

/// Builds an RGBA image of the given size from BGRA pixels read back from the
/// GPU, swapping the red and blue channels of every pixel of the image. There
/// is no image when the data is too short for that size.
pub fn image_from_bgra(width: u32, height: u32, data: Vec<u8>) -> (r: Option<CapturedImage>)
    ensures
        r.is_some() <==> 4 * width * height <= data@.len(),
        r matches Some(img) ==> {
            &&& captured_bytes(img) == swap_red_blue(data@, 4 * width * height)
            &&& captured_width(img) == width
            &&& captured_height(img) == height
        },
{
    let w = width as u64;
    let h = height as u64;
    assert(w * h <= 4294967295u64 * 4294967295u64) by (nonlinear_arith)
        requires
            w <= 4294967295u64,
            h <= 4294967295u64,
    ;
    let pixel_count = w * h;
    let available = data.len() as u64 / 4;
    if pixel_count > available {
        assert(4 * width * height > data@.len()) by (nonlinear_arith)
            requires
                pixel_count == w * h,
                w == width,
                h == height,
                pixel_count > available,
                available == data@.len() / 4,
        ;
        return None;
    }
    let len = (pixel_count * 4) as usize;
    assert(len == 4 * width * height && len <= data@.len()) by (nonlinear_arith)
        requires
            pixel_count == w * h,
            w == width,
            h == height,
            pixel_count <= available,
            available == data@.len() / 4,
            len == pixel_count * 4,
    ;
    let mut pixels = data;
    bgra_to_rgba(&mut pixels, len);
    rgba_image_from_raw(width, height, pixels)
}

/// How many integer frames lie between 0 and the final frame index, both
/// included; `None` stands for a final frame index below 0.
pub open spec fn frame_count_of(final_frame: Option<u32>) -> nat {
    match final_frame {
        Some(f) => f as nat + 1,
        None => 0,
    }
}

/// The frames that a capture of a whole animation renders, in increasing
/// order: every integer frame from 0 up to the final frame index.
#[derive(Debug, Clone, Copy, PartialEq, Eq, Structural)]
pub struct FrameSequence {
    pub next_frame: u64,
    pub final_frame: Option<u32>,
}

impl FrameSequence {
    pub open spec fn well_formed(&self) -> bool {
        self.next_frame <= frame_count_of(self.final_frame)
    }

    /// A sequence that starts at frame 0.
    pub fn new(final_frame: Option<u32>) -> (r: FrameSequence)
        ensures
            r.well_formed(),
            r.next_frame == 0,
            r.final_frame == final_frame,
    {
        FrameSequence { next_frame: 0, final_frame }
    }

    /// The number of frames of the whole sequence.
    pub fn frame_count(&self) -> (r: u64)
        ensures
            r == frame_count_of(self.final_frame),
    {
        match self.final_frame {
            Some(f) => f as u64 + 1,
            None => 0,
        }
    }

    /// The next frame to render, or `None` once every frame was handed out.
    pub fn advance(&mut self) -> (r: Option<u32>)
        requires
            old(self).well_formed(),
        ensures
            final(self).well_formed(),
            final(self).final_frame == old(self).final_frame,
            old(self).next_frame < frame_count_of(old(self).final_frame) ==> {
                &&& r == Some(old(self).next_frame as u32)
                &&& final(self).next_frame == old(self).next_frame + 1
            },
            old(self).next_frame == frame_count_of(old(self).final_frame) ==> {
                &&& r.is_none()
                &&& final(self).next_frame == old(self).next_frame
            },
    {
        if self.next_frame < self.frame_count() {
            let frame = self.next_frame as u32;
            self.next_frame = self.next_frame + 1;
            Some(frame)
        } else {
            None
        }
    }
}

} // verus!
