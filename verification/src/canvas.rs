//! The raster that a gradient is painted on: an `image::RgbaImage`, reached
//! only through the few calls below. Verus takes their contracts on trust;
//! each states what the `image` crate's source shows of the call it makes.
use vstd::prelude::*;

verus! {

/// An RGBA raster of the `image` crate, eight bits per channel.
#[verifier::external_body]
pub struct Canvas {
    image: image::RgbaImage,
}

/// The raster's samples as `image` stores them: row by row from the top, in
/// a row pixel by pixel from the left, in a pixel red, green, blue, alpha.
pub uninterp spec fn canvas_bytes(canvas: Canvas) -> Seq<u8>;

/// The raster's width and height in pixels.
pub uninterp spec fn canvas_dims(canvas: Canvas) -> (u32, u32);

/// Where the first sample of pixel `(x, y)` stands among the samples of a
/// raster `width` pixels wide.
pub open spec fn sample_index(width: int, x: int, y: int) -> int {
    4 * (y * width + x)
}

/// `ImageBuffer::new`: a raster of the given size with every sample zero.
/// The call panics where the samples would outgrow a vector, which `requires`
/// leaves out. Where the machine lacks the memory the process ends, as with
/// any allocation.
#[verifier::external_body]
pub(crate) fn blank_canvas(width: u32, height: u32) -> (canvas: Canvas)
    requires
        4 * width * height <= isize::MAX,
    ensures
        canvas_dims(canvas) == (width, height),
        canvas_bytes(canvas) == Seq::new((4 * width * height) as nat, |k: int| 0u8),
{
    Canvas { image: image::ImageBuffer::new(width, height) }
}

/// `ImageBuffer::put_pixel`: overwrites the four samples of pixel `(x, y)`
/// and leaves every other sample, and the size, as they were. The call panics
/// outside the raster, which `requires` leaves out.
#[verifier::external_body]
pub(crate) fn put_pixel(canvas: &mut Canvas, x: u32, y: u32, color: [u8; 4])
    requires
        x < canvas_dims(*old(canvas)).0,
        y < canvas_dims(*old(canvas)).1,
    ensures
        canvas_dims(*final(canvas)) == canvas_dims(*old(canvas)),
        canvas_bytes(*final(canvas)).len() == canvas_bytes(*old(canvas)).len(),
        forall|k: int|
            0 <= k < canvas_bytes(*old(canvas)).len() ==> #[trigger] canvas_bytes(*final(canvas))[k] == {
                let first = sample_index(canvas_dims(*old(canvas)).0 as int, x as int, y as int);
                if first <= k < first + 4 {
                    color@[k - first]
                } else {
                    canvas_bytes(*old(canvas))[k]
                }
            },
{
    canvas.image.put_pixel(x, y, image::Rgba(color));
}

/// `ImageBuffer::into_raw`: hands out the samples.
#[verifier::external_body]
pub(crate) fn into_bytes(canvas: Canvas) -> (bytes: Vec<u8>)
    ensures
        bytes@ == canvas_bytes(canvas),
{
    canvas.image.into_raw()
}

} // verus!
