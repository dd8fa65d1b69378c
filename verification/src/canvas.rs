use vstd::prelude::*;

verus! {

/// An RGBA canvas: a wrapper around image's pixel buffer, which the
/// conversion fills one pixel at a time. Verus sees the canvas only
/// through `canvas_bytes`, `canvas_width` and `canvas_height` and the
/// contracts of the functions below.
#[verifier::external_body]
pub struct Canvas {
    inner: image::RgbaImage,
}

/// The bytes held by a canvas: four channel bytes per pixel, in the
/// order red, green, blue, alpha, pixels row-major.
pub uninterp spec fn canvas_bytes(c: Canvas) -> Seq<u8>;

/// The width the canvas was made with.
pub uninterp spec fn canvas_width(c: Canvas) -> u32;

/// The height the canvas was made with.
pub uninterp spec fn canvas_height(c: Canvas) -> u32;

/// Relies on image::ImageBuffer::new: a fresh canvas of the given
/// dimensions holds width * height pixels of four zeroed bytes each.
#[verifier::external_body]
pub(crate) fn canvas_new(width: u32, height: u32) -> (c: Canvas)
    requires
        4 * (width as int) <= usize::MAX as int,
        4 * ((width as int) * (height as int)) <= usize::MAX as int,
    ensures
        canvas_width(c) == width,
        canvas_height(c) == height,
        canvas_bytes(c) == Seq::new((4 * ((width as int) * (height as int))) as nat, |i: int| 0u8),
{
    Canvas { inner: image::ImageBuffer::new(width, height) }
}

/// Relies on image::ImageBuffer::put_pixel: overwrites the four channel
/// bytes of the pixel at (x, y), row-major, and touches nothing else.
#[verifier::external_body]
pub(crate) fn canvas_put_pixel(c: &mut Canvas, x: u32, y: u32, r: u8, g: u8, b: u8, a: u8)
    requires
        x < canvas_width(*old(c)),
        y < canvas_height(*old(c)),
    ensures
        canvas_width(*final(c)) == canvas_width(*old(c)),
        canvas_height(*final(c)) == canvas_height(*old(c)),
        canvas_bytes(*final(c)) == ({
            let i = 4 * ((y as int) * (canvas_width(*old(c)) as int) + (x as int));
            canvas_bytes(*old(c)).update(i, r).update(i + 1, g).update(i + 2, b).update(i + 3, a)
        }),
{
    c.inner.put_pixel(x, y, image::Rgba([r, g, b, a]));
}

/// Relies on image::ImageBuffer::into_raw: hands back the canvas's
/// underlying byte container unchanged.
#[verifier::external_body]
pub(crate) fn canvas_into_bytes(c: Canvas) -> (bytes: Vec<u8>)
    ensures
        bytes@ == canvas_bytes(c),
{
    c.inner.into_raw()
}

} // verus!
