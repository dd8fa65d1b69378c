use vstd::prelude::*;

use vstd::arithmetic::div_mod::lemma_fundamental_div_mod;
use vstd::arithmetic::div_mod::lemma_fundamental_div_mod_converse;

use crate::canvas::canvas_bytes;
use crate::canvas::canvas_height;
use crate::canvas::canvas_into_bytes;
use crate::canvas::canvas_new;
use crate::canvas::canvas_put_pixel;
use crate::canvas::canvas_width;
use crate::luma::lemma_luminance_fixed_on_grey;
use crate::luma::lemma_luminance_in_range;
use crate::luma::luminance;
use crate::luma::luminance_int;

verus! {

/// Why a conversion was refused.
#[derive(Clone, Copy, Debug, PartialEq, Eq, Structural)]
pub enum GrayscaleError {
    /// Width or height is zero, or the buffer does not hold exactly
    /// width * height * 4 bytes.
    InvalidDimensions,
}

/// What the converter asks of its input: positive dimensions and four
/// bytes per pixel, no more and no less.
pub open spec fn valid_dimensions(len: nat, width: u32, height: u32) -> bool {
    1 <= width && 1 <= height && len == 4 * ((width as int) * (height as int))
}

/// Byte `i` of the grayscale image of `input`: a pixel's alpha byte is
/// copied, each of its three colour bytes becomes the pixel's luminance.
pub open spec fn gray_byte(input: Seq<u8>, i: int) -> u8 {
    if i % 4 == 3 {
        input[i]
    } else {
        luminance_int(
            input[4 * (i / 4)] as int,
            input[4 * (i / 4) + 1] as int,
            input[4 * (i / 4) + 2] as int,
        ) as u8
    }
}

/// The grayscale image of an RGBA byte sequence, byte for byte.
pub open spec fn grayscale_seq(input: Seq<u8>) -> Seq<u8> {
    Seq::new(input.len(), |i: int| gray_byte(input, i))
}

/// Each byte offset inside pixel `p` lands back on `p` under division
/// by four.
proof fn lemma_pixel_offset(p: int, k: int)
    requires
        0 <= p,
        0 <= k < 4,
    ensures
        (4 * p + k) / 4 == p,
        (4 * p + k) % 4 == k,
{
    lemma_fundamental_div_mod_converse(4 * p + k, 4, p, k);
}

/// A pixel inside the image keeps all four of its bytes inside the
/// buffer.
proof fn lemma_pixel_index_bound(x: int, y: int, w: int, h: int)
    by (nonlinear_arith)
    requires
        0 <= x < w,
        0 <= y < h,
    ensures
        0 <= y * w + x,
        4 * (y * w + x) + 4 <= 4 * (w * h),
{
}

/// Converts an RGBA byte buffer of the given dimensions to grayscale:
/// every colour channel of a pixel is replaced by the pixel's
/// luminance, alpha is copied unchanged. A buffer whose length is not
/// width * height * 4, or dimensions that are not both positive, are
/// refused before any pixel is touched.
pub fn convert_to_grayscale(buffer: &Vec<u8>, width: u32, height: u32) -> (result: Result<
    Vec<u8>,
    GrayscaleError,
>)
    ensures
        (match result {
            Ok(out) => valid_dimensions(buffer@.len(), width, height) && out@ == grayscale_seq(
                buffer@,
            ),
            Err(e) => !valid_dimensions(buffer@.len(), width, height) && e
                == GrayscaleError::InvalidDimensions,
        }),
{
    let len: usize = buffer.len();
    proof {
        assert((width as int) * (height as int) < 0x10000000000000000int) by (nonlinear_arith)
            requires
                width < 0x100000000u64,
                height < 0x100000000u64,
        ;
    }
    if width == 0 || height == 0 || (len as u128) != 4u128 * ((width as u128) * (height
        as u128)) {
        return Err(GrayscaleError::InvalidDimensions);
    }
    proof {
        assert(4 * (width as int) <= 4 * ((width as int) * (height as int))) by (nonlinear_arith)
            requires
                1 <= height,
                0 <= width,
        ;
    }
    let mut canvas = canvas_new(width, height);
    let mut y: u32 = 0;
    while y < height
        invariant
            y <= height,
            1 <= width,
            1 <= height,
            len == buffer@.len(),
            len == 4 * ((width as int) * (height as int)),
            canvas_width(canvas) == width,
            canvas_height(canvas) == height,
            canvas_bytes(canvas).len() == len,
            forall|j: int|
                0 <= j < 4 * ((y as int) * (width as int)) ==> canvas_bytes(canvas)[j]
                    == #[trigger] gray_byte(buffer@, j),
        decreases height - y,
    {
        let mut x: u32 = 0;
        while x < width
            invariant
                x <= width,
                y < height,
                1 <= width,
                1 <= height,
                len == buffer@.len(),
                len == 4 * ((width as int) * (height as int)),
                canvas_width(canvas) == width,
                canvas_height(canvas) == height,
                canvas_bytes(canvas).len() == len,
                forall|j: int|
                    0 <= j < 4 * ((y as int) * (width as int) + (x as int)) ==> canvas_bytes(
                        canvas,
                    )[j] == #[trigger] gray_byte(buffer@, j),
            decreases width - x,
        {
            proof {
                lemma_pixel_index_bound(x as int, y as int, width as int, height as int);
            }
            let idx: usize = 4 * ((y as usize) * (width as usize) + (x as usize));
            let r: u8 = buffer[idx];
            let g: u8 = buffer[idx + 1];
            let b: u8 = buffer[idx + 2];
            let a: u8 = buffer[idx + 3];
            let grey: u8 = luminance(r, g, b);
            canvas_put_pixel(&mut canvas, x, y, grey, grey, grey, a);
            proof {
                let p = (y as int) * (width as int) + (x as int);
                lemma_pixel_offset(p, 0);
                lemma_pixel_offset(p, 1);
                lemma_pixel_offset(p, 2);
                lemma_pixel_offset(p, 3);
                lemma_luminance_in_range(r as int, g as int, b as int);
                assert forall|j: int| 0 <= j < 4 * (p + 1) implies canvas_bytes(canvas)[j]
                    == #[trigger] gray_byte(buffer@, j) by {
                    if 4 * p <= j {
                        assert(j == 4 * p || j == 4 * p + 1 || j == 4 * p + 2 || j == 4 * p + 3);
                    }
                }
            }
            x = x + 1;
        }
        proof {
            assert(((y as int) + 1) * (width as int) == (y as int) * (width as int) + (width
                as int)) by (nonlinear_arith);
        }
        y = y + 1;
    }
    proof {
        assert((height as int) * (width as int) == (width as int) * (height as int))
            by (nonlinear_arith);
    }
    let out: Vec<u8> = canvas_into_bytes(canvas);
    proof {
        assert(out@ =~= grayscale_seq(buffer@));
    }
    Ok(out)
}

/// Determinism: the grayscale image is a function of the input bytes
/// alone, so two outputs that meet the conversion's contract on one
/// and the same input are byte-identical.
pub proof fn lemma_deterministic(input: Seq<u8>, first: Seq<u8>, second: Seq<u8>)
    requires
        first == grayscale_seq(input),
        second == grayscale_seq(input),
    ensures
        first == second,
{
}

/// Length preservation: the grayscale image holds exactly as many
/// bytes as its input.
pub proof fn lemma_length_preserved(input: Seq<u8>)
    ensures
        grayscale_seq(input).len() == input.len(),
{
}

/// Alpha preservation: every fourth byte of the grayscale image is
/// copied from the input unchanged.
pub proof fn lemma_alpha_preserved(input: Seq<u8>, i: int)
    requires
        0 <= i < input.len(),
        i % 4 == 3,
    ensures
        grayscale_seq(input)[i] == input[i],
{
}

/// Grayscale equality: inside each whole pixel of the grayscale image,
/// the red, green and blue channels hold one and the same value.
pub proof fn lemma_channels_equal(input: Seq<u8>, p: int)
    requires
        0 <= p,
        4 * p + 3 <= input.len(),
    ensures
        grayscale_seq(input)[4 * p] == grayscale_seq(input)[4 * p + 1],
        grayscale_seq(input)[4 * p + 1] == grayscale_seq(input)[4 * p + 2],
{
    lemma_pixel_offset(p, 0);
    lemma_pixel_offset(p, 1);
    lemma_pixel_offset(p, 2);
}

/// A second conversion changes nothing: a grey pixel's luminance is
/// its own channel value, so converting a converted image gives it
/// back byte for byte.
pub proof fn lemma_grayscale_fixed_point(input: Seq<u8>)
    requires
        input.len() % 4 == 0,
    ensures
        grayscale_seq(grayscale_seq(input)) == grayscale_seq(input),
{
    let once = grayscale_seq(input);
    lemma_fundamental_div_mod(input.len() as int, 4);
    assert forall|i: int| 0 <= i < once.len() implies #[trigger] gray_byte(once, i) == once[i] by {
        lemma_fundamental_div_mod(i, 4);
        let p = i / 4;
        if i % 4 != 3 {
            lemma_pixel_offset(p, 0);
            lemma_pixel_offset(p, 1);
            lemma_pixel_offset(p, 2);
            let v = luminance_int(
                input[4 * p] as int,
                input[4 * p + 1] as int,
                input[4 * p + 2] as int,
            );
            lemma_luminance_in_range(
                input[4 * p] as int,
                input[4 * p + 1] as int,
                input[4 * p + 2] as int,
            );
            lemma_luminance_fixed_on_grey(v);
        }
    }
    assert(grayscale_seq(once) =~= once);
}

} // verus!

