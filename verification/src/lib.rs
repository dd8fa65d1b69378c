//! Grayscale conversion of RGBA pixel buffers.
//!
//! `convert_to_grayscale` takes a flat byte buffer, four bytes per
//! pixel in the order red, green, blue, alpha, laid out row-major,
//! together with its width and height, and returns a new buffer in
//! which every colour channel holds the pixel's luminance and every
//! alpha byte is copied unchanged. Dimensions that do not fit the
//! buffer are refused up front.

mod canvas;
mod convert;
mod luma;

pub use convert::GrayscaleError;
pub use convert::convert_to_grayscale;
pub use convert::gray_byte;
pub use convert::grayscale_seq;
pub use convert::lemma_alpha_preserved;
pub use convert::lemma_channels_equal;
pub use convert::lemma_deterministic;
pub use convert::lemma_grayscale_fixed_point;
pub use convert::lemma_length_preserved;
pub use convert::valid_dimensions;
pub use luma::lemma_luminance_fixed_on_grey;
pub use luma::lemma_luminance_in_range;
pub use luma::luminance;
pub use luma::luminance_int;
