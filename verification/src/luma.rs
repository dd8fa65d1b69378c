use vstd::prelude::*;

verus! {

/// Luminance of one pixel's colour channels, in the standard weighting
/// 299/587/114 per mille, with the fractional part discarded.
pub open spec fn luminance_int(r: int, g: int, b: int) -> int {
    (299 * r + 587 * g + 114 * b) / 1000
}

/// The luminance of channel values drawn from bytes is itself a byte.
pub proof fn lemma_luminance_in_range(r: int, g: int, b: int)
    requires
        0 <= r <= 255,
        0 <= g <= 255,
        0 <= b <= 255,
    ensures
        0 <= luminance_int(r, g, b) <= 255,
{
}

/// A grey channel keeps its value: equal channels weigh up to the
/// whole per-mille scale, so nothing is lost to the division.
pub proof fn lemma_luminance_fixed_on_grey(v: int)
    requires
        0 <= v <= 255,
    ensures
        luminance_int(v, v, v) == v,
{
    assert(299 * v + 587 * v + 114 * v == 1000 * v);
    assert((1000 * v) / 1000 == v) by (nonlinear_arith)
        requires 0 <= v;
}

/// Computes the luminance of one pixel's colour channels.
pub fn luminance(r: u8, g: u8, b: u8) -> (grey: u8)
    ensures
        grey == luminance_int(r as int, g as int, b as int),
{
    let weighted: u32 = 299 * (r as u32) + 587 * (g as u32) + 114 * (b as u32);
    proof {
        lemma_luminance_in_range(r as int, g as int, b as int);
    }
    (weighted / 1000) as u8
}

} // verus!
