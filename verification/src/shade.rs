//! Darkening of packed ARGB colors.
//!
//! A brightness factor is a per-mille value: `1000` leaves a channel as it
//! is, `900` keeps nine tenths of it.  Each color channel is scaled by the
//! factor and clamped to the byte range; the alpha channel is kept.

use vstd::prelude::*;

verus! {

/// A channel value scaled by a per-mille factor and clamped to a byte.
pub open spec fn scale_spec(c: int, f: int) -> int {
    let v = c * f / 1000;
    if v < 0 {
        0
    } else if v > 255 {
        255
    } else {
        v
    }
}

/// The color with every channel scaled by the per-mille factor `f`; the
/// alpha channel is kept as it is.
pub open spec fn darken_spec(color: u32, f: int) -> u32 {
    let a = (color >> 24) & 0xFF;
    let r = (color >> 16) & 0xFF;
    let g = (color >> 8) & 0xFF;
    let b = color & 0xFF;
    let rd = scale_spec(r as int, f) as u32;
    let gd = scale_spec(g as int, f) as u32;
    let bd = scale_spec(b as int, f) as u32;
    (a << 24) | (rd << 16) | (gd << 8) | bd
}

/// Scales one channel value by a per-mille factor, clamping to a byte.
fn scale(c: u32, f: u32) -> (r: u32)
    requires
        c <= 255,
    ensures
        r == scale_spec(c as int, f as int),
{
    proof {
        assert((c as int) * (f as int) <= 255 * (u32::MAX as int)) by (nonlinear_arith)
            requires
                0 <= c as int <= 255,
                0 <= f as int <= u32::MAX as int,
        ;
    }
    let v: u64 = (c as u64) * (f as u64) / 1000;
    if v > 255 {
        255
    } else {
        v as u32
    }
}

/// Returns `color` with every channel scaled by the per-mille factor `f`;
/// the alpha channel is kept.
pub fn darken(color: u32, f: u32) -> (r: u32)
    ensures
        r == darken_spec(color, f as int),
{
    let a = (color >> 24) & 0xFF;
    let r0 = (color >> 16) & 0xFF;
    let g0 = (color >> 8) & 0xFF;
    let b0 = color & 0xFF;
    proof {
        assert((color >> 16) & 0xFF < 256) by (bit_vector);
        assert((color >> 8) & 0xFF < 256) by (bit_vector);
        assert(color & 0xFF < 256) by (bit_vector);
    }
    let rd = scale(r0, f);
    let gd = scale(g0, f);
    let bd = scale(b0, f);
    (a << 24) | (rd << 16) | (gd << 8) | bd
}

} // verus!
