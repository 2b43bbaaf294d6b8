//! Fixed-point coordinate system and the grid's dimensions.
//!
//! A coordinate is an `i64` number of *units*; one pixel is `UNITS_PER_PX`
//! units and one square tile has a side of `TILE_PX` pixels, so a tile spans
//! `TILE_UNITS` units.  Tile indices are obtained by dividing a coordinate by
//! `TILE_UNITS` and truncating toward zero, which mirrors how a continuous
//! coordinate is quantized by casting the quotient to an integer.

use vstd::prelude::*;

verus! {

/// Number of tile columns in the grid.
pub const GRID_W: i64 = 35;
/// Number of tile rows in the grid.
pub const GRID_H: i64 = 20;
/// Number of cells in the grid.
pub const CELL_COUNT: usize = 700;
/// Side of a tile, in pixels.
pub const TILE_PX: i64 = 64;
/// Sub-pixel resolution: units per pixel.
pub const UNITS_PER_PX: i64 = 1000;
/// Side of a tile, in units.
pub const TILE_UNITS: i64 = 64000;
/// Width of the pixel buffer, in pixels.
pub const WIDTH_PX: i64 = 2240;
/// Height of the pixel buffer, in pixels.
pub const HEIGHT_PX: i64 = 1280;
/// Number of pixels of the fixed screen area.
pub const PIXEL_COUNT: i64 = 2240 * 1280;
/// Largest head displacement a single update step may apply, in units: one
/// tile.  This is the integer movement model's step bound — a driver turns
/// elapsed time into a step and clamps it to this cap, so a frame longer
/// than the cap's worth of travel advances the head by at most one tile
/// instead of jumping several.
pub const MAX_STEP: i64 = 64000;
/// Movement speed, in units per second; the caller turns elapsed time into a
/// step of `SPEED_UNITS * dt` units.
pub const SPEED_UNITS: i64 = 250000;

/// The tile index holding the coordinate `x`: the quotient by `TILE_UNITS`,
/// truncated toward zero.
pub open spec fn tile_spec(x: int) -> int {
    if x >= 0 {
        x / (TILE_UNITS as int)
    } else {
        -((-x) / (TILE_UNITS as int))
    }
}

/// Coordinates on which `tile_of` may be called; wide enough for every
/// position the simulation can reach.
pub open spec fn coord_in_range(x: int) -> bool {
    -0x4000_0000_0000 <= x <= 0x4000_0000_0000
}

/// Computes the tile index of a coordinate, truncating toward zero.
pub fn tile_of(x: i64) -> (t: i64)
    requires
        coord_in_range(x as int),
    ensures
        t == tile_spec(x as int),
{
    if x >= 0 {
        ((x as u64) / (TILE_UNITS as u64)) as i64
    } else {
        let m = -x;
        -(((m as u64) / (TILE_UNITS as u64)) as i64)
    }
}

/// A nonnegative coordinate sits in tile `t` exactly when it lies in the
/// half-open span `[t * TILE_UNITS, (t + 1) * TILE_UNITS)`; for negative
/// coordinates the span is mirrored.  This pins the coordinate range that a
/// tile bound implies.
pub proof fn lemma_tile_bounds(x: int)
    ensures
        x >= 0 ==> tile_spec(x) * (TILE_UNITS as int) <= x < (tile_spec(x) + 1) * (
        TILE_UNITS as int),
        x < 0 ==> tile_spec(x) * (TILE_UNITS as int) - (TILE_UNITS as int) < x <= tile_spec(x) * (
        TILE_UNITS as int),
{
    let d = TILE_UNITS as int;
    if x >= 0 {
        vstd::arithmetic::div_mod::lemma_fundamental_div_mod(x, d);
        vstd::arithmetic::div_mod::lemma_mod_bound(x, d);
        assert(x == d * (x / d) + x % d);
    } else {
        vstd::arithmetic::div_mod::lemma_fundamental_div_mod(-x, d);
        vstd::arithmetic::div_mod::lemma_mod_bound(-x, d);
        assert(-x == d * ((-x) / d) + (-x) % d);
    }
}

} // verus!
