//! The pixel buffer primitive: filling one tile-sized block of a row-major
//! ARGB buffer.
//!
//! A tile `(tx, ty)` owns the square of pixels whose columns are
//! `tx * TILE_PX .. (tx + 1) * TILE_PX` and rows likewise; a pixel's flat
//! index is `row * WIDTH_PX + column`.  Indices outside the buffer are
//! skipped, so drawing near or beyond the border quietly clips.

use vstd::prelude::*;
use crate::units::{PIXEL_COUNT, TILE_PX, WIDTH_PX};

verus! {

/// Whether flat index `k` is one of the pixels of tile `(tx, ty)`: the
/// index must lie in the fixed screen area, and writing `m` for its offset
/// from the tile's first pixel, the offset must decompose into a row and a
/// column below the tile's side.
pub open spec fn covered(tx: int, ty: int, k: int) -> bool {
    let m = k - ty * (TILE_PX as int) * (WIDTH_PX as int) - tx * (TILE_PX as int);
    &&& 0 <= k < PIXEL_COUNT as int
    &&& 0 <= m / (WIDTH_PX as int) < TILE_PX as int
    &&& m % (WIDTH_PX as int) < TILE_PX as int
}

/// The pixels of the block already written when the fill stands at row
/// `iy`, column `ix` of the tile: rows above `iy`, and the columns of row
/// `iy` before `ix`.
pub open spec fn covered_before(tx: int, ty: int, k: int, iy: int, ix: int) -> bool {
    let m = k - ty * (TILE_PX as int) * (WIDTH_PX as int) - tx * (TILE_PX as int);
    &&& covered(tx, ty, k)
    &&& (m / (WIDTH_PX as int) < iy || (m / (WIDTH_PX as int) == iy && m % (WIDTH_PX as int)
        < ix))
}

/// Fills the tile-sized pixel block of tile `(tx, ty)` with `color`,
/// skipping every index that falls outside the fixed screen area or beyond
/// the end of the buffer.
#[verifier::loop_isolation(false)]
pub fn fill_tile(buffer: &mut Vec<u32>, tx: i128, ty: i128, color: u32)
    requires
        -0x40_0000_0000_0000_0000 <= tx <= 0x40_0000_0000_0000_0000,
        -0x40_0000_0000_0000_0000 <= ty <= 0x40_0000_0000_0000_0000,
    ensures
        final(buffer)@.len() == old(buffer)@.len(),
        forall|k: int|
            0 <= k < old(buffer)@.len() ==> final(buffer)@[k] == (if covered(
                tx as int,
                ty as int,
                k,
            ) {
                color
            } else {
                old(buffer)@[k]
            }),
{
    let mut iy: i64 = 0;
    while iy < TILE_PX
        invariant
            0 <= iy <= TILE_PX,
            buffer@.len() == old(buffer)@.len(),
            forall|k: int|
                0 <= k < old(buffer)@.len() ==> buffer@[k] == (if covered_before(
                    tx as int,
                    ty as int,
                    k,
                    iy as int,
                    0,
                ) {
                    color
                } else {
                    old(buffer)@[k]
                }),
        decreases TILE_PX - iy,
    {
        let mut ix: i64 = 0;
        while ix < TILE_PX
            invariant
                0 <= ix <= TILE_PX,
                0 <= iy < TILE_PX,
                buffer@.len() == old(buffer)@.len(),
                forall|k: int|
                    0 <= k < old(buffer)@.len() ==> buffer@[k] == (if covered_before(
                        tx as int,
                        ty as int,
                        k,
                        iy as int,
                        ix as int,
                    ) {
                        color
                    } else {
                        old(buffer)@[k]
                    }),
            decreases TILE_PX - ix,
        {
            let idx: i128 = (ty * 64 + (iy as i128)) * 2240 + tx * 64 + (ix as i128);
            proof {
                vstd::arithmetic::div_mod::lemma_fundamental_div_mod_converse(
                    (iy as int) * (WIDTH_PX as int) + (ix as int),
                    WIDTH_PX as int,
                    iy as int,
                    ix as int,
                );
            }
            if 0 <= idx && idx < PIXEL_COUNT as i128 && idx < buffer.len() as i128 {
                buffer.set(idx as usize, color);
            }
            proof {
                broadcast use vstd::arithmetic::div_mod::lemma_fundamental_div_mod;
                broadcast use vstd::arithmetic::div_mod::lemma_mod_bound;

                assert forall|k: int| 0 <= k < old(buffer)@.len() implies buffer@[k] == (
                if covered_before(tx as int, ty as int, k, iy as int, ix as int + 1) {
                    color
                } else {
                    old(buffer)@[k]
                }) by {
                    let m = k - (ty as int) * (TILE_PX as int) * (WIDTH_PX as int) - (tx as int) * (
                    TILE_PX as int);
                    assert(m == (m / (WIDTH_PX as int)) * (WIDTH_PX as int) + m % (
                    WIDTH_PX as int));
                }
            }
            ix = ix + 1;
        }
        iy = iy + 1;
    }
}

} // verus!
