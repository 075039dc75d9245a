//! A first-person raycasting renderer core over a fixed 2D tile grid.
//!
//! All geometry is carried in fixed-point integers: positions and direction
//! vectors are scaled by [`FP`] (1024 units per tile), and angles are held in
//! half-degrees, so a full turn is 720 units and the keyboard rotation step of
//! 2.5 degrees is exactly 5 units.
use vstd::prelude::*;

pub mod angle;
pub mod camera;
pub mod color;
pub mod frame;
pub mod grid;
pub mod raycast;

verus! {

/// Fixed-point scale: number of sub-units per tile (and per unit direction).
pub const FP: i64 = 1024;

/// Half of [`FP`], used when rounding a fixed-point value to whole tiles.
pub const FP_HALF: i64 = 512;

/// Rounds a fixed-point value to the nearest whole number of tiles,
/// halves away from zero.
pub open spec fn round_fp_spec(d: int) -> int {
    if d >= 0 {
        (d + 512) / 1024
    } else {
        -(((-d) + 512) / 1024)
    }
}

/// Nearest-integer rounding of a fixed-point tile coordinate,
/// halves away from zero.
pub fn round_fp(d: i64) -> (r: i64)
    requires
        -0x4000_0000_0000 <= d <= 0x4000_0000_0000,
    ensures
        r == round_fp_spec(d as int),
{
    if d >= 0 {
        (d + FP_HALF) / FP
    } else {
        -(((-d) + FP_HALF) / FP)
    }
}

} // verus!
