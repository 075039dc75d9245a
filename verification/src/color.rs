//! Mapping tile codes to column colors.
//!
//! Tile code 1 draws opaque red, 2 opaque blue, anything else transparent
//! black. A hit on a horizontal grid line is darkened to three quarters
//! per color channel with the alpha forced opaque, to fake directional
//! shading.
use vstd::prelude::*;

verus! {

/// The base ARGB color of a tile code.
pub open spec fn base_color_spec(hit_val: u8) -> u32 {
    if hit_val == 1 {
        0xFFFF0000u32
    } else if hit_val == 2 {
        0xFF0000FFu32
    } else {
        0u32
    }
}

/// The color one column is drawn with: the tile's base color, darkened to
/// three quarters per channel (alpha kept opaque) when the hit crossed a
/// horizontal grid line.
pub fn column_color(hit_val: u8, side: i32) -> (r: u32)
    ensures
        side != 1 ==> r == base_color_spec(hit_val),
        side == 1 && hit_val == 1 ==> r == 0xFFBF0000u32,
        side == 1 && hit_val == 2 ==> r == 0xFF0000BFu32,
        side == 1 && hit_val != 1 && hit_val != 2 ==> r == 0xFF000000u32,
{
    let rgb: u32 = if hit_val == 1 {
        0xFFFF0000
    } else if hit_val == 2 {
        0xFF0000FF
    } else {
        0x000000
    };
    if side == 1 {
        proof {
            assert((rgb & 0xFF00FFu32) <= 0xFF00FFu32) by (bit_vector);
            assert((rgb & 0x00FF00u32) <= 0x00FF00u32) by (bit_vector);
        }
        let dark: u32 = 0xFF000000 | ((((rgb & 0xFF00FF) * 0xC0) >> 8) & 0xFF00FF) | ((((rgb
            & 0x00FF00) * 0xC0) >> 8) & 0x00FF00);
        proof {
            assert(rgb == 0xFFFF0000u32 ==> (0xFF000000u32 | (((((rgb & 0xFF00FFu32) * 0xC0u32)
                as u32 >> 8u32) as u32) & 0xFF00FFu32) | (((((rgb & 0x00FF00u32) * 0xC0u32) as u32
                >> 8u32) as u32) & 0x00FF00u32)) == 0xFFBF0000u32) by (bit_vector);
            assert(rgb == 0xFF0000FFu32 ==> (0xFF000000u32 | (((((rgb & 0xFF00FFu32) * 0xC0u32)
                as u32 >> 8u32) as u32) & 0xFF00FFu32) | (((((rgb & 0x00FF00u32) * 0xC0u32) as u32
                >> 8u32) as u32) & 0x00FF00u32)) == 0xFF0000BFu32) by (bit_vector);
            assert(rgb == 0u32 ==> (0xFF000000u32 | (((((rgb & 0xFF00FFu32) * 0xC0u32) as u32
                >> 8u32) as u32) & 0xFF00FFu32) | (((((rgb & 0x00FF00u32) * 0xC0u32) as u32
                >> 8u32) as u32) & 0x00FF00u32)) == 0xFF000000u32) by (bit_vector);
        }
        dark
    } else {
        rgb
    }
}

} // verus!
