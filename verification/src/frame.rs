//! Composing one frame: a colored wall band per screen column.
use vstd::prelude::*;
use crate::camera::Camera;
use crate::color::column_color;
use crate::grid::TileMap;
use crate::raycast::cast;

verus! {

/// One vertical line to draw: its column, ARGB color, and the band's first
/// row and height.
pub struct ColumnDraw {
    /// Screen column.
    pub x: usize,
    /// ARGB color for the whole band.
    pub color: u32,
    /// First screen row of the band.
    pub start_y: u32,
    /// Band height in pixels.
    pub length: u32,
}

/// Renders one frame: casts a ray for each screen column left to right,
/// maps each hit to its color, and returns one band per column. Every band
/// that fits on screen is centered on the screen midline.
#[verifier::loop_isolation(false)]
pub fn render_frame(map: &TileMap, cam: &Camera, fov: i32, screen_w: usize, screen_h: u32) -> (v:
    Vec<ColumnDraw>)
    requires
        map.wf(),
        cam.wf(*map),
        0 <= fov <= 360,
        1 <= screen_w <= 4096,
        1 <= screen_h <= 4096,
    ensures
        v@.len() == screen_w,
        forall|k: int| 0 <= k < screen_w ==> (#[trigger] v@[k]).x == k,
        forall|k: int|
            0 <= k < screen_w ==> ((#[trigger] v@[k]).length <= screen_h ==> v@[k].start_y
                + v@[k].length / 2 == screen_h / 2),
{
    let d = cam.facing_dir();
    let mut v: Vec<ColumnDraw> = Vec::new();
    let mut x: usize = 0;
    while x < screen_w
        invariant
            v@.len() == x,
            x <= screen_w,
            forall|k: int| 0 <= k < x ==> (#[trigger] v@[k]).x == k,
            forall|k: int|
                0 <= k < x ==> ((#[trigger] v@[k]).length <= screen_h ==> v@[k].start_y
                    + v@[k].length / 2 == screen_h / 2),
        decreases screen_w - x,
    {
        let c = cast(x, map, cam.pos_x, cam.pos_y, d.0, d.1, fov, screen_w, screen_h);
        let col: u32 = column_color(c.hit_val, c.side);
        v.push(ColumnDraw { x, color: col, start_y: c.start_y, length: c.length });
        x = x + 1;
    }
    v
}

} // verus!
