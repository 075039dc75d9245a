//! Player state: position, facing angle, rotation and guarded movement.
//!
//! The position is a fixed-point tile coordinate (scale [`crate::FP`]).
//! The invariant is that a one-tile margin around the player stays strictly
//! inside the map interior; a move whose candidate position would break it
//! is rejected and the position is left unchanged.
use vstd::prelude::*;
use crate::angle::angle_wf;
use crate::angle::angle_norm;
use crate::angle::normalize_hd;
use crate::angle::sin_spec;
use crate::angle::cos_spec;
use crate::angle::sin_hd;
use crate::angle::cos_hd;
use crate::angle::lemma_sin_cos_not_both_zero;
use crate::grid::TileMap;
use crate::round_fp;
use crate::round_fp_spec;
use crate::FP;

verus! {

/// A position is in bounds when a one-tile margin around it stays strictly
/// inside the interior of the grid (never on or past the outer ring).
pub open spec fn pos_in_bounds(px: int, py: int, width: int, height: int) -> bool {
    &&& 1024 <= px
    &&& px + 1024 < (width - 1) * 1024
    &&& 1024 <= py
    &&& py + 1024 < (height - 1) * 1024
}

/// The out-of-bounds test the movement code commits moves against.
pub fn out_of_bounds(px: i64, py: i64, map: &TileMap) -> (r: bool)
    requires
        map.wf(),
        -0x4000_0000_0000_0000 < px < 0x4000_0000_0000_0000,
        -0x4000_0000_0000_0000 < py < 0x4000_0000_0000_0000,
    ensures
        r == !pos_in_bounds(px as int, py as int, map.width as int, map.height as int),
{
    let w: i64 = map.width as i64;
    let h: i64 = map.height as i64;
    !(FP <= px && px + FP < (w - 1) * FP && FP <= py && py + FP < (h - 1) * FP)
}

/// The player camera: fixed-point position and a normalized facing angle in
/// half-degrees.
pub struct Camera {
    /// Fixed-point x coordinate, in tile units scaled by [`crate::FP`].
    pub pos_x: i64,
    /// Fixed-point y coordinate, in tile units scaled by [`crate::FP`].
    pub pos_y: i64,
    /// Facing angle in half-degrees, normalized to `(-360, 360]`.
    pub angle: i32,
}

impl Camera {
    /// Camera invariant against a map: normalized angle, position with its
    /// safety margin inside the interior.
    pub open spec fn wf(self, map: TileMap) -> bool {
        &&& angle_wf(self.angle as int)
        &&& pos_in_bounds(self.pos_x as int, self.pos_y as int, map.width as int, map.height as int)
    }

    /// Places a camera, accepting exactly the positions and angles that
    /// satisfy the invariant.
    pub fn place(map: &TileMap, pos_x: i64, pos_y: i64, angle: i32) -> (r: Option<Camera>)
        requires
            map.wf(),
            -0x4000_0000_0000_0000 < pos_x < 0x4000_0000_0000_0000,
            -0x4000_0000_0000_0000 < pos_y < 0x4000_0000_0000_0000,
        ensures
            r == if (Camera { pos_x, pos_y, angle }).wf(*map) {
                Some((Camera { pos_x, pos_y, angle }))
            } else {
                None::<Camera>
            },
    {
        if !(-360 < angle && angle <= 360) {
            return None;
        }
        if out_of_bounds(pos_x, pos_y, map) {
            return None;
        }
        Some(Camera { pos_x, pos_y, angle })
    }

    /// Turns by `delta` half-degrees: the stored angle decreases by `delta`
    /// (the key handlers pass a positive step to turn right) and is then
    /// renormalized, so it always lands back in `(-360, 360]`, whatever the
    /// starting angle and step.
    pub fn rotate(&mut self, delta: i32)
        ensures
            final(self).angle == angle_norm(old(self).angle - delta),
            angle_wf(final(self).angle as int),
            final(self).pos_x == old(self).pos_x,
            final(self).pos_y == old(self).pos_y,
    {
        self.angle = normalize_hd(self.angle as i64 - delta as i64);
    }

    /// The facing direction as a fixed-point vector. Angle zero faces the
    /// negative x axis; the components are `(-cos, -sin)` of the angle.
    pub fn facing_dir(&self) -> (d: (i64, i64))
        requires
            angle_wf(self.angle as int),
        ensures
            d.0 == -cos_spec(self.angle as int),
            d.1 == -sin_spec(self.angle as int),
            -1024 <= d.0 <= 1024,
            -1024 <= d.1 <= 1024,
            !(d.0 == 0 && d.1 == 0),
    {
        proof {
            lemma_sin_cos_not_both_zero(self.angle as int);
        }
        let c: i64 = cos_hd(self.angle);
        let s: i64 = sin_hd(self.angle);
        (-c, -s)
    }

    /// Moves one rounded step of `dir` forward or backward. The move commits
    /// only when the candidate position, expanded by the one-tile safety
    /// margin, stays strictly inside the map interior; otherwise the
    /// position is unchanged.
    pub fn try_move(&mut self, dir_x: i64, dir_y: i64, forward: bool, map: &TileMap)
        requires
            map.wf(),
            -2048 <= dir_x <= 2048,
            -2048 <= dir_y <= 2048,
            old(self).wf(*map),
        ensures
            final(self).angle == old(self).angle,
            final(self).wf(*map),
            ({
                let cx = if forward {
                    old(self).pos_x + round_fp_spec(dir_x as int) * 1024
                } else {
                    old(self).pos_x - round_fp_spec(dir_x as int) * 1024
                };
                let cy = if forward {
                    old(self).pos_y + round_fp_spec(dir_y as int) * 1024
                } else {
                    old(self).pos_y - round_fp_spec(dir_y as int) * 1024
                };
                if pos_in_bounds(cx, cy, map.width as int, map.height as int) {
                    final(self).pos_x == cx && final(self).pos_y == cy
                } else {
                    final(self).pos_x == old(self).pos_x && final(self).pos_y == old(self).pos_y
                }
            }),
    {
        let step_x: i64 = round_fp(dir_x) * FP;
        let step_y: i64 = round_fp(dir_y) * FP;
        let cand_x: i64 = if forward {
            self.pos_x + step_x
        } else {
            self.pos_x - step_x
        };
        let cand_y: i64 = if forward {
            self.pos_y + step_y
        } else {
            self.pos_y - step_y
        };
        if !out_of_bounds(cand_x, cand_y, map) {
            self.pos_x = cand_x;
            self.pos_y = cand_y;
        }
    }
}

/// One discrete input event, already reduced to plain values by the
/// surrounding input layer.
pub enum InputEvent {
    /// The window was asked to close.
    Quit,
    /// The escape key: ends the session.
    PressEscape,
    /// Turn right by the fixed key step (2.5 degrees).
    TurnRight,
    /// Turn left by the fixed key step (2.5 degrees).
    TurnLeft,
    /// Step forward along the rounded facing vector.
    StepForward,
    /// Step backward along the rounded facing vector.
    StepBackward,
    /// Relative mouse motion: rotates by half the reported count in degrees,
    /// which is exactly the count in half-degrees.
    MouseTurn(i32),
    /// Any other event: ignored.
    Other,
}

/// Half-degrees of one keyboard rotation step (2.5 degrees).
pub const KEY_TURN_STEP: i32 = 5;

/// Applies one input event to the camera and says whether the session
/// should end.
pub fn apply_event(cam: &mut Camera, ev: &InputEvent, map: &TileMap) -> (quit: bool)
    requires
        map.wf(),
        old(cam).wf(*map),
    ensures
        final(cam).wf(*map),
        match *ev {
            InputEvent::Quit => quit && *final(cam) == *old(cam),
            InputEvent::PressEscape => quit && *final(cam) == *old(cam),
            InputEvent::TurnRight => !quit && final(cam).angle == angle_norm(
                old(cam).angle - 5,
            ) && final(cam).pos_x == old(cam).pos_x && final(cam).pos_y == old(cam).pos_y,
            InputEvent::TurnLeft => !quit && final(cam).angle == angle_norm(old(cam).angle + 5)
                && final(cam).pos_x == old(cam).pos_x && final(cam).pos_y == old(cam).pos_y,
            InputEvent::MouseTurn(xrel) => !quit && final(cam).angle == angle_norm(
                old(cam).angle - xrel,
            ) && final(cam).pos_x == old(cam).pos_x && final(cam).pos_y == old(cam).pos_y,
            InputEvent::StepForward => !quit && final(cam).angle == old(cam).angle && ({
                let cx = old(cam).pos_x + round_fp_spec(-cos_spec(old(cam).angle as int)) * 1024;
                let cy = old(cam).pos_y + round_fp_spec(-sin_spec(old(cam).angle as int)) * 1024;
                if pos_in_bounds(cx, cy, map.width as int, map.height as int) {
                    final(cam).pos_x == cx && final(cam).pos_y == cy
                } else {
                    final(cam).pos_x == old(cam).pos_x && final(cam).pos_y == old(cam).pos_y
                }
            }),
            InputEvent::StepBackward => !quit && final(cam).angle == old(cam).angle && ({
                let cx = old(cam).pos_x - round_fp_spec(-cos_spec(old(cam).angle as int)) * 1024;
                let cy = old(cam).pos_y - round_fp_spec(-sin_spec(old(cam).angle as int)) * 1024;
                if pos_in_bounds(cx, cy, map.width as int, map.height as int) {
                    final(cam).pos_x == cx && final(cam).pos_y == cy
                } else {
                    final(cam).pos_x == old(cam).pos_x && final(cam).pos_y == old(cam).pos_y
                }
            }),
            InputEvent::Other => !quit && *final(cam) == *old(cam),
        },
{
    match ev {
        InputEvent::Quit => true,
        InputEvent::PressEscape => true,
        InputEvent::TurnRight => {
            cam.rotate(KEY_TURN_STEP);
            false
        },
        InputEvent::TurnLeft => {
            cam.rotate(-KEY_TURN_STEP);
            false
        },
        InputEvent::MouseTurn(xrel) => {
            cam.rotate(*xrel);
            false
        },
        InputEvent::StepForward => {
            let d = cam.facing_dir();
            cam.try_move(d.0, d.1, true, map);
            false
        },
        InputEvent::StepBackward => {
            let d = cam.facing_dir();
            cam.try_move(d.0, d.1, false, map);
            false
        },
        InputEvent::Other => false,
    }
}

} // verus!
