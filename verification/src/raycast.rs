//! The ray caster: grid traversal and projection to screen columns.
//!
//! One ray per screen column is rotated away from the camera direction by
//! the column's share of the field of view, marched cell by cell through
//! the grid along whichever axis reaches its next grid line soonest, and
//! the perpendicular distance of the first solid tile struck is projected
//! to a vertical wall slice.
use vstd::prelude::*;
use vstd::arithmetic::div_mod::lemma_fundamental_div_mod;
use vstd::arithmetic::div_mod::lemma_fundamental_div_mod_converse;
use vstd::arithmetic::div_mod::lemma_div_is_ordered;
use vstd::arithmetic::div_mod::lemma_div_multiples_vanish;
use crate::angle::angle_norm;
use crate::angle::sin_spec;
use crate::angle::cos_spec;
use crate::angle::sin_hd;
use crate::angle::cos_hd;
use crate::angle::normalize_hd;
use crate::angle::lemma_angle_norm_fixed;
use crate::camera::pos_in_bounds;
use crate::grid::TileMap;
use crate::FP;

verus! {

/// Sentinel distance standing for infinity: an axis the ray never crosses.
pub const INF_DIST: i64 = 0x4000_0000_0000;

/// Division truncating toward zero, as machine division does.
pub open spec fn tdiv(a: int, b: int) -> int
    recommends
        b > 0,
{
    if a >= 0 {
        a / b
    } else {
        -((-a) / b)
    }
}

/// Division truncating toward zero on machine integers.
fn div_trunc(a: i64, b: i64) -> (r: i64)
    requires
        b > 0,
        -0x4000_0000_0000_0000 < a < 0x4000_0000_0000_0000,
    ensures
        r == tdiv(a as int, b as int),
{
    if a >= 0 {
        a / b
    } else {
        -((-a) / b)
    }
}

/// Integer square root: the greatest `r` with `r * r <= n`.
pub fn isqrt(n: u64) -> (r: u64)
    requires
        n <= 0x1_0000_0000,
    ensures
        r * r <= n,
        n < (r + 1) * (r + 1),
{
    let mut r: u64 = 0;
    let mut done: bool = false;
    while !done
        invariant
            r * r <= n <= 0x1_0000_0000,
            r <= 0x1_0000,
            done ==> n < (r + 1) * (r + 1),
        decreases n - r * r + (if done {
            0int
        } else {
            1int
        }),
    {
        proof {
            assert((r + 1) * (r + 1) <= 0x1_0002_0001) by (nonlinear_arith)
                requires
                    r <= 0x1_0000,
            ;
        }
        let sq: u64 = (r + 1) * (r + 1);
        if sq <= n {
            proof {
                assert(r < 0x1_0000) by (nonlinear_arith)
                    requires
                        (r + 1) * (r + 1) <= n,
                        n <= 0x1_0000_0000,
                        r <= 0x1_0000,
                ;
                assert(r * r < (r + 1) * (r + 1)) by (nonlinear_arith);
            }
            r = r + 1;
        } else {
            done = true;
        }
    }
    r
}

/// The angular offset of screen column `x`: columns sweep from `+fov/2` on
/// the left edge down to `-fov/2` on the right, normalized as an angle.
pub open spec fn column_offset_spec(fov: int, x: int, width: int) -> int
    recommends
        0 <= fov,
        0 < width,
{
    angle_norm(fov / 2 - (x * fov) / width)
}

/// The camera direction rotated by offset `o`: x component.
pub open spec fn rotate_x_spec(dx: int, dy: int, o: int) -> int {
    tdiv(dx * cos_spec(o) - dy * sin_spec(o), 1024)
}

/// The camera direction rotated by offset `o`: y component.
pub open spec fn rotate_y_spec(dx: int, dy: int, o: int) -> int {
    tdiv(dx * sin_spec(o) + dy * cos_spec(o), 1024)
}

/// The fixed-point ray direction for screen column `x`: the camera
/// direction swung by this column's share of the field of view. A zero
/// field of view leaves every column's ray equal to the camera direction.
/// In the degenerate case where both rotated components truncate to zero,
/// the camera direction itself is returned, so the ray is never null.
pub fn column_ray_dir(dir_x: i64, dir_y: i64, fov: i32, x: usize, width: usize) -> (r: (i64, i64))
    requires
        -1024 <= dir_x <= 1024,
        -1024 <= dir_y <= 1024,
        !(dir_x == 0 && dir_y == 0),
        0 <= fov <= 360,
        1 <= width <= 4096,
        x <= width,
    ensures
        ({
            let o = column_offset_spec(fov as int, x as int, width as int);
            let rx = rotate_x_spec(dir_x as int, dir_y as int, o);
            let ry = rotate_y_spec(dir_x as int, dir_y as int, o);
            if rx == 0 && ry == 0 {
                r.0 == dir_x && r.1 == dir_y
            } else {
                r.0 == rx && r.1 == ry
            }
        }),
        fov == 0 ==> r.0 == dir_x && r.1 == dir_y,
        !(r.0 == 0 && r.1 == 0),
        -2048 <= r.0 <= 2048,
        -2048 <= r.1 <= 2048,
{
    proof {
        assert(0 <= (x as int) * (fov as int) <= (width as int) * 360 && (width as int) * 360
            <= 4096 * 360) by (nonlinear_arith)
            requires
                0 <= x <= width,
                0 <= fov <= 360,
                width <= 4096,
        ;
    }
    let xf: i64 = (x as i64) * (fov as i64);
    let t: i64 = xf / (width as i64);
    proof {
        lemma_div_is_ordered(0, xf as int, width as int);
        lemma_div_is_ordered(xf as int, (width as int) * 360, width as int);
        lemma_div_multiples_vanish(360, width as int);
        assert(0 <= t <= 360);
    }
    let o: i32 = normalize_hd((fov / 2) as i64 - t);
    let c: i64 = cos_hd(o);
    let s: i64 = sin_hd(o);
    proof {
        assert(-1024 * 1024 <= dir_x * c <= 1024 * 1024) by (nonlinear_arith)
            requires
                -1024 <= dir_x <= 1024,
                -1024 <= c <= 1024,
        ;
        assert(-1024 * 1024 <= dir_y * s <= 1024 * 1024) by (nonlinear_arith)
            requires
                -1024 <= dir_y <= 1024,
                -1024 <= s <= 1024,
        ;
        assert(-1024 * 1024 <= dir_x * s <= 1024 * 1024) by (nonlinear_arith)
            requires
                -1024 <= dir_x <= 1024,
                -1024 <= s <= 1024,
        ;
        assert(-1024 * 1024 <= dir_y * c <= 1024 * 1024) by (nonlinear_arith)
            requires
                -1024 <= dir_y <= 1024,
                -1024 <= c <= 1024,
        ;
    }
    let num_x: i64 = dir_x * c - dir_y * s;
    let num_y: i64 = dir_x * s + dir_y * c;
    let rx: i64 = div_trunc(num_x, FP);
    let ry: i64 = div_trunc(num_y, FP);
    proof {
        lemma_tdiv_bound(num_x as int, 1024, 2048);
        lemma_tdiv_bound(num_y as int, 1024, 2048);
        if fov == 0 {
            assert(column_offset_spec(0, x as int, width as int) == angle_norm(0 - (x as int * 0)
                / (width as int)));
            assert((x as int * 0) / (width as int) == 0) by {
                assert(x as int * 0 == 0) by (nonlinear_arith);
            }
            lemma_angle_norm_fixed(0);
            assert(o == 0);
            assert(cos_spec(0) == 1024 && sin_spec(0) == 0) by {
                crate::angle::lemma_sin_pos_bounds(180);
                crate::angle::lemma_sin_pos_bounds(0);
                vstd::arithmetic::div_mod::lemma_small_mod(180nat, 720nat);
            }
            assert(num_x == dir_x * 1024 && num_y == dir_y * 1024) by (nonlinear_arith)
                requires
                    num_x == dir_x * c - dir_y * s,
                    num_y == dir_x * s + dir_y * c,
                    c == 1024,
                    s == 0,
            ;
            lemma_tdiv_exact(dir_x as int);
            lemma_tdiv_exact(dir_y as int);
        }
    }
    if rx == 0 && ry == 0 {
        (dir_x, dir_y)
    } else {
        (rx, ry)
    }
}

/// Truncating division by a positive divisor keeps a symmetric bound.
proof fn lemma_tdiv_bound(a: int, b: int, m: int)
    requires
        0 < b,
        0 <= m,
        -(b * m) <= a <= b * m,
    ensures
        -m <= tdiv(a, b) <= m,
{
    if a >= 0 {
        lemma_div_is_ordered(a, b * m, b);
        lemma_div_multiples_vanish(m, b);
        assert(b * m == m * b) by (nonlinear_arith);
        lemma_div_is_ordered(0, a, b);
    } else {
        lemma_div_is_ordered(-a, b * m, b);
        lemma_div_multiples_vanish(m, b);
        assert(b * m == m * b) by (nonlinear_arith);
        lemma_div_is_ordered(0, -a, b);
    }
}

/// Truncating division is exact on whole multiples of `1024`.
proof fn lemma_tdiv_exact(d: int)
    ensures
        tdiv(d * 1024, 1024) == d,
{
    if d >= 0 {
        lemma_div_multiples_vanish(d, 1024);
        assert(d * 1024 == 1024 * d) by (nonlinear_arith);
    } else {
        lemma_div_multiples_vanish(-d, 1024);
        assert(-(d * 1024) == 1024 * (-d)) by (nonlinear_arith);
    }
}

/// The outcome of marching one ray: perpendicular distance to the crossed
/// grid line (fixed-point), which grid-line family was crossed last
/// (`side` 0: vertical, stepping in x; 1: horizontal, stepping in y), and
/// the tile code struck.
pub struct RayHit {
    /// Perpendicular distance from the camera to the wall, scaled by
    /// [`crate::FP`].
    pub perp_dist: i64,
    /// 0 when the final step crossed a vertical grid line, 1 when
    /// horizontal.
    pub side: i32,
    /// The nonzero tile code of the cell that was struck.
    pub hit_val: u8,
    /// Column of the cell that was struck.
    pub hit_x: i64,
    /// Row of the cell that was struck.
    pub hit_y: i64,
}

/// Marches a ray from `pos` along `ray` through the grid, cell by cell,
/// until a solid tile is struck; the closed border guarantees a hit.
#[verifier::loop_isolation(false)]
#[verifier::rlimit(60)]
pub fn cast_ray(map: &TileMap, pos_x: i64, pos_y: i64, ray_x: i64, ray_y: i64) -> (hit: RayHit)
    requires
        map.wf(),
        pos_in_bounds(pos_x as int, pos_y as int, map.width as int, map.height as int),
        -2048 <= ray_x <= 2048,
        -2048 <= ray_y <= 2048,
        !(ray_x == 0 && ray_y == 0),
    ensures
        hit.side == 0 || hit.side == 1,
        hit.hit_val != 0,
        0 <= hit.hit_x < map.width,
        0 <= hit.hit_y < map.height,
        map.tile_at(hit.hit_x as int, hit.hit_y as int) == hit.hit_val,
        0 <= hit.perp_dist <= 0xFFFF_FFFF,
        ray_x == 0 ==> hit.side == 1 && hit.hit_x == pos_x / 1024,
        ray_y == 0 ==> hit.side == 0 && hit.hit_y == pos_y / 1024,
        ray_x > 0 ==> hit.hit_x >= pos_x / 1024,
        ray_x < 0 ==> hit.hit_x <= pos_x / 1024,
        ray_y > 0 ==> hit.hit_y >= pos_y / 1024,
        ray_y < 0 ==> hit.hit_y <= pos_y / 1024,
        !(hit.hit_x == pos_x / 1024 && hit.hit_y == pos_y / 1024),
        ray_y == 0 && ray_x < 0 ==> hit.perp_dist == pos_x - (hit.hit_x + 1) * 1024,
        ray_y == 0 && ray_x > 0 ==> hit.perp_dist == hit.hit_x * 1024 - pos_x,
        ray_x == 0 && ray_y < 0 ==> hit.perp_dist == pos_y - (hit.hit_y + 1) * 1024,
        ray_x == 0 && ray_y > 0 ==> hit.perp_dist == hit.hit_y * 1024 - pos_y,
        ray_y == 0 ==> forall|c: int|
            (if ray_x < 0 {
                hit.hit_x < c < pos_x / 1024
            } else {
                pos_x / 1024 < c < hit.hit_x
            }) ==> #[trigger] map.tile_at(c, pos_y / 1024) == 0,
        ray_x == 0 ==> forall|c: int|
            (if ray_y < 0 {
                hit.hit_y < c < pos_y / 1024
            } else {
                pos_y / 1024 < c < hit.hit_y
            }) ==> #[trigger] map.tile_at(pos_x / 1024, c) == 0,
{
    let w: i64 = map.width as i64;
    let h: i64 = map.height as i64;
    let mut cell_x: i64 = pos_x / FP;
    let mut cell_y: i64 = pos_y / FP;
    proof {
        lemma_cell_of_pos(pos_x as int, w as int);
        lemma_cell_of_pos(pos_y as int, h as int);
    }
    proof {
        assert(0 <= ray_x * ray_x <= 2048 * 2048 && 0 <= ray_y * ray_y <= 2048 * 2048)
            by (nonlinear_arith)
            requires
                -2048 <= ray_x <= 2048,
                -2048 <= ray_y <= 2048,
        ;
        assert(ray_x * ray_x >= 1 || ray_y * ray_y >= 1) by (nonlinear_arith)
            requires
                !(ray_x == 0 && ray_y == 0),
        ;
    }
    let n: u64 = (ray_x * ray_x + ray_y * ray_y) as u64;
    let rr: u64 = isqrt(n);
    proof {
        assert(1 <= rr <= 2896) by (nonlinear_arith)
            requires
                rr * rr <= n,
                n < (rr + 1) * (rr + 1),
                1 <= n <= 2 * 2048 * 2048,
        ;
    }
    let len: i64 = rr as i64;
    let step_x: i64;
    let delta_x: i64;
    let init_x: i64;
    if ray_x == 0 {
        step_x = 1;
        delta_x = INF_DIST;
        init_x = INF_DIST;
    } else {
        let ax: i64 = if ray_x < 0 {
            -ray_x
        } else {
            ray_x
        };
        proof {
            lemma_component_below_len(ax as int, ray_x as int, ray_y as int, len as int, n as int);
            lemma_delta_bounds(len as int, ax as int);
        }
        delta_x = (len * FP) / ax;
        let frac_x: i64 = if ray_x < 0 {
            pos_x - cell_x * FP
        } else {
            cell_x * FP + FP - pos_x
        };
        proof {
            lemma_init_bounds(frac_x as int, delta_x as int);
        }
        init_x = (frac_x * delta_x) / FP;
        step_x = if ray_x < 0 {
            -1
        } else {
            1
        };
        proof {
            if ray_y == 0 {
                assert((n as int) == (ray_x as int) * (ray_x as int)) by (nonlinear_arith)
                    requires
                        n == ray_x * ray_x + ray_y * ray_y,
                        ray_y == 0,
                ;
                lemma_axis_aligned_exact(
                    ray_x as int,
                    ax as int,
                    n as int,
                    rr as int,
                    frac_x as int,
                    delta_x as int,
                    init_x as int,
                );
            }
        }
    }
    let step_y: i64;
    let delta_y: i64;
    let init_y: i64;
    if ray_y == 0 {
        step_y = 1;
        delta_y = INF_DIST;
        init_y = INF_DIST;
    } else {
        let ay: i64 = if ray_y < 0 {
            -ray_y
        } else {
            ray_y
        };
        proof {
            lemma_component_below_len(ay as int, ray_y as int, ray_x as int, len as int, n as int);
            lemma_delta_bounds(len as int, ay as int);
        }
        delta_y = (len * FP) / ay;
        let frac_y: i64 = if ray_y < 0 {
            pos_y - cell_y * FP
        } else {
            cell_y * FP + FP - pos_y
        };
        proof {
            lemma_init_bounds(frac_y as int, delta_y as int);
        }
        init_y = (frac_y * delta_y) / FP;
        step_y = if ray_y < 0 {
            -1
        } else {
            1
        };
        proof {
            if ray_x == 0 {
                assert((n as int) == (ray_y as int) * (ray_y as int)) by (nonlinear_arith)
                    requires
                        n == ray_x * ray_x + ray_y * ray_y,
                        ray_x == 0,
                ;
                lemma_axis_aligned_exact(
                    ray_y as int,
                    ay as int,
                    n as int,
                    rr as int,
                    frac_y as int,
                    delta_y as int,
                    init_y as int,
                );
            }
        }
    }
    let mut sd_x: i64 = init_x;
    let mut sd_y: i64 = init_y;
    let ghost cx0 = cell_x;
    let ghost cy0 = cell_y;
    let mut side: i32 = 0;
    let mut hit_found: bool = false;
    let mut hit_val: u8 = 0;
    let mut perp: i64 = 0;
    while !hit_found
        invariant
            !hit_found ==> 1 <= cell_x <= w - 2 && 1 <= cell_y <= h - 2,
            0 <= cell_x <= w - 1,
            0 <= cell_y <= h - 1,
            ray_x == 0 ==> sd_x == INF_DIST && cell_x == cx0,
            ray_x != 0 ==> 0 <= (cell_x - cx0) * step_x <= 1024 && sd_x == init_x + delta_x * ((
            cell_x - cx0) * step_x),
            ray_y == 0 ==> sd_y == INF_DIST && cell_y == cy0,
            ray_y != 0 ==> 0 <= (cell_y - cy0) * step_y <= 1024 && sd_y == init_y + delta_y * ((
            cell_y - cy0) * step_y),
            hit_found ==> (side == 0 || side == 1) && hit_val != 0 && 0 <= perp <= 0xFFFF_FFFF,
            hit_found ==> cell_x < w && cell_y < h && map.tile_at(cell_x as int, cell_y as int)
                == hit_val,
            hit_found ==> (cell_x != cx0 || cell_y != cy0),
            hit_found && side == 0 ==> ray_x != 0 && perp == sd_x - delta_x,
            hit_found && side == 1 ==> ray_y != 0 && perp == sd_y - delta_y,
            ray_y == 0 && !hit_found ==> forall|c: int|
                (if ray_x < 0 {
                    cell_x <= c < cx0
                } else {
                    cx0 < c <= cell_x
                }) ==> #[trigger] map.tile_at(c, cy0 as int) == 0,
            ray_y == 0 && hit_found ==> forall|c: int|
                (if ray_x < 0 {
                    cell_x < c < cx0
                } else {
                    cx0 < c < cell_x
                }) ==> #[trigger] map.tile_at(c, cy0 as int) == 0,
            ray_x == 0 && !hit_found ==> forall|c: int|
                (if ray_y < 0 {
                    cell_y <= c < cy0
                } else {
                    cy0 < c <= cell_y
                }) ==> #[trigger] map.tile_at(cx0 as int, c) == 0,
            ray_x == 0 && hit_found ==> forall|c: int|
                (if ray_y < 0 {
                    cell_y < c < cy0
                } else {
                    cy0 < c < cell_y
                }) ==> #[trigger] map.tile_at(cx0 as int, c) == 0,
        decreases (if step_x == 1 {
            w - 1 - cell_x
        } else {
            cell_x as int
        }) + (if step_y == 1 {
            h - 1 - cell_y
        } else {
            cell_y as int
        }) + 1,
    {
        proof {
            if ray_x != 0 {
                lemma_sd_bound(init_x as int, delta_x as int, (cell_x - cx0) * step_x);
            }
            if ray_y != 0 {
                lemma_sd_bound(init_y as int, delta_y as int, (cell_y - cy0) * step_y);
            }
        }
        if sd_x < sd_y {
            proof {
                assert(ray_x != 0);
                lemma_step_count(cell_x as int, cx0 as int, step_x as int);
                lemma_sd_step(init_x as int, delta_x as int, (cell_x - cx0) * step_x);
            }
            perp = sd_x;
            sd_x = sd_x + delta_x;
            cell_x = cell_x + step_x;
            side = 0;
        } else {
            proof {
                assert(ray_y != 0);
                lemma_step_count(cell_y as int, cy0 as int, step_y as int);
                lemma_sd_step(init_y as int, delta_y as int, (cell_y - cy0) * step_y);
            }
            perp = sd_y;
            sd_y = sd_y + delta_y;
            cell_y = cell_y + step_y;
            side = 1;
        }
        if 0 <= cell_x && cell_x < w && 0 <= cell_y && cell_y < h {
            let t: u8 = map.tile(cell_x as usize, cell_y as usize);
            if t > 0 {
                hit_val = t;
                hit_found = true;
                proof {
                    assert(map.tile_at(cell_x as int, cell_y as int) == t);
                }
            }
        }
        proof {
            if !hit_found {
                assert(!map.is_border(cell_x as int, cell_y as int));
            }
        }
    }
    proof {
        if ray_y == 0 {
            let k = (cell_x - cx0) * step_x;
            assert(delta_x * k == 1024 * k) by (nonlinear_arith)
                requires
                    delta_x == 1024,
            ;
            if ray_x < 0 {
                assert(k == cx0 - cell_x) by (nonlinear_arith)
                    requires
                        k == (cell_x - cx0) * step_x,
                        step_x == -1,
                ;
            } else {
                assert(k == cell_x - cx0) by (nonlinear_arith)
                    requires
                        k == (cell_x - cx0) * step_x,
                        step_x == 1,
                ;
            }
        }
        if ray_x == 0 {
            let k = (cell_y - cy0) * step_y;
            assert(delta_y * k == 1024 * k) by (nonlinear_arith)
                requires
                    delta_y == 1024,
            ;
            if ray_y < 0 {
                assert(k == cy0 - cell_y) by (nonlinear_arith)
                    requires
                        k == (cell_y - cy0) * step_y,
                        step_y == -1,
                ;
            } else {
                assert(k == cell_y - cy0) by (nonlinear_arith)
                    requires
                        k == (cell_y - cy0) * step_y,
                        step_y == 1,
                ;
            }
        }
        if ray_x > 0 {
            assert(cell_x - cx0 >= 0) by (nonlinear_arith)
                requires
                    (cell_x - cx0) * step_x >= 0,
                    step_x == 1,
            ;
        }
        if ray_x < 0 {
            assert(cx0 - cell_x >= 0) by (nonlinear_arith)
                requires
                    (cell_x - cx0) * step_x >= 0,
                    step_x == -1,
            ;
        }
        if ray_y > 0 {
            assert(cell_y - cy0 >= 0) by (nonlinear_arith)
                requires
                    (cell_y - cy0) * step_y >= 0,
                    step_y == 1,
            ;
        }
        if ray_y < 0 {
            assert(cy0 - cell_y >= 0) by (nonlinear_arith)
                requires
                    (cell_y - cy0) * step_y >= 0,
                    step_y == -1,
            ;
        }
    }
    RayHit { perp_dist: perp, side, hit_val, hit_x: cell_x, hit_y: cell_y }
}

/// The projected height in pixels of a wall slice at perpendicular
/// distance `dist` (fixed-point), shaded by the per-column cosine factor:
/// `screen_h / dist * cos` rounded to the nearest whole pixel.
pub open spec fn slice_len_spec(screen_h: int, cos_col: int, dist: int) -> int
    recommends
        dist > 0,
{
    (2 * screen_h * cos_col + dist) / (2 * dist)
}

/// Projects a perpendicular wall distance to a vertical screen band.
/// Bands are vertically centered: as long as the band fits on screen,
/// `start_y + length / 2` is exactly the screen midline. A zero distance
/// (the camera stands on the crossed grid line) fills the whole column.
pub fn wall_slice(perp_dist: i64, cos_col: i64, screen_h: u32) -> (r: (u32, u32))
    requires
        0 <= perp_dist <= 0xFFFF_FFFF,
        0 <= cos_col <= 1024,
        1 <= screen_h <= 4096,
    ensures
        perp_dist > 0 ==> r.1 == slice_len_spec(screen_h as int, cos_col as int, perp_dist as int),
        perp_dist == 0 ==> r.1 == u32::MAX,
        r.0 == (if r.1 <= screen_h {
            screen_h as int / 2 - r.1 as int / 2
        } else {
            0int
        }),
        r.1 <= screen_h ==> r.0 + r.1 / 2 == screen_h / 2,
{
    if perp_dist == 0 {
        return (0u32, u32::MAX);
    }
    let hh: i64 = screen_h as i64;
    proof {
        assert(0 <= 2 * hh * cos_col <= 2 * 4096 * 1024) by (nonlinear_arith)
            requires
                1 <= hh <= 4096,
                0 <= cos_col <= 1024,
        ;
    }
    let num: i64 = 2 * hh * cos_col + perp_dist;
    let den: i64 = 2 * perp_dist;
    let q: i64 = num / den;
    proof {
        lemma_div_is_ordered(0, num as int, den as int);
        vstd::arithmetic::div_mod::lemma_div_is_ordered_by_denominator(num as int, 2, den as int);
        assert(q <= num / 2);
    }
    let length: u32 = q as u32;
    let start: u32 = if length <= screen_h {
        proof {
            lemma_div_is_ordered(length as int, screen_h as int, 2);
        }
        screen_h / 2 - length / 2
    } else {
        0
    };
    (start, length)
}

/// Farther walls never render taller: the slice length is monotonically
/// non-increasing in the perpendicular wall distance, for a fixed screen
/// height and per-column shading factor.
pub proof fn lemma_slice_len_antitone(screen_h: int, cos_col: int, d1: int, d2: int)
    requires
        0 <= screen_h,
        0 <= cos_col,
        0 < d1 <= d2,
    ensures
        slice_len_spec(screen_h, cos_col, d2) <= slice_len_spec(screen_h, cos_col, d1),
{
    let n = 2 * screen_h * cos_col;
    assert(0 <= n) by (nonlinear_arith)
        requires
            n == 2 * screen_h * cos_col,
            0 <= screen_h,
            0 <= cos_col,
    ;
    let q = (n + d1) / (2 * d1);
    lemma_fundamental_div_mod(n + d1, 2 * d1);
    vstd::arithmetic::div_mod::lemma_mod_bound(n + d1, 2 * d1);
    assert(0 <= q) by {
        lemma_div_is_ordered(0, n + d1, 2 * d1);
        vstd::arithmetic::div_mod::lemma_div_of0(2 * d1);
    }
    assert(n + d1 < (2 * d1) * (q + 1)) by (nonlinear_arith)
        requires
            n + d1 == (2 * d1) * q + (n + d1) % (2 * d1),
            (n + d1) % (2 * d1) < 2 * d1,
    ;
    assert(n + d2 < (2 * d2) * (q + 1)) by (nonlinear_arith)
        requires
            n + d1 < (2 * d1) * (q + 1),
            0 <= q,
            0 < d1 <= d2,
    ;
    assert((2 * d2) * (q + 1) - 1 == q * (2 * d2) + (2 * d2 - 1)) by (nonlinear_arith);
    lemma_div_is_ordered(n + d2, (2 * d2) * (q + 1) - 1, 2 * d2);
    lemma_fundamental_div_mod_converse((2 * d2) * (q + 1) - 1, 2 * d2, q, 2 * d2 - 1);
}

/// One screen column's result: the vertical band to draw, which grid-line
/// family the hit crossed, and the tile code struck.
pub struct CastResult {
    /// First screen row of the wall band.
    pub start_y: u32,
    /// Height of the wall band in pixels.
    pub length: u32,
    /// 0 when the hit crossed a vertical grid line, 1 when horizontal.
    pub side: i32,
    /// The nonzero tile code of the wall struck.
    pub hit_val: u8,
}

/// Casts the ray of screen column `x` from the camera and projects the hit
/// to a vertical wall band. The ray always strikes a wall (the border is
/// closed), and the band is centered on the screen midline whenever it
/// fits.
pub fn cast(
    x: usize,
    map: &TileMap,
    pos_x: i64,
    pos_y: i64,
    dir_x: i64,
    dir_y: i64,
    fov: i32,
    screen_w: usize,
    screen_h: u32,
) -> (r: CastResult)
    requires
        map.wf(),
        pos_in_bounds(pos_x as int, pos_y as int, map.width as int, map.height as int),
        -1024 <= dir_x <= 1024,
        -1024 <= dir_y <= 1024,
        !(dir_x == 0 && dir_y == 0),
        0 <= fov <= 360,
        1 <= screen_w <= 4096,
        x <= screen_w,
        1 <= screen_h <= 4096,
    ensures
        r.side == 0 || r.side == 1,
        r.hit_val != 0,
        exists|i: int, j: int|
            0 <= i < map.width && 0 <= j < map.height && #[trigger] map.tile_at(i, j)
                == r.hit_val,
        r.length <= screen_h ==> r.start_y + r.length / 2 == screen_h / 2,
{
    let ray = column_ray_dir(dir_x, dir_y, fov, x, screen_w);
    let hit = cast_ray(map, pos_x, pos_y, ray.0, ray.1);
    let col_angle: i32 = fov / (screen_w as i32);
    proof {
        lemma_fundamental_div_mod(fov as int, screen_w as int);
        lemma_div_is_ordered(0, fov as int, screen_w as int);
        vstd::arithmetic::div_mod::lemma_div_of0(screen_w as int);
        assert(col_angle <= 360) by (nonlinear_arith)
            requires
                fov as int == (screen_w as int) * (col_angle as int) + (fov as int) % (
                screen_w as int),
                0 <= (fov as int) % (screen_w as int),
                0 <= fov <= 360,
                1 <= screen_w,
                0 <= col_angle,
        ;
    }
    let c0: i64 = cos_hd(col_angle);
    let cc: i64 = if c0 < 0 {
        0
    } else {
        c0
    };
    let slice = wall_slice(hit.perp_dist, cc, screen_h);
    CastResult { start_y: slice.0, length: slice.1, side: hit.side, hit_val: hit.hit_val }
}

/// For an axis-aligned ray the traversal quantities are exact: each cell
/// crossing is one whole tile and the distance to the first grid line is
/// the sub-tile offset itself.
proof fn lemma_axis_aligned_exact(
    c: int,
    a: int,
    n: int,
    rr: int,
    frac: int,
    delta: int,
    init: int,
)
    requires
        c != 0,
        a == if c < 0 {
            -c
        } else {
            c
        },
        n == c * c,
        rr * rr <= n < (rr + 1) * (rr + 1),
        1 <= rr,
        delta == (rr * 1024) / a,
        init == (frac * delta) / 1024,
    ensures
        delta == 1024,
        init == frac,
{
    assert(rr == a) by (nonlinear_arith)
        requires
            n == c * c,
            a == if c < 0 {
                -c
            } else {
                c
            },
            rr * rr <= n < (rr + 1) * (rr + 1),
            0 <= rr,
            1 <= a,
    ;
    lemma_div_multiples_vanish(1024, a);
    assert(rr * 1024 == a * 1024);
    assert(delta == 1024);
    assert(frac * delta == 1024 * frac) by (nonlinear_arith)
        requires
            delta == 1024,
    ;
    lemma_div_multiples_vanish(frac, 1024);
}

/// The starting cell of an in-bounds position is strictly interior.
proof fn lemma_cell_of_pos(p: int, dim: int)
    requires
        3 <= dim <= 1024,
        1024 <= p,
        p + 1024 < (dim - 1) * 1024,
    ensures
        1 <= p / 1024 <= dim - 2,
        0 <= p - (p / 1024) * 1024 < 1024,
{
    lemma_fundamental_div_mod(p, 1024);
    lemma_div_is_ordered(1024, p, 1024);
    lemma_div_multiples_vanish(1, 1024);
    assert(p < (dim - 2) * 1024);
    assert(p / 1024 <= dim - 2) by (nonlinear_arith)
        requires
            p < (dim - 2) * 1024,
            p == 1024 * (p / 1024) + p % 1024,
            0 <= p % 1024 < 1024,
    ;
    assert(p - (p / 1024) * 1024 == p % 1024) by (nonlinear_arith)
        requires
            p == 1024 * (p / 1024) + p % 1024,
    ;
}

/// Each ray component is no longer than the ray itself.
proof fn lemma_component_below_len(a: int, c: int, other: int, len: int, n: int)
    requires
        a == if c < 0 {
            -c
        } else {
            c
        },
        c != 0,
        n == c * c + other * other,
        len * len <= n < (len + 1) * (len + 1),
        0 <= len,
    ensures
        1 <= a <= len,
{
    assert(1 <= a);
    assert(a * a <= n) by (nonlinear_arith)
        requires
            n == c * c + other * other,
            a == if c < 0 {
                -c
            } else {
                c
            },
    ;
    assert(a <= len) by (nonlinear_arith)
        requires
            a * a <= n,
            n < (len + 1) * (len + 1),
            0 <= len,
            0 <= a,
    ;
}

/// The per-cell crossing distance along one axis lies between one tile and
/// the sentinel bound.
proof fn lemma_delta_bounds(len: int, a: int)
    requires
        1 <= a <= len,
        len <= 2896,
    ensures
        1024 <= (len * 1024) / a <= 2_965_504,
{
    assert(a * 1024 <= len * 1024) by (nonlinear_arith)
        requires
            a <= len,
    ;
    lemma_div_is_ordered(a * 1024, len * 1024, a);
    lemma_div_multiples_vanish(1024, a);
    assert(a * 1024 == a * 1024);
    assert((a * 1024) / a == 1024) by {
        assert(a * 1024 == a * 1024);
        lemma_div_multiples_vanish(1024, a);
    }
    assert(len * 1024 <= 2965504int) by (nonlinear_arith)
        requires
            len <= 2896,
    ;
    lemma_div_is_ordered(len * 1024, 2965504int, a);
    assert((2965504int) / a <= 2965504int) by {
        lemma_fundamental_div_mod(2965504int, a);
        assert((2965504int) / a <= 2965504int) by (nonlinear_arith)
            requires
                2965504int == a * ((2965504int) / a) + (2965504int) % a,
                0 <= (2965504int) % a,
                1 <= a,
                (2965504int) / a >= 0,
        ;
    }
    lemma_div_is_ordered(0, 2965504int, a);
}

/// The distance to the first grid line along one axis is at most one full
/// crossing.
proof fn lemma_init_bounds(frac: int, delta: int)
    requires
        0 <= frac <= 1024,
        1024 <= delta <= 2_965_504,
    ensures
        0 <= (frac * delta) / 1024 <= delta,
{
    assert(0 <= frac * delta <= 1024 * delta) by (nonlinear_arith)
        requires
            0 <= frac <= 1024,
            0 <= delta,
    ;
    lemma_div_is_ordered(0, frac * delta, 1024);
    lemma_div_is_ordered(frac * delta, 1024 * delta, 1024);
    lemma_div_multiples_vanish(delta, 1024);
}

/// Accumulated side distances stay far below the sentinel.
proof fn lemma_sd_bound(init: int, delta: int, steps: int)
    requires
        0 <= init <= delta,
        1024 <= delta <= 2_965_504,
        0 <= steps <= 1024,
    ensures
        0 <= init + delta * steps <= 0xFFFF_FFFF,
        init + delta * steps + delta <= 0xFFFF_FFFF,
{
    assert(0 <= delta * steps <= 2_965_504 * 1024) by (nonlinear_arith)
        requires
            0 <= steps <= 1024,
            0 <= delta <= 2_965_504,
    ;
}

/// Stepping a strictly interior cell keeps the step count within the grid.
proof fn lemma_step_count(cell: int, c0: int, step: int)
    requires
        step == 1 || step == -1,
        0 <= (cell - c0) * step <= 1024,
        1 <= cell <= 1022,
        1 <= c0 <= 1022,
    ensures
        ((cell + step) - c0) * step == (cell - c0) * step + 1,
        0 <= ((cell + step) - c0) * step <= 1022,
{
    assert(((cell + step) - c0) * step == (cell - c0) * step + step * step) by (nonlinear_arith);
    assert(step * step == 1) by (nonlinear_arith)
        requires
            step == 1 || step == -1,
    ;
    assert(((cell + step) - c0) * step <= 1022) by (nonlinear_arith)
        requires
            step == 1 || step == -1,
            1 <= cell <= 1022,
            1 <= c0 <= 1022,
    ;
}

/// One more crossing adds one crossing distance to the accumulated side
/// distance.
proof fn lemma_sd_step(init: int, delta: int, k: int)
    ensures
        init + delta * (k + 1) == init + delta * k + delta,
{
    assert(delta * (k + 1) == delta * k + delta) by (nonlinear_arith);
}

} // verus!
