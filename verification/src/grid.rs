//! The tile grid the rays march through.
//!
//! A map is a flat row-major grid of tile codes: `0` is empty, any nonzero
//! code is a wall variant. The engine invariant is that the outer ring of
//! tiles is entirely solid, so every ray eventually strikes a wall and the
//! traversal loop terminates.
use vstd::prelude::*;
use vstd::arithmetic::div_mod::lemma_fundamental_div_mod;
use vstd::arithmetic::div_mod::lemma_fundamental_div_mod_converse;

verus! {

/// Whether `(i, j)` lies on the outer ring of a `width` by `height` grid.
pub open spec fn is_border_cell(i: int, j: int, width: int, height: int) -> bool {
    i == 0 || j == 0 || i == width - 1 || j == height - 1
}

/// The configuration invariant over plain values: plausible dimensions, a
/// tile vector that fills the grid, and a fully solid outer ring.
pub open spec fn grid_ok(tiles: Seq<u8>, width: int, height: int) -> bool {
    &&& 3 <= width <= 1024
    &&& 3 <= height <= 1024
    &&& tiles.len() == width * height
    &&& forall|i: int, j: int|
        0 <= i < width && 0 <= j < height && is_border_cell(i, j, width, height)
            ==> #[trigger] tiles[j * width + i] != 0
}

/// A rectangular grid of tile codes, row-major.
pub struct TileMap {
    /// Tile codes, row-major: the tile at column `i`, row `j` sits at index
    /// `j * width + i`.
    pub tiles: Vec<u8>,
    /// Number of columns.
    pub width: usize,
    /// Number of rows.
    pub height: usize,
}

impl TileMap {
    /// The tile code at column `i`, row `j`.
    pub open spec fn tile_at(self, i: int, j: int) -> u8 {
        self.tiles@[j * self.width + i]
    }

    /// Whether `(i, j)` lies on the outer ring of tiles.
    pub open spec fn is_border(self, i: int, j: int) -> bool {
        is_border_cell(i, j, self.width as int, self.height as int)
    }

    /// Well-formed map: the configuration invariant holds of its grid.
    pub open spec fn wf(self) -> bool {
        grid_ok(self.tiles@, self.width as int, self.height as int)
    }

    /// Checks the configuration invariant once at load time: returns the
    /// grid exactly when its dimensions are plausible, the tile vector
    /// fills the grid, and the border is fully solid.
    pub fn new(tiles: Vec<u8>, width: usize, height: usize) -> (r: Option<TileMap>)
        ensures
            match r {
                Some(m) => {
                    &&& grid_ok(tiles@, width as int, height as int)
                    &&& m.wf()
                    &&& m.tiles@ == tiles@
                    &&& m.width == width
                    &&& m.height == height
                },
                None => !grid_ok(tiles@, width as int, height as int),
            },
    {
        if width < 3 || width > 1024 || height < 3 || height > 1024 {
            return None;
        }
        proof {
            assert(width * height <= 1024 * 1024) by (nonlinear_arith)
                requires
                    0 <= width <= 1024,
                    0 <= height <= 1024,
            ;
        }
        if tiles.len() != width * height {
            return None;
        }
        let total: usize = tiles.len();
        let mut idx: usize = 0;
        while idx < total
            invariant
                3 <= width <= 1024,
                3 <= height <= 1024,
                total == tiles@.len(),
                tiles@.len() == width * height,
                idx <= total,
                forall|i: int, j: int|
                    0 <= i < width && 0 <= j < height && j * width + i < idx && is_border_cell(
                        i,
                        j,
                        width as int,
                        height as int,
                    ) ==> #[trigger] tiles@[j * width + i] != 0,
            decreases total - idx,
        {
            let i: usize = idx % width;
            let j: usize = idx / width;
            proof {
                lemma_fundamental_div_mod(idx as int, width as int);
                assert(idx == j * width + i) by (nonlinear_arith)
                    requires
                        idx == width * (j as int) + i,
                ;
                assert(j < height) by (nonlinear_arith)
                    requires
                        idx == j * width + i,
                        idx < width * height,
                        0 <= i < width,
                        0 < width,
                        0 <= j,
                ;
            }
            if (i == 0 || j == 0 || i == width - 1 || j == height - 1) && tiles[idx] == 0 {
                proof {
                    assert(is_border_cell(i as int, j as int, width as int, height as int));
                    assert(tiles@[(j as int) * (width as int) + (i as int)] == 0);
                    assert(!grid_ok(tiles@, width as int, height as int));
                }
                return None;
            }
            proof {
                assert forall|i2: int, j2: int|
                    0 <= i2 < width && 0 <= j2 < height && j2 * width + i2 < idx + 1
                        && is_border_cell(i2, j2, width as int, height as int) implies #[trigger] tiles@[j2
                    * width + i2] != 0 by {
                    if j2 * width + i2 == idx {
                        lemma_fundamental_div_mod_converse(idx as int, width as int, j2, i2);
                    }
                }
            }
            idx = idx + 1;
        }
        proof {
            assert forall|i: int, j: int|
                0 <= i < width && 0 <= j < height && is_border_cell(
                    i,
                    j,
                    width as int,
                    height as int,
                ) implies #[trigger] tiles@[j * width + i] != 0 by {
                assert(j * width + i < width * height) by (nonlinear_arith)
                    requires
                        0 <= i < width,
                        0 <= j < height,
                ;
            }
            assert(grid_ok(tiles@, width as int, height as int));
        }
        Some(TileMap { tiles, width, height })
    }

    /// A closed box: solid border of tile code `1`, empty interior.
    pub fn bordered(width: usize, height: usize) -> (r: TileMap)
        requires
            3 <= width <= 1024,
            3 <= height <= 1024,
        ensures
            r.wf(),
            r.width == width,
            r.height == height,
            forall|i: int, j: int|
                0 <= i < width && 0 <= j < height ==> r.tile_at(i, j) == (if r.is_border(i, j) {
                    1u8
                } else {
                    0u8
                }),
    {
        proof {
            assert(width * height <= 1024 * 1024) by (nonlinear_arith)
                requires
                    0 <= width <= 1024,
                    0 <= height <= 1024,
            ;
        }
        let total: usize = width * height;
        let mut tiles: Vec<u8> = Vec::new();
        let mut idx: usize = 0;
        while idx < total
            invariant
                total == width * height,
                3 <= width <= 1024,
                3 <= height <= 1024,
                tiles@.len() == idx,
                idx <= total,
                forall|k: int|
                    0 <= k < idx ==> #[trigger] tiles@[k] == (if (k % (width as int) == 0 || k / (
                    width as int) == 0 || k % (width as int) == width - 1 || k / (width as int)
                        == height - 1) {
                        1u8
                    } else {
                        0u8
                    }),
            decreases total - idx,
        {
            let i: usize = idx % width;
            let j: usize = idx / width;
            if i == 0 || j == 0 || i == width - 1 || j == height - 1 {
                tiles.push(1u8);
            } else {
                tiles.push(0u8);
            }
            idx = idx + 1;
        }
        let r = TileMap { tiles, width, height };
        proof {
            assert forall|i: int, j: int| 0 <= i < width && 0 <= j < height implies r.tile_at(
                i,
                j,
            ) == (if r.is_border(i, j) {
                1u8
            } else {
                0u8
            }) by {
                let k = j * (width as int) + i;
                assert(0 <= k < total) by (nonlinear_arith)
                    requires
                        k == j * (width as int) + i,
                        0 <= i < width,
                        0 <= j < height,
                        total == width * height,
                ;
                lemma_fundamental_div_mod_converse(k, width as int, j, i);
            }
            assert forall|i: int, j: int|
                0 <= i < width && 0 <= j < height && is_border_cell(
                    i,
                    j,
                    width as int,
                    height as int,
                ) implies #[trigger] r.tiles@[j * width + i] != 0 by {
                assert(r.tile_at(i, j) == 1u8);
            }
        }
        r
    }

    /// The tile code at column `i`, row `j`.
    pub fn tile(&self, i: usize, j: usize) -> (t: u8)
        requires
            self.wf(),
            i < self.width,
            j < self.height,
        ensures
            t == self.tile_at(i as int, j as int),
    {
        proof {
            assert(j * self.width + i < self.width * self.height && self.width * self.height
                <= 1024 * 1024) by (nonlinear_arith)
                requires
                    0 <= i < self.width,
                    0 <= j < self.height,
                    self.width <= 1024,
                    self.height <= 1024,
            ;
        }
        self.tiles[j * self.width + i]
    }
}

} // verus!
