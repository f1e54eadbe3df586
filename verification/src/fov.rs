//! The visibility snapshot. The field-of-view algorithm itself is an
//! external collaborator: the engine only consumes per-tile boolean
//! answers, which the embedding layer records here each time it recomputes
//! visibility. The engine's own bookkeeping is the sticky `explored` flag.

use vstd::prelude::*;
use crate::tiles::{Tile, TileGrid};

verus! {

/// A per-tile snapshot of "is this tile currently visible", indexed
/// `[x][y]` like the tile grid.
pub struct Visibility {
    pub width: i32,
    pub height: i32,
    pub cells: Vec<Vec<bool>>,
}

impl Visibility {
    /// The dimensions are positive and the storage matches them.
    pub open spec fn wf(self) -> bool {
        &&& 0 < self.width
        &&& 0 < self.height
        &&& self.cells@.len() == self.width
        &&& forall|x: int| 0 <= x < self.width ==> (#[trigger] self.cells@[x])@.len() == self.height
    }

    pub open spec fn in_bounds(self, x: int, y: int) -> bool {
        0 <= x < self.width && 0 <= y < self.height
    }

    pub open spec fn at(self, x: int, y: int) -> bool {
        self.cells@[x]@[y]
    }

    /// A snapshot on which nothing is visible yet.
    pub fn new(width: i32, height: i32) -> (v: Visibility)
        requires
            0 < width,
            0 < height,
        ensures
            v.wf(),
            v.width == width,
            v.height == height,
            forall|x: int, y: int| v.in_bounds(x, y) ==> !(#[trigger] v.at(x, y)),
    {
        let column: Vec<bool> = vec![false; height as usize];
        let ghost col: Vec<bool> = column;
        let cells: Vec<Vec<bool>> = vec![column; width as usize];
        let v = Visibility { width, height, cells };
        proof {
            assert forall|x: int, y: int| v.in_bounds(x, y) implies !(#[trigger] v.at(x, y)) by {
                assert(cloned(col, v.cells@[x]));
                assert(v.cells@[x]@ =~= col@);
            }
        }
        v
    }

    /// Record one tile's visibility.
    pub fn set(&mut self, x: i32, y: i32, value: bool)
        requires
            old(self).wf(),
            old(self).in_bounds(x as int, y as int),
        ensures
            final(self).wf(),
            final(self).width == old(self).width,
            final(self).height == old(self).height,
            final(self).at(x as int, y as int) == value,
            forall|a: int, b: int|
                old(self).in_bounds(a, b) && (a, b) != (x as int, y as int)
                    ==> #[trigger] final(self).at(a, b) == old(self).at(a, b),
    {
        let xi = x as usize;
        let column = &mut self.cells[xi];
        column.set(y as usize, value);
    }

    /// Query one tile's visibility.
    pub fn is_visible(&self, x: i32, y: i32) -> (r: bool)
        requires
            self.wf(),
            self.in_bounds(x as int, y as int),
        ensures
            r == self.at(x as int, y as int),
    {
        self.cells[x as usize][y as usize]
    }
}

/// Mark every currently visible tile as explored. `explored` is sticky:
/// this never clears the flag, and nothing else about any tile changes.
pub fn update_explored(grid: &mut TileGrid, vis: &Visibility)
    requires
        old(grid).wf(),
        vis.wf(),
        vis.width == old(grid).width,
        vis.height == old(grid).height,
    ensures
        final(grid).wf(),
        final(grid).width == old(grid).width,
        final(grid).height == old(grid).height,
        forall|x: int, y: int|
            old(grid).in_bounds(x, y) ==> #[trigger] final(grid).tile_at(x, y) == (Tile {
                explored: old(grid).tile_at(x, y).explored || vis.at(x, y),
                ..old(grid).tile_at(x, y)
            }),
{
    let width = grid.width;
    let height = grid.height;
    let mut x: i32 = 0;
    while x < width
        invariant
            grid.wf(),
            grid.width == width,
            grid.height == height,
            old(grid).width == width,
            old(grid).height == height,
            vis.wf(),
            vis.width == width,
            vis.height == height,
            0 <= x <= width,
            forall|a: int, b: int|
                old(grid).in_bounds(a, b) ==> #[trigger] grid.tile_at(a, b) == (if a < x {
                    Tile {
                        explored: old(grid).tile_at(a, b).explored || vis.at(a, b),
                        ..old(grid).tile_at(a, b)
                    }
                } else {
                    old(grid).tile_at(a, b)
                }),
        decreases width - x,
    {
        let mut y: i32 = 0;
        while y < height
            invariant
                grid.wf(),
                grid.width == width,
                grid.height == height,
                old(grid).width == width,
                old(grid).height == height,
                vis.wf(),
                vis.width == width,
                vis.height == height,
                0 <= x < width,
                0 <= y <= height,
                forall|a: int, b: int|
                    old(grid).in_bounds(a, b) ==> #[trigger] grid.tile_at(a, b) == (if a < x || (a
                        == x && b < y) {
                        Tile {
                            explored: old(grid).tile_at(a, b).explored || vis.at(a, b),
                            ..old(grid).tile_at(a, b)
                        }
                    } else {
                        old(grid).tile_at(a, b)
                    }),
            decreases height - y,
        {
            let ghost gpre = *grid;
            if vis.is_visible(x, y) {
                grid.mark_explored(x, y);
            }
            proof {
                assert forall|a: int, b: int| old(grid).in_bounds(a, b) implies #[trigger] grid.tile_at(
                    a,
                    b,
                ) == (if a < x || (a == x && b < y + 1) {
                    Tile {
                        explored: old(grid).tile_at(a, b).explored || vis.at(a, b),
                        ..old(grid).tile_at(a, b)
                    }
                } else {
                    old(grid).tile_at(a, b)
                }) by {
                    if a == x && b == y {
                    } else {
                        assert((a, b) != (x as int, y as int));
                        assert(grid.tile_at(a, b) == gpre.tile_at(a, b));
                    }
                }
            }
            y = y + 1;
        }
        x = x + 1;
    }
}

} // verus!
