//! The tile grid: a fixed-size 2D array of tile states, indexed `[x][y]`.
//! Generation starts from solid walls and carves rooms and tunnels; after
//! that the grid changes only through the sticky `explored` flag.

use vstd::prelude::*;
use vstd::math::{min, max};
use crate::geometry::{Rect, in_interior};

verus! {

/// One cell of the dungeon. A wall is neither traversable nor transparent;
/// a carved (empty) tile is both. `explored` is sticky: once set it is
/// never cleared.
#[derive(Clone, Copy, Debug, PartialEq, Eq, Structural)]
pub struct Tile {
    pub explored: bool,
    pub traversable: bool,
    pub transparent: bool,
}

impl Tile {
    pub open spec fn spec_empty() -> Tile {
        Tile { explored: false, traversable: true, transparent: true }
    }

    pub open spec fn spec_wall() -> Tile {
        Tile { explored: false, traversable: false, transparent: false }
    }

    /// A carved, walkable, see-through tile.
    #[verifier::when_used_as_spec(spec_empty)]
    pub fn empty() -> (t: Tile)
        ensures
            t == Tile::spec_empty(),
    {
        Tile { explored: false, traversable: true, transparent: true }
    }

    /// A solid wall: blocks both movement and sight.
    #[verifier::when_used_as_spec(spec_wall)]
    pub fn wall() -> (t: Tile)
        ensures
            t == Tile::spec_wall(),
    {
        Tile { explored: false, traversable: false, transparent: false }
    }
}

/// The dungeon grid, `width * height` tiles indexed `[x][y]`.
pub struct TileGrid {
    pub width: i32,
    pub height: i32,
    pub tiles: Vec<Vec<Tile>>,
}

impl TileGrid {
    /// The dimensions are positive and the tile storage matches them.
    pub open spec fn wf(self) -> bool {
        &&& 0 < self.width
        &&& 0 < self.height
        &&& self.tiles@.len() == self.width
        &&& forall|x: int| 0 <= x < self.width ==> (#[trigger] self.tiles@[x])@.len() == self.height
    }

    pub open spec fn in_bounds(self, x: int, y: int) -> bool {
        0 <= x < self.width && 0 <= y < self.height
    }

    pub open spec fn tile_at(self, x: int, y: int) -> Tile {
        self.tiles@[x]@[y]
    }

    /// A fresh grid of solid walls.
    pub fn new(width: i32, height: i32) -> (g: TileGrid)
        requires
            0 < width,
            0 < height,
        ensures
            g.wf(),
            g.width == width,
            g.height == height,
            forall|x: int, y: int| g.in_bounds(x, y) ==> #[trigger] g.tile_at(x, y) == Tile::wall(),
    {
        let column: Vec<Tile> = vec![Tile::wall(); height as usize];
        let ghost col: Vec<Tile> = column;
        let tiles: Vec<Vec<Tile>> = vec![column; width as usize];
        let g = TileGrid { width, height, tiles };
        proof {
            assert forall|x: int, y: int| g.in_bounds(x, y) implies #[trigger] g.tile_at(x, y)
                == Tile::wall() by {
                assert(cloned(col, g.tiles@[x]));
                assert(g.tiles@[x]@ =~= col@);
            }
        }
        g
    }

    /// Read one tile.
    pub fn get(&self, x: i32, y: i32) -> (t: Tile)
        requires
            self.wf(),
            self.in_bounds(x as int, y as int),
        ensures
            t == self.tile_at(x as int, y as int),
    {
        self.tiles[x as usize][y as usize]
    }

    /// Overwrite one tile.
    pub fn set(&mut self, x: i32, y: i32, t: Tile)
        requires
            old(self).wf(),
            old(self).in_bounds(x as int, y as int),
        ensures
            final(self).wf(),
            final(self).width == old(self).width,
            final(self).height == old(self).height,
            final(self).tile_at(x as int, y as int) == t,
            forall|a: int, b: int|
                old(self).in_bounds(a, b) && (a, b) != (x as int, y as int)
                    ==> #[trigger] final(self).tile_at(a, b) == old(self).tile_at(a, b),
    {
        let xi = x as usize;
        let column = &mut self.tiles[xi];
        column.set(y as usize, t);
    }

    /// Mark one tile as explored, leaving everything else about it intact.
    pub fn mark_explored(&mut self, x: i32, y: i32)
        requires
            old(self).wf(),
            old(self).in_bounds(x as int, y as int),
        ensures
            final(self).wf(),
            final(self).width == old(self).width,
            final(self).height == old(self).height,
            final(self).tile_at(x as int, y as int) == (Tile {
                explored: true,
                ..old(self).tile_at(x as int, y as int)
            }),
            forall|a: int, b: int|
                old(self).in_bounds(a, b) && (a, b) != (x as int, y as int)
                    ==> #[trigger] final(self).tile_at(a, b) == old(self).tile_at(a, b),
    {
        let mut t = self.get(x, y);
        t.explored = true;
        self.set(x, y, t);
    }
}

/// Every tile on the outermost border is a wall. Generation never carves
/// the border, so any entity standing on a traversable tile can step one
/// cell in any direction without leaving the grid.
pub open spec fn walled(g: TileGrid) -> bool {
    forall|x: int, y: int|
        g.in_bounds(x, y) && (x == 0 || x == g.width - 1 || y == 0 || y == g.height - 1)
            ==> !(#[trigger] g.tile_at(x, y)).traversable
}

/// Carve the interior of `rect` (everything strictly inside its bounds) to
/// empty tiles; the border of the rect and the rest of the grid are untouched.
pub fn create_room(rect: Rect, grid: &mut TileGrid)
    requires
        old(grid).wf(),
        0 <= rect.x1 <= rect.x2,
        0 <= rect.y1 <= rect.y2,
        rect.x2 < old(grid).width,
        rect.y2 < old(grid).height,
    ensures
        final(grid).wf(),
        final(grid).width == old(grid).width,
        final(grid).height == old(grid).height,
        forall|a: int, b: int|
            old(grid).in_bounds(a, b) ==> #[trigger] final(grid).tile_at(a, b) == (if in_interior(
                rect,
                a,
                b,
            ) {
                Tile::empty()
            } else {
                old(grid).tile_at(a, b)
            }),
{
    let mut x = rect.x1 + 1;
    while x < rect.x2
        invariant
            grid.wf(),
            grid.width == old(grid).width,
            grid.height == old(grid).height,
            rect.x1 + 1 <= x <= rect.x2 || x == rect.x1 + 1,
            0 <= rect.x1 <= rect.x2,
            0 <= rect.y1 <= rect.y2,
            rect.x2 < grid.width,
            rect.y2 < grid.height,
            forall|a: int, b: int|
                old(grid).in_bounds(a, b) ==> #[trigger] grid.tile_at(a, b) == (if in_interior(
                    rect,
                    a,
                    b,
                ) && a < x {
                    Tile::empty()
                } else {
                    old(grid).tile_at(a, b)
                }),
        decreases rect.x2 - x,
    {
        let mut y = rect.y1 + 1;
        while y < rect.y2
            invariant
                grid.wf(),
                grid.width == old(grid).width,
                grid.height == old(grid).height,
                rect.x1 + 1 <= x < rect.x2,
                rect.y1 + 1 <= y <= rect.y2 || y == rect.y1 + 1,
                0 <= rect.x1,
                0 <= rect.y1,
                rect.x2 < grid.width,
                rect.y2 < grid.height,
                forall|a: int, b: int|
                    old(grid).in_bounds(a, b) ==> #[trigger] grid.tile_at(a, b) == (if in_interior(
                        rect,
                        a,
                        b,
                    ) && (a < x || (a == x && b < y)) {
                        Tile::empty()
                    } else {
                        old(grid).tile_at(a, b)
                    }),
            decreases rect.y2 - y,
        {
            grid.set(x, y, Tile::empty());
            y = y + 1;
        }
        x = x + 1;
    }
}

/// Carve a horizontal tunnel along row `y`, covering the inclusive span of
/// columns between `x1` and `x2` (in either order).
pub fn create_h_tunnel(x1: i32, x2: i32, y: i32, grid: &mut TileGrid)
    requires
        old(grid).wf(),
        0 <= x1 < old(grid).width,
        0 <= x2 < old(grid).width,
        0 <= y < old(grid).height,
    ensures
        final(grid).wf(),
        final(grid).width == old(grid).width,
        final(grid).height == old(grid).height,
        forall|a: int, b: int|
            old(grid).in_bounds(a, b) ==> #[trigger] final(grid).tile_at(a, b) == (if b == y
                && min(x1 as int, x2 as int) <= a <= max(x1 as int, x2 as int) {
                Tile::empty()
            } else {
                old(grid).tile_at(a, b)
            }),
{
    let lo = if x1 < x2 { x1 } else { x2 };
    let hi = if x1 < x2 { x2 } else { x1 };
    let mut x = lo;
    while x <= hi
        invariant
            grid.wf(),
            grid.width == old(grid).width,
            grid.height == old(grid).height,
            lo == min(x1 as int, x2 as int),
            hi == max(x1 as int, x2 as int),
            0 <= lo,
            hi < grid.width,
            0 <= y < grid.height,
            lo <= x <= hi + 1,
            forall|a: int, b: int|
                old(grid).in_bounds(a, b) ==> #[trigger] grid.tile_at(a, b) == (if b == y && lo <= a
                    < x {
                    Tile::empty()
                } else {
                    old(grid).tile_at(a, b)
                }),
        decreases hi + 1 - x,
    {
        grid.set(x, y, Tile::empty());
        x = x + 1;
    }
}

/// Carve a vertical tunnel along column `x`, covering the inclusive span of
/// rows between `y1` and `y2` (in either order).
pub fn create_v_tunnel(y1: i32, y2: i32, x: i32, grid: &mut TileGrid)
    requires
        old(grid).wf(),
        0 <= y1 < old(grid).height,
        0 <= y2 < old(grid).height,
        0 <= x < old(grid).width,
    ensures
        final(grid).wf(),
        final(grid).width == old(grid).width,
        final(grid).height == old(grid).height,
        forall|a: int, b: int|
            old(grid).in_bounds(a, b) ==> #[trigger] final(grid).tile_at(a, b) == (if a == x
                && min(y1 as int, y2 as int) <= b <= max(y1 as int, y2 as int) {
                Tile::empty()
            } else {
                old(grid).tile_at(a, b)
            }),
{
    let lo = if y1 < y2 { y1 } else { y2 };
    let hi = if y1 < y2 { y2 } else { y1 };
    let mut y = lo;
    while y <= hi
        invariant
            grid.wf(),
            grid.width == old(grid).width,
            grid.height == old(grid).height,
            lo == min(y1 as int, y2 as int),
            hi == max(y1 as int, y2 as int),
            0 <= lo,
            hi < grid.height,
            0 <= x < grid.width,
            lo <= y <= hi + 1,
            forall|a: int, b: int|
                old(grid).in_bounds(a, b) ==> #[trigger] grid.tile_at(a, b) == (if a == x && lo <= b
                    < y {
                    Tile::empty()
                } else {
                    old(grid).tile_at(a, b)
                }),
        decreases hi + 1 - y,
    {
        grid.set(x, y, Tile::empty());
        y = y + 1;
    }
}

} // verus!
