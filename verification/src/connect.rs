//! Reachability over the tile grid: a path is a sequence of traversable,
//! in-bounds cells in which consecutive cells are one step apart (diagonal
//! steps included, matching movement). These lemmas let the generator prove
//! that everything it carves stays connected to the start position.

use vstd::prelude::*;
use vstd::math::{max, min};
use crate::tiles::TileGrid;

verus! {

/// The two cells are one movement step apart.
pub open spec fn adjacent(a: (int, int), b: (int, int)) -> bool {
    &&& -1 <= a.0 - b.0 <= 1
    &&& -1 <= a.1 - b.1 <= 1
    &&& a != b
}

/// `p` walks over traversable, in-bounds cells, one step at a time.
pub open spec fn is_path(g: TileGrid, p: Seq<(int, int)>) -> bool {
    &&& p.len() >= 1
    &&& forall|i: int|
        0 <= i < p.len() ==> g.in_bounds((#[trigger] p[i]).0, p[i].1) && g.tile_at(
            p[i].0,
            p[i].1,
        ).traversable
    &&& forall|i: int| 0 <= i < p.len() - 1 ==> adjacent(#[trigger] p[i], p[i + 1])
}

/// The cell is on the grid and its tile is traversable.
pub open spec fn open_cell(g: TileGrid, x: int, y: int) -> bool {
    g.in_bounds(x, y) && g.tile_at(x, y).traversable
}

/// Cell `b` can be reached from cell `a` over traversable tiles.
pub open spec fn reachable(g: TileGrid, a: (int, int), b: (int, int)) -> bool {
    exists|p: Seq<(int, int)>| is_path(g, p) && p.first() == a && p.last() == b
}

/// A traversable cell reaches itself.
pub proof fn lemma_reach_self(g: TileGrid, a: (int, int))
    requires
        g.in_bounds(a.0, a.1),
        g.tile_at(a.0, a.1).traversable,
    ensures
        reachable(g, a, a),
{
    let p = seq![a];
    assert(is_path(g, p) && p.first() == a && p.last() == a);
}

/// Reachability is transitive: paths concatenate.
pub proof fn lemma_reach_trans(g: TileGrid, a: (int, int), b: (int, int), c: (int, int))
    requires
        reachable(g, a, b),
        reachable(g, b, c),
    ensures
        reachable(g, a, c),
{
    let p1 = choose|p: Seq<(int, int)>| is_path(g, p) && p.first() == a && p.last() == b;
    let p2 = choose|p: Seq<(int, int)>| is_path(g, p) && p.first() == b && p.last() == c;
    let p = p1 + p2.drop_first();
    assert forall|i: int| 0 <= i < p.len() - 1 implies adjacent(#[trigger] p[i], p[i + 1]) by {
        if i < p1.len() - 1 {
            assert(p[i] == p1[i] && p[i + 1] == p1[i + 1]);
        } else if i == p1.len() - 1 {
            if p2.len() > 1 {
                assert(p[i] == p1.last() && p[i + 1] == p2[1]);
                assert(adjacent(p2[0], p2[1]));
            }
        } else {
            assert(p[i] == p2[i - p1.len() + 1] && p[i + 1] == p2[i - p1.len() + 2]);
            assert(adjacent(p2[i - p1.len() + 1], p2[i - p1.len() + 2]));
        }
    }
    assert(is_path(g, p) && p.first() == a && p.last() == c);
}

/// A single step to an adjacent traversable cell.
pub proof fn lemma_reach_step(g: TileGrid, a: (int, int), b: (int, int))
    requires
        g.in_bounds(a.0, a.1),
        g.tile_at(a.0, a.1).traversable,
        g.in_bounds(b.0, b.1),
        g.tile_at(b.0, b.1).traversable,
        adjacent(a, b),
    ensures
        reachable(g, a, b),
{
    let p = seq![a, b];
    assert(is_path(g, p) && p.first() == a && p.last() == b);
}

/// Carving more tiles never disconnects anything: if every traversable
/// tile of `g1` is still traversable in the same-sized `g2`, paths carry
/// over.
pub proof fn lemma_reach_mono(g1: TileGrid, g2: TileGrid, a: (int, int), b: (int, int))
    requires
        g1.width == g2.width,
        g1.height == g2.height,
        forall|x: int, y: int|
            g1.in_bounds(x, y) && (#[trigger] g1.tile_at(x, y)).traversable ==> g2.tile_at(
                x,
                y,
            ).traversable,
        reachable(g1, a, b),
    ensures
        reachable(g2, a, b),
{
    let p = choose|p: Seq<(int, int)>| is_path(g1, p) && p.first() == a && p.last() == b;
    assert forall|i: int| 0 <= i < p.len() implies g2.in_bounds((#[trigger] p[i]).0, p[i].1)
        && g2.tile_at(p[i].0, p[i].1).traversable by {
        assert(g1.in_bounds(p[i].0, p[i].1) && g1.tile_at(p[i].0, p[i].1).traversable);
    }
    assert(is_path(g2, p) && p.first() == a && p.last() == b);
}

/// A fully traversable horizontal span is walkable end to end.
pub proof fn lemma_reach_h_span(g: TileGrid, x1: int, x2: int, y: int)
    requires
        x1 <= x2,
        forall|x: int| x1 <= x <= x2 ==> #[trigger] open_cell(g, x, y),
    ensures
        reachable(g, (x1, y), (x2, y)),
        reachable(g, (x2, y), (x1, y)),
    decreases x2 - x1,
{
    assert(open_cell(g, x1, y));
    assert(open_cell(g, x2, y));
    if x1 == x2 {
        lemma_reach_self(g, (x1, y));
    } else {
        assert(open_cell(g, x2 - 1, y));
        lemma_reach_h_span(g, x1, x2 - 1, y);
        lemma_reach_step(g, (x2 - 1, y), (x2, y));
        lemma_reach_step(g, (x2, y), (x2 - 1, y));
        lemma_reach_trans(g, (x1, y), (x2 - 1, y), (x2, y));
        lemma_reach_trans(g, (x2, y), (x2 - 1, y), (x1, y));
    }
}

/// A fully traversable vertical span is walkable end to end.
pub proof fn lemma_reach_v_span(g: TileGrid, y1: int, y2: int, x: int)
    requires
        y1 <= y2,
        forall|y: int| y1 <= y <= y2 ==> #[trigger] open_cell(g, x, y),
    ensures
        reachable(g, (x, y1), (x, y2)),
        reachable(g, (x, y2), (x, y1)),
    decreases y2 - y1,
{
    assert(open_cell(g, x, y1));
    assert(open_cell(g, x, y2));
    if y1 == y2 {
        lemma_reach_self(g, (x, y1));
    } else {
        assert(open_cell(g, x, y2 - 1));
        lemma_reach_v_span(g, y1, y2 - 1, x);
        lemma_reach_step(g, (x, y2 - 1), (x, y2));
        lemma_reach_step(g, (x, y2), (x, y2 - 1));
        lemma_reach_trans(g, (x, y1), (x, y2 - 1), (x, y2));
        lemma_reach_trans(g, (x, y2), (x, y2 - 1), (x, y1));
    }
}

/// Any two cells of a fully traversable rectangle reach each other: walk
/// the row, then the column.
pub proof fn lemma_reach_rect(
    g: TileGrid,
    ax: int,
    bx: int,
    ay: int,
    by: int,
    p: (int, int),
    q: (int, int),
)
    requires
        forall|x: int, y: int| ax <= x <= bx && ay <= y <= by ==> #[trigger] open_cell(g, x, y),
        ax <= p.0 <= bx,
        ay <= p.1 <= by,
        ax <= q.0 <= bx,
        ay <= q.1 <= by,
    ensures
        reachable(g, p, q),
{
    assert forall|x: int| min(p.0, q.0) <= x <= max(p.0, q.0) implies #[trigger] open_cell(
        g,
        x,
        p.1,
    ) by {
        assert(ax <= x <= bx && ay <= p.1 <= by);
    }
    lemma_reach_h_span(g, min(p.0, q.0), max(p.0, q.0), p.1);
    assert forall|y: int| min(p.1, q.1) <= y <= max(p.1, q.1) implies #[trigger] open_cell(
        g,
        q.0,
        y,
    ) by {
        assert(ax <= q.0 <= bx && ay <= y <= by);
    }
    lemma_reach_v_span(g, min(p.1, q.1), max(p.1, q.1), q.0);
    lemma_reach_trans(g, p, (q.0, p.1), q);
}

} // verus!
