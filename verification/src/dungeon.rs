//! The dungeon generator: places non-overlapping rooms by rejection
//! sampling, carves L-shaped tunnels between successive room centers,
//! designates the first room's center as the start position, and populates
//! every room after the first with monsters.

use vstd::prelude::*;
use vstd::math::{max, min};
use crate::connect::{
    lemma_reach_h_span, lemma_reach_mono, lemma_reach_rect, lemma_reach_self, lemma_reach_trans,
    lemma_reach_v_span, open_cell, reachable,
};
use crate::entity::{Ai, Color, DeathCallback, Fighter, Object, ObjectV, objs_v};
use crate::geometry::{Rect, in_interior, rects_overlap, spec_center};
use crate::movement::{blocks, is_traversable, occupied, placed, all_placed, all_wf};
use crate::rng::rng_range;
use crate::tiles::{Tile, TileGrid, create_h_tunnel, create_room, create_v_tunnel, walled};

verus! {

/// The generation parameters, threaded explicitly so that tests can use
/// small grids.
#[derive(Clone, Copy, Debug, PartialEq, Eq, Structural)]
pub struct GenConfig {
    pub width: i32,
    pub height: i32,
    pub max_rooms: i32,
    pub room_min_size: i32,
    pub room_max_size: i32,
    pub max_room_monsters: i32,
}

impl GenConfig {
    /// Room sizes leave space for a non-empty interior and always fit the
    /// grid with its wall border; the dimensions are small enough that
    /// coordinate sums stay within the machine integers.
    pub open spec fn wf(self) -> bool {
        &&& 2 <= self.room_min_size <= self.room_max_size
        &&& self.room_max_size < self.width
        &&& self.room_max_size < self.height
        &&& self.width <= 0x3fffffff
        &&& self.height <= 0x3fffffff
        &&& 1 <= self.max_rooms
        &&& 0 <= self.max_room_monsters < i32::MAX
    }

    /// The parameters of the original session: an 80 by 43 grid, up to 30
    /// rooms of size 6 to 10, up to 3 monsters per room.
    pub fn standard() -> (c: GenConfig)
        ensures
            c == (GenConfig {
                width: 80,
                height: 43,
                max_rooms: 30,
                room_min_size: 6,
                room_max_size: 10,
                max_room_monsters: 3,
            }),
            c.wf(),
    {
        GenConfig {
            width: 80,
            height: 43,
            max_rooms: 30,
            room_min_size: 6,
            room_max_size: 10,
            max_room_monsters: 3,
        }
    }
}

/// The room sits on the grid with at least a one-tile wall margin and a
/// non-empty interior.
pub open spec fn room_in_grid(g: TileGrid, r: Rect) -> bool {
    &&& 0 <= r.x1
    &&& r.x1 + 2 <= r.x2
    &&& r.x2 <= g.width - 1
    &&& 0 <= r.y1
    &&& r.y1 + 2 <= r.y2
    &&& r.y2 <= g.height - 1
}

/// A room's center lies strictly inside its bounds.
pub proof fn lemma_center_in_interior(r: Rect)
    requires
        0 <= r.x1,
        r.x1 + 2 <= r.x2,
        0 <= r.y1,
        r.y1 + 2 <= r.y2,
    ensures
        in_interior(r, spec_center(r).0, spec_center(r).1),
{
}

/// The weak monster archetype's stat preset.
pub open spec fn spec_orc_fighter() -> Fighter {
    Fighter { max_hp: 10, hp: 10, defence: 0, power: 3, on_death: DeathCallback::Monster }
}

/// The strong monster archetype's stat preset.
pub open spec fn spec_troll_fighter() -> Fighter {
    Fighter { max_hp: 16, hp: 16, defence: 1, power: 4, on_death: DeathCallback::Monster }
}

/// A freshly spawned weak monster at `(x, y)`.
pub open spec fn spec_orc(x: int, y: int) -> ObjectV {
    ObjectV {
        x,
        y,
        glyph: 'o',
        name: "orc"@,
        color: Color::spec_desaturated_green(),
        traversable: false,
        alive: true,
        fighter: Some(spec_orc_fighter()),
        ai: Some(Ai),
    }
}

/// A freshly spawned strong monster at `(x, y)`.
pub open spec fn spec_troll(x: int, y: int) -> ObjectV {
    ObjectV {
        x,
        y,
        glyph: 'T',
        name: "troll"@,
        color: Color::spec_darker_green(),
        traversable: false,
        alive: true,
        fighter: Some(spec_troll_fighter()),
        ai: Some(Ai),
    }
}

/// `o` is one of the two monster archetypes, standing where it was
/// spawned.
pub open spec fn is_spawned_monster(o: ObjectV) -> bool {
    o == spec_orc(o.x, o.y) || o == spec_troll(o.x, o.y)
}

/// Every entity is a spawned monster standing in the interior of one of
/// the accepted rooms after the first.
pub open spec fn monsters_ok(objs: Seq<ObjectV>, rooms: Seq<Rect>) -> bool {
    forall|m: int|
        0 <= m < objs.len() ==> is_spawned_monster(#[trigger] objs[m]) && exists|k: int|
            1 <= k < rooms.len() && in_interior(#[trigger] rooms[k], objs[m].x, objs[m].y)
}

/// No two blocking entities share a cell.
pub open spec fn blockers_distinct(objs: Seq<ObjectV>) -> bool {
    forall|i: int, j: int|
        0 <= i < j < objs.len() && !(#[trigger] objs[i]).traversable && !(#[trigger] objs[j]).traversable
            ==> !(objs[i].x == objs[j].x && objs[i].y == objs[j].y)
}

/// Populate one room with monsters: sample a count, then for each a
/// position in the room's interior, keeping it only if its cell is
/// traversable and unoccupied. Each kept monster is an orc with
/// probability 8 in 10, and a troll otherwise.
pub fn place_objects(
    room: &Rect,
    grid: &TileGrid,
    objects: &mut Vec<Object>,
    rng: &mut rand::rngs::StdRng,
    max_room_monsters: i32,
)
    requires
        grid.wf(),
        room_in_grid(*grid, *room),
        0 <= max_room_monsters < i32::MAX,
        blockers_distinct(objs_v(old(objects)@)),
    ensures
        final(objects)@.len() >= old(objects)@.len(),
        forall|m: int|
            0 <= m < old(objects)@.len() ==> #[trigger] final(objects)@[m] == old(objects)@[m],
        forall|m: int|
            old(objects)@.len() <= m < final(objects)@.len() ==> is_spawned_monster(
                #[trigger] objs_v(final(objects)@)[m],
            ) && in_interior(*room, objs_v(final(objects)@)[m].x, objs_v(final(objects)@)[m].y)
                && grid.tile_at(objs_v(final(objects)@)[m].x, objs_v(final(objects)@)[m].y).traversable,
        blockers_distinct(objs_v(final(objects)@)),
{
    let num_monsters = rng_range(rng, 0, max_room_monsters + 1);
    let mut n: i32 = 0;
    while n < num_monsters
        invariant
            grid.wf(),
            room_in_grid(*grid, *room),
            objects@.len() >= old(objects)@.len(),
            forall|m: int|
                0 <= m < old(objects)@.len() ==> #[trigger] objects@[m] == old(objects)@[m],
            forall|m: int|
                old(objects)@.len() <= m < objects@.len() ==> is_spawned_monster(
                    #[trigger] objs_v(objects@)[m],
                ) && in_interior(*room, objs_v(objects@)[m].x, objs_v(objects@)[m].y)
                    && grid.tile_at(objs_v(objects@)[m].x, objs_v(objects@)[m].y).traversable,
            blockers_distinct(objs_v(objects@)),
        decreases num_monsters - n,
    {
        let x = rng_range(rng, room.x1 + 1, room.x2);
        let y = rng_range(rng, room.y1 + 1, room.y2);

        if is_traversable(x, y, grid, objects) {
            let roll = rng_range(rng, 0, 10);
            let mut monster = if roll < 8 {
                let mut orc = Object::new(x, y, 'o', "orc", Color::desaturated_green(), false);
                orc.fighter = Some(
                    Fighter {
                        max_hp: 10,
                        hp: 10,
                        defence: 0,
                        power: 3,
                        on_death: DeathCallback::Monster,
                    },
                );
                orc.ai = Some(Ai);
                orc
            } else {
                let mut troll = Object::new(x, y, 'T', "troll", Color::darker_green(), false);
                troll.fighter = Some(
                    Fighter {
                        max_hp: 16,
                        hp: 16,
                        defence: 1,
                        power: 4,
                        on_death: DeathCallback::Monster,
                    },
                );
                troll.ai = Some(Ai);
                troll
            };
            monster.alive = true;
            let ghost pre = objects@;
            let ghost mv = monster@;
            objects.push(monster);
            proof {
                assert(objs_v(objects@) =~= objs_v(pre).push(mv));
                assert(mv == spec_orc(mv.x, mv.y) || mv == spec_troll(mv.x, mv.y));
                // The occupancy check rules out a blocking entity on the
                // chosen cell, so the new blocker collides with nothing.
                assert forall|i: int, j: int|
                    0 <= i < j < objs_v(objects@).len() && !(#[trigger] objs_v(objects@)[i]).traversable
                        && !(#[trigger] objs_v(objects@)[j]).traversable implies !(objs_v(
                    objects@,
                )[i].x == objs_v(objects@)[j].x && objs_v(objects@)[i].y == objs_v(objects@)[j].y) by {
                    if j == objs_v(objects@).len() - 1 {
                        if objs_v(pre)[i].x == mv.x && objs_v(pre)[i].y == mv.y
                            && !objs_v(pre)[i].traversable {
                            assert(blocks(objs_v(pre)[i], x as int, y as int));
                            assert(occupied(objs_v(pre), x as int, y as int));
                        }
                    }
                }
            }
        }
        n = n + 1;
    }
}

/// The accepted rooms sit on the grid, no two overlap, and every interior
/// tile has been carved empty.
pub open spec fn rooms_ok(g: TileGrid, rooms: Seq<Rect>) -> bool {
    &&& forall|i: int| 0 <= i < rooms.len() ==> room_in_grid(g, #[trigger] rooms[i])
    &&& forall|i: int, j: int|
        #![trigger rooms[i], rooms[j]]
        0 <= i < j < rooms.len() ==> !rects_overlap(rooms[i], rooms[j])
    &&& forall|i: int, x: int, y: int|
        #![trigger rooms[i], g.tile_at(x, y)]
        0 <= i < rooms.len() && in_interior(rooms[i], x, y) ==> g.tile_at(x, y)
            == Tile::spec_empty()
}

/// Every accepted room's center is reachable from the first room's center.
pub open spec fn rooms_connected(g: TileGrid, rooms: Seq<Rect>) -> bool {
    forall|i: int|
        0 <= i < rooms.len() ==> reachable(
            g,
            spec_center(rooms[0]),
            spec_center(#[trigger] rooms[i]),
        )
}

/// Any interior tile of any accepted room is reachable from the first
/// room's center: room interiors are fully carved rectangles, so the
/// room's center reaches every one of its tiles, and the centers are
/// connected through the tunnels.
pub proof fn lemma_interior_reachable(g: TileGrid, rooms: Seq<Rect>, i: int, x: int, y: int)
    requires
        rooms_ok(g, rooms),
        rooms_connected(g, rooms),
        0 <= i < rooms.len(),
        in_interior(rooms[i], x, y),
    ensures
        reachable(g, spec_center(rooms[0]), (x, y)),
{
    let r = rooms[i];
    assert(room_in_grid(g, r));
    lemma_center_in_interior(r);
    let c = spec_center(r);
    assert forall|a: int, b: int|
        r.x1 + 1 <= a <= r.x2 - 1 && r.y1 + 1 <= b <= r.y2 - 1 implies #[trigger] open_cell(
        g,
        a,
        b,
    ) by {
        assert(in_interior(r, a, b));
        assert(g.tile_at(a, b) == Tile::spec_empty());
    }
    lemma_reach_rect(g, r.x1 + 1, r.x2 - 1, r.y1 + 1, r.y2 - 1, c, (x, y));
    assert(reachable(g, spec_center(rooms[0]), c));
    lemma_reach_trans(g, spec_center(rooms[0]), c, (x, y));
}

/// Whether the candidate room overlaps any accepted room.
fn overlaps_any(room: &Rect, rooms: &Vec<Rect>) -> (r: bool)
    ensures
        r == exists|j: int| 0 <= j < rooms@.len() && rects_overlap(*room, #[trigger] rooms@[j]),
{
    let n = rooms.len();
    let mut i: usize = 0;
    while i < n
        invariant
            n == rooms@.len(),
            i <= n,
            forall|j: int| 0 <= j < i ==> !rects_overlap(*room, #[trigger] rooms@[j]),
        decreases n - i,
    {
        if room.intersects_with(&rooms[i]) {
            proof {
                assert(rects_overlap(*room, rooms@[i as int]));
            }
            return true;
        }
        i = i + 1;
    }
    false
}

/// Carve an L-shaped tunnel joining the centers of `prev` and `new_room`:
/// on a coin flip, horizontally then vertically, or the other way around
/// (the endpoints are identical either way). Only interior tiles change,
/// every change carves a tile empty, and afterwards the two centers reach
/// each other.
#[verifier::rlimit(60)]
fn carve_tunnels(prev: Rect, new_room: Rect, grid: &mut TileGrid, rng: &mut rand::rngs::StdRng)
    requires
        old(grid).wf(),
        old(grid).width <= 0x3fffffff,
        old(grid).height <= 0x3fffffff,
        room_in_grid(*old(grid), prev),
        room_in_grid(*old(grid), new_room),
    ensures
        final(grid).wf(),
        final(grid).width == old(grid).width,
        final(grid).height == old(grid).height,
        forall|a: int, b: int|
            old(grid).in_bounds(a, b) ==> #[trigger] final(grid).tile_at(a, b) == old(grid).tile_at(
                a,
                b,
            ) || final(grid).tile_at(a, b) == Tile::spec_empty(),
        forall|a: int, b: int|
            old(grid).in_bounds(a, b) && !(1 <= a <= old(grid).width - 2 && 1 <= b <= old(
                grid,
            ).height - 2) ==> #[trigger] final(grid).tile_at(a, b) == old(grid).tile_at(a, b),
        reachable(*final(grid), spec_center(prev), spec_center(new_room)),
{
    proof {
        lemma_center_in_interior(prev);
        lemma_center_in_interior(new_room);
    }
    let pc = prev.center();
    let prev_x = pc.0;
    let prev_y = pc.1;
    let nc = new_room.center();
    let new_x = nc.0;
    let new_y = nc.1;
    let flip = rng_range(rng, 0, 2);
    if flip == 0 {
        create_h_tunnel(prev_x, new_x, prev_y, grid);
        let ghost g_d = *grid;
        create_v_tunnel(prev_y, new_y, new_x, grid);
        proof {
            assert forall|t: int|
                min(prev_x as int, new_x as int) <= t <= max(
                    prev_x as int,
                    new_x as int,
                ) implies #[trigger] open_cell(*grid, t, prev_y as int) by {
                assert(g_d.tile_at(t, prev_y as int) == Tile::spec_empty());
                assert(grid.tile_at(t, prev_y as int).traversable);
            }
            assert forall|s: int|
                min(prev_y as int, new_y as int) <= s <= max(
                    prev_y as int,
                    new_y as int,
                ) implies #[trigger] open_cell(*grid, new_x as int, s) by {
                assert(grid.tile_at(new_x as int, s) == Tile::spec_empty());
            }
            lemma_reach_h_span(
                *grid,
                min(prev_x as int, new_x as int),
                max(prev_x as int, new_x as int),
                prev_y as int,
            );
            lemma_reach_v_span(
                *grid,
                min(prev_y as int, new_y as int),
                max(prev_y as int, new_y as int),
                new_x as int,
            );
            lemma_reach_trans(
                *grid,
                (prev_x as int, prev_y as int),
                (new_x as int, prev_y as int),
                (new_x as int, new_y as int),
            );
        }
    } else {
        create_v_tunnel(prev_y, new_y, prev_x, grid);
        let ghost g_d = *grid;
        create_h_tunnel(prev_x, new_x, new_y, grid);
        proof {
            assert forall|s: int|
                min(prev_y as int, new_y as int) <= s <= max(
                    prev_y as int,
                    new_y as int,
                ) implies #[trigger] open_cell(*grid, prev_x as int, s) by {
                assert(g_d.tile_at(prev_x as int, s) == Tile::spec_empty());
                assert(grid.tile_at(prev_x as int, s).traversable);
            }
            assert forall|t: int|
                min(prev_x as int, new_x as int) <= t <= max(
                    prev_x as int,
                    new_x as int,
                ) implies #[trigger] open_cell(*grid, t, new_y as int) by {
                assert(grid.tile_at(t, new_y as int) == Tile::spec_empty());
            }
            lemma_reach_v_span(
                *grid,
                min(prev_y as int, new_y as int),
                max(prev_y as int, new_y as int),
                prev_x as int,
            );
            lemma_reach_h_span(
                *grid,
                min(prev_x as int, new_x as int),
                max(prev_x as int, new_x as int),
                new_y as int,
            );
            lemma_reach_trans(
                *grid,
                (prev_x as int, prev_y as int),
                (prev_x as int, new_y as int),
                (new_x as int, new_y as int),
            );
        }
    }
}

/// Accept a candidate room that overlaps nothing: carve it, and unless it
/// is the first room, populate it with monsters and connect it to the
/// previously accepted room. Returns the room's center when it is the
/// first (it becomes the start position).
#[verifier::rlimit(100)]
fn accept_room(
    cfg: GenConfig,
    new_room: Rect,
    grid: &mut TileGrid,
    rooms: &mut Vec<Rect>,
    objects: &mut Vec<Object>,
    rng: &mut rand::rngs::StdRng,
) -> (start: Option<(i32, i32)>)
    requires
        cfg.wf(),
        old(grid).wf(),
        old(grid).width == cfg.width,
        old(grid).height == cfg.height,
        walled(*old(grid)),
        rooms_ok(*old(grid), old(rooms)@),
        rooms_connected(*old(grid), old(rooms)@),
        monsters_ok(objs_v(old(objects)@), old(rooms)@),
        blockers_distinct(objs_v(old(objects)@)),
        old(rooms)@.len() <= 1 ==> old(objects)@.len() == 0,
        room_in_grid(*old(grid), new_room),
        forall|j: int|
            0 <= j < old(rooms)@.len() ==> !rects_overlap(new_room, #[trigger] old(rooms)@[j]),
    ensures
        final(grid).wf(),
        final(grid).width == cfg.width,
        final(grid).height == cfg.height,
        walled(*final(grid)),
        final(rooms)@ == old(rooms)@.push(new_room),
        rooms_ok(*final(grid), final(rooms)@),
        rooms_connected(*final(grid), final(rooms)@),
        monsters_ok(objs_v(final(objects)@), final(rooms)@),
        blockers_distinct(objs_v(final(objects)@)),
        final(rooms)@.len() <= 1 ==> final(objects)@.len() == 0,
        old(rooms)@.len() == 0 ==> final(objects)@ == old(objects)@ && start == Some(
            ((spec_center(new_room).0) as i32, (spec_center(new_room).1) as i32),
        ),
        old(rooms)@.len() >= 1 ==> start is None,
{
    let ghost g_a = *grid;
    create_room(new_room, grid);
    let ghost g_b = *grid;
    proof {
        lemma_center_in_interior(new_room);
        assert(walled(*grid)) by {
            assert forall|a: int, b: int|
                grid.in_bounds(a, b) && (a == 0 || a == grid.width - 1 || b == 0 || b
                    == grid.height - 1) implies !(#[trigger] grid.tile_at(a, b)).traversable by {
                assert(!in_interior(new_room, a, b));
                assert(grid.tile_at(a, b) == g_a.tile_at(a, b));
            }
        }
    }
    let c = new_room.center();
    let new_x = c.0;
    let new_y = c.1;

    if rooms.len() == 0 {
        rooms.push(new_room);
        proof {
            assert(rooms@ =~= seq![new_room]);
            assert(grid.tile_at(spec_center(new_room).0, spec_center(new_room).1)
                == Tile::spec_empty());
            assert(open_cell(*grid, spec_center(new_room).0, spec_center(new_room).1));
            lemma_reach_self(*grid, spec_center(new_room));
        }
        Some((new_x, new_y))
    } else {
        let ghost objs0 = objs_v(objects@);
        place_objects(&new_room, &*grid, objects, rng, cfg.max_room_monsters);
        let prev = rooms[rooms.len() - 1];
        proof {
            assert(room_in_grid(g_a, prev));
        }
        carve_tunnels(prev, new_room, grid, rng);
        proof {
            assert(walled(*grid)) by {
                assert forall|a: int, b: int|
                    grid.in_bounds(a, b) && (a == 0 || a == grid.width - 1 || b == 0 || b
                        == grid.height - 1) implies !(#[trigger] grid.tile_at(a, b)).traversable by {
                    assert(grid.tile_at(a, b) == g_b.tile_at(a, b));
                }
            }
        }
        let ghost old_rooms = rooms@;
        rooms.push(new_room);
        proof {
            assert(rooms@ =~= old_rooms.push(new_room));
            assert forall|i: int, x2: int, y2: int|
                #![trigger rooms@[i], grid.tile_at(x2, y2)]
                0 <= i < rooms@.len() && in_interior(rooms@[i], x2, y2) implies grid.tile_at(
                x2,
                y2,
            ) == Tile::spec_empty() by {
                if i < old_rooms.len() {
                    assert(rooms@[i] == old_rooms[i]);
                    assert(g_a.tile_at(x2, y2) == Tile::spec_empty());
                    assert(g_b.tile_at(x2, y2) == Tile::spec_empty());
                    assert(grid.tile_at(x2, y2) == g_b.tile_at(x2, y2) || grid.tile_at(x2, y2)
                        == Tile::spec_empty());
                } else {
                    assert(rooms@[i] == new_room);
                    assert(g_b.tile_at(x2, y2) == Tile::spec_empty());
                    assert(grid.tile_at(x2, y2) == g_b.tile_at(x2, y2) || grid.tile_at(x2, y2)
                        == Tile::spec_empty());
                }
            }
            assert forall|a: int, b: int|
                g_a.in_bounds(a, b) && (#[trigger] g_a.tile_at(a, b)).traversable implies grid.tile_at(
                a,
                b,
            ).traversable by {
                assert(g_b.tile_at(a, b) == g_a.tile_at(a, b) || g_b.tile_at(a, b)
                    == Tile::spec_empty());
                assert(grid.tile_at(a, b) == g_b.tile_at(a, b) || grid.tile_at(a, b)
                    == Tile::spec_empty());
            }
            assert forall|i: int|
                0 <= i < rooms@.len() implies reachable(
                *grid,
                spec_center(rooms@[0]),
                spec_center(#[trigger] rooms@[i]),
            ) by {
                assert(rooms@[0] == old_rooms[0]);
                if i < old_rooms.len() {
                    assert(rooms@[i] == old_rooms[i]);
                    assert(reachable(g_a, spec_center(old_rooms[0]), spec_center(old_rooms[i])));
                    lemma_reach_mono(
                        g_a,
                        *grid,
                        spec_center(old_rooms[0]),
                        spec_center(old_rooms[i]),
                    );
                } else {
                    assert(rooms@[i] == new_room);
                    assert(reachable(g_a, spec_center(old_rooms[0]), spec_center(prev)));
                    lemma_reach_mono(g_a, *grid, spec_center(old_rooms[0]), spec_center(prev));
                    assert(reachable(*grid, spec_center(prev), spec_center(new_room)));
                    lemma_reach_trans(
                        *grid,
                        spec_center(old_rooms[0]),
                        spec_center(prev),
                        spec_center(new_room),
                    );
                }
            }
            assert forall|m: int| 0 <= m < objs_v(objects@).len() implies is_spawned_monster(
                #[trigger] objs_v(objects@)[m],
            ) && exists|k: int|
                1 <= k < rooms@.len() && in_interior(
                    #[trigger] rooms@[k],
                    objs_v(objects@)[m].x,
                    objs_v(objects@)[m].y,
                ) by {
                if m < objs0.len() {
                    assert(objects@[m] == old(objects)@[m]);
                    assert(objs_v(objects@)[m] == objs0[m]);
                    assert(is_spawned_monster(objs0[m]) && exists|k: int|
                        1 <= k < old_rooms.len() && in_interior(
                            #[trigger] old_rooms[k],
                            objs0[m].x,
                            objs0[m].y,
                        ));
                    let k = choose|k: int|
                        1 <= k < old_rooms.len() && in_interior(
                            #[trigger] old_rooms[k],
                            objs0[m].x,
                            objs0[m].y,
                        );
                    assert(rooms@[k] == old_rooms[k]);
                    assert(in_interior(rooms@[k], objs_v(objects@)[m].x, objs_v(objects@)[m].y));
                } else {
                    let k = rooms@.len() - 1;
                    assert(rooms@[k] == new_room);
                    assert(in_interior(rooms@[k], objs_v(objects@)[m].x, objs_v(objects@)[m].y));
                }
            }
        }
        None
    }
}

/// Generate a dungeon: up to `max_rooms` sampling attempts; a candidate
/// that overlaps an accepted room is skipped (fewer rooms is not an
/// error). The first accepted room's center becomes the start position;
/// each later room is populated with monsters and connected to its
/// predecessor's center by an L-shaped tunnel. Returns the grid, the
/// start position, and the accepted rooms.
#[verifier::rlimit(60)]
pub fn make_map(cfg: GenConfig, objects: &mut Vec<Object>, rng: &mut rand::rngs::StdRng) -> (r: (
    TileGrid,
    (i32, i32),
    Vec<Rect>,
))
    requires
        cfg.wf(),
        old(objects)@.len() == 0,
    ensures
        r.0.wf(),
        r.0.width == cfg.width,
        r.0.height == cfg.height,
        walled(r.0),
        1 <= r.2@.len() <= cfg.max_rooms,
        rooms_ok(r.0, r.2@),
        rooms_connected(r.0, r.2@),
        (r.1.0 as int, r.1.1 as int) == spec_center(r.2@[0]),
        r.0.tile_at(r.1.0 as int, r.1.1 as int).traversable,
        forall|i: int, x: int, y: int|
            #![trigger in_interior(r.2@[i], x, y)]
            0 <= i < r.2@.len() && in_interior(r.2@[i], x, y) ==> reachable(
                r.0,
                (r.1.0 as int, r.1.1 as int),
                (x, y),
            ),
        monsters_ok(objs_v(final(objects)@), r.2@),
        blockers_distinct(objs_v(final(objects)@)),
        all_placed(r.0, objs_v(final(objects)@)),
        all_wf(objs_v(final(objects)@)),
        r.2@.len() == 1 ==> final(objects)@.len() == 0,
{
    let mut grid = TileGrid::new(cfg.width, cfg.height);
    let mut rooms: Vec<Rect> = Vec::new();
    let mut start_x: i32 = 0;
    let mut start_y: i32 = 0;
    let mut attempt: i32 = 0;

    while attempt < cfg.max_rooms
        invariant
            cfg.wf(),
            grid.wf(),
            grid.width == cfg.width,
            grid.height == cfg.height,
            walled(grid),
            0 <= attempt <= cfg.max_rooms,
            rooms@.len() <= attempt,
            attempt >= 1 ==> rooms@.len() >= 1,
            rooms_ok(grid, rooms@),
            rooms_connected(grid, rooms@),
            rooms@.len() >= 1 ==> (start_x as int, start_y as int) == spec_center(rooms@[0]),
            rooms@.len() <= 1 ==> objects@.len() == 0,
            monsters_ok(objs_v(objects@), rooms@),
            blockers_distinct(objs_v(objects@)),
        decreases cfg.max_rooms - attempt,
    {
        // Sample a candidate room.
        let w = rng_range(rng, cfg.room_min_size, cfg.room_max_size + 1);
        let h = rng_range(rng, cfg.room_min_size, cfg.room_max_size + 1);
        let x = rng_range(rng, 0, cfg.width - w);
        let y = rng_range(rng, 0, cfg.height - h);
        let new_room = Rect::new(x, y, w, h);

        if !overlaps_any(&new_room, &rooms) {
            proof {
                assert(room_in_grid(grid, new_room));
            }
            let ghost old_rooms = rooms@;
            match accept_room(cfg, new_room, &mut grid, &mut rooms, objects, rng) {
                Some(start) => {
                    start_x = start.0;
                    start_y = start.1;
                },
                None => {
                    proof {
                        assert(rooms@[0] == old_rooms[0]);
                    }
                },
            }
        }
        attempt = attempt + 1;
    }

    proof {
        // The first sampling attempt never overlaps anything, so at least
        // one room was accepted.
        assert(rooms@.len() >= 1);
        lemma_center_in_interior(rooms@[0]);
        assert(grid.tile_at(spec_center(rooms@[0]).0, spec_center(rooms@[0]).1)
            == Tile::spec_empty());
        assert forall|i: int, x2: int, y2: int|
            #![trigger in_interior(rooms@[i], x2, y2)]
            0 <= i < rooms@.len() && in_interior(rooms@[i], x2, y2) implies reachable(
            grid,
            (start_x as int, start_y as int),
            (x2, y2),
        ) by {
            lemma_interior_reachable(grid, rooms@, i, x2, y2);
        }
        assert forall|m: int| 0 <= m < objs_v(objects@).len() implies placed(
            grid,
            #[trigger] objs_v(objects@)[m],
        ) && objs_v(objects@)[m].wf() by {
            let o = objs_v(objects@)[m];
            let k = choose|k: int|
                1 <= k < rooms@.len() && in_interior(#[trigger] rooms@[k], o.x, o.y);
            assert(room_in_grid(grid, rooms@[k]));
            assert(grid.tile_at(o.x, o.y) == Tile::spec_empty());
        }
    }
    (grid, (start_x, start_y), rooms)
}

} // verus!
