//! Assembling a session: generate the dungeon from a seed, put the player
//! at the start position (at its reserved index), and open the message
//! log with the welcome line.

use vstd::prelude::*;
use crate::connect::reachable;
use crate::dungeon::{
    GenConfig, blockers_distinct, make_map, monsters_ok, room_in_grid, rooms_connected, rooms_ok,
    lemma_center_in_interior,
};
use crate::entity::{Color, Object, PLAYER_ID, make_player, objs_v, spec_player};
use crate::geometry::{Rect, in_interior, lemma_disjoint_interiors, spec_center};
use crate::log::{MSG_HEIGHT, Messages, log_message};
use crate::movement::{all_wf, placed};
use crate::rng::rng_from_seed;
use crate::tiles::{Tile, TileGrid};
use crate::turn::state_wf;

verus! {

/// Start a new session: generate a dungeon from the seed, insert the
/// player at the reserved index on the start position, and greet. The
/// same seed reproduces the same session.
pub fn new_game(cfg: GenConfig, seed: u64) -> (r: (
    TileGrid,
    Vec<Object>,
    Messages,
    (i32, i32),
    Vec<Rect>,
))
    requires
        cfg.wf(),
    ensures
        state_wf(r.0, objs_v(r.1@)),
        r.0.width == cfg.width,
        r.0.height == cfg.height,
        1 <= r.4@.len() <= cfg.max_rooms,
        rooms_ok(r.0, r.4@),
        rooms_connected(r.0, r.4@),
        (r.3.0 as int, r.3.1 as int) == spec_center(r.4@[0]),
        forall|i: int, x: int, y: int|
            #![trigger in_interior(r.4@[i], x, y)]
            0 <= i < r.4@.len() && in_interior(r.4@[i], x, y) ==> reachable(
                r.0,
                (r.3.0 as int, r.3.1 as int),
                (x, y),
            ),
        r.1@.len() >= 1,
        r.1@[PLAYER_ID as int]@ == spec_player(r.3.0 as int, r.3.1 as int),
        monsters_ok(objs_v(r.1@).drop_first(), r.4@),
        blockers_distinct(objs_v(r.1@)),
        r.4@.len() == 1 ==> r.1@.len() == 1,
        r.2.wf(),
        r.2.capacity() == MSG_HEIGHT,
        r.2@ =~= seq![
            (
                "Welcome stranger! Prepare to perish in the Tombs of the Ancient Kings."@,
                Color::spec_red(),
            ),
        ],
{
    let mut rng = rng_from_seed(seed);
    let mut objects: Vec<Object> = Vec::new();
    let (grid, start, rooms) = make_map(cfg, &mut objects, &mut rng);
    let ghost monsters = objs_v(objects@);
    let ghost pre = objects@;
    let player = make_player(start.0, start.1);
    objects.insert(0, player);
    proof {
        assert(objects@ == pre.insert(0, player));
        assert(objs_v(objects@) =~= monsters.insert(0, player@));
        assert(objs_v(objects@).drop_first() =~= monsters);

        // The player stands on the start tile, which the generator carved.
        lemma_center_in_interior(rooms@[0]);
        assert(room_in_grid(grid, rooms@[0]));
        assert(in_interior(rooms@[0], start.0 as int, start.1 as int));
        assert(grid.tile_at(start.0 as int, start.1 as int) == Tile::spec_empty());
        assert(placed(grid, player@));

        assert forall|k: int| 0 <= k < objs_v(objects@).len() implies placed(
            grid,
            #[trigger] objs_v(objects@)[k],
        ) && objs_v(objects@)[k].wf() by {
            if k > 0 {
                assert(objs_v(objects@)[k] == monsters[k - 1]);
                assert(placed(grid, monsters[k - 1]));
                assert(all_wf(monsters));
                assert(monsters[k - 1].wf());
            }
        }

        // The player shares a cell with no monster: monsters live in the
        // interiors of later rooms, which do not overlap the first room.
        assert forall|i: int, j: int|
            0 <= i < j < objs_v(objects@).len() && !(#[trigger] objs_v(objects@)[i]).traversable
                && !(#[trigger] objs_v(objects@)[j]).traversable implies !(objs_v(objects@)[i].x
            == objs_v(objects@)[j].x && objs_v(objects@)[i].y == objs_v(objects@)[j].y) by {
            if i == 0 {
                let m = objs_v(objects@)[j];
                assert(m == monsters[j - 1]);
                let k = choose|k: int|
                    1 <= k < rooms@.len() && in_interior(#[trigger] rooms@[k], m.x, m.y);
                assert(!crate::geometry::rects_overlap(rooms@[0], rooms@[k]));
                lemma_disjoint_interiors(rooms@[k], rooms@[0], m.x, m.y);
                assert(!in_interior(rooms@[0], m.x, m.y));
            } else {
                assert(objs_v(objects@)[i] == monsters[i - 1]);
                assert(objs_v(objects@)[j] == monsters[j - 1]);
                assert(blockers_distinct(monsters));
            }
        }
    }
    let mut messages = Messages::new(MSG_HEIGHT);
    log_message(
        &mut messages,
        "Welcome stranger! Prepare to perish in the Tombs of the Ancient Kings.".to_owned(),
        Color::red(),
    );
    proof {
        assert(messages@ =~= seq![
            (
                "Welcome stranger! Prepare to perish in the Tombs of the Ancient Kings."@,
                Color::spec_red(),
            ),
        ]);
    }
    (grid, objects, messages, start, rooms)
}

} // verus!
