//! The per-monster decision procedure: a monster whose tile is not
//! currently visible does nothing (visibility is symmetric in this design:
//! if you can see it, it can see you); a visible monster approaches the
//! player while the Euclidean distance is at least 2, and attacks once it
//! is closer.

use vstd::prelude::*;
use crate::entity::{Color, Object, ObjectV, PLAYER_ID, dist_sq, objs_v};
use crate::log::Messages;
use crate::movement::{
    all_placed, all_wf, attack_at, move_towards, placed, v_attack_msgs, v_attack_objs,
    v_move_towards,
};
use crate::tiles::{TileGrid, walled};

verus! {

/// The store after one monster's turn. The distance comparison against 2
/// is exact on squares: `distance >= 2` is `distance_sq >= 4`.
pub open spec fn v_ai_turn_objs(
    g: TileGrid,
    objs: Seq<ObjectV>,
    id: int,
    visible: bool,
) -> Seq<ObjectV> {
    if !visible {
        objs
    } else if dist_sq(objs[id].x, objs[id].y, objs[PLAYER_ID as int].x, objs[PLAYER_ID as int].y)
        >= 4 {
        v_move_towards(g, objs, id, objs[PLAYER_ID as int].x, objs[PLAYER_ID as int].y)
    } else {
        v_attack_objs(objs, id, PLAYER_ID as int)
    }
}

/// The log after one monster's turn: attack lines if it attacked.
pub open spec fn v_ai_turn_msgs(
    objs: Seq<ObjectV>,
    id: int,
    visible: bool,
    log: Seq<(Seq<char>, Color)>,
    cap: nat,
) -> Seq<(Seq<char>, Color)> {
    if !visible {
        log
    } else if dist_sq(objs[id].x, objs[id].y, objs[PLAYER_ID as int].x, objs[PLAYER_ID as int].y)
        >= 4 {
        log
    } else {
        v_attack_msgs(objs, id, PLAYER_ID as int, log, cap)
    }
}

/// One monster's turn. `visible` is the external field-of-view oracle's
/// answer for the monster's tile.
pub fn ai_take_turn(
    monster_id: usize,
    grid: &TileGrid,
    objects: &mut Vec<Object>,
    messages: &mut Messages,
    visible: bool,
)
    requires
        grid.wf(),
        walled(*grid),
        monster_id < old(objects)@.len(),
        monster_id != PLAYER_ID,
        PLAYER_ID < old(objects)@.len(),
        all_placed(*grid, objs_v(old(objects)@)),
        all_wf(objs_v(old(objects)@)),
        old(messages).wf(),
    ensures
        final(objects)@.len() == old(objects)@.len(),
        objs_v(final(objects)@) == v_ai_turn_objs(
            *grid,
            objs_v(old(objects)@),
            monster_id as int,
            visible,
        ),
        all_placed(*grid, objs_v(final(objects)@)),
        all_wf(objs_v(final(objects)@)),
        final(messages).wf(),
        final(messages).capacity() == old(messages).capacity(),
        final(messages)@ == v_ai_turn_msgs(
            objs_v(old(objects)@),
            monster_id as int,
            visible,
            old(messages)@,
            old(messages).capacity(),
        ),
{
    if !visible {
        return ;
    }
    proof {
        assert(placed(*grid, objs_v(objects@)[monster_id as int]));
        assert(placed(*grid, objs_v(objects@)[PLAYER_ID as int]));
        assert(objs_v(objects@)[monster_id as int] == objects@[monster_id as int]@);
        assert(objs_v(objects@)[PLAYER_ID as int] == objects@[PLAYER_ID as int]@);
    }
    let px = objects[PLAYER_ID].x;
    let py = objects[PLAYER_ID].y;
    let d = objects[monster_id].distance_sq_to(&objects[PLAYER_ID]);
    let ghost pre = objects@;
    if d >= 4 {
        // Move towards the player.
        move_towards(monster_id, px, py, grid, objects);
        proof {
            assert forall|k: int| 0 <= k < objs_v(objects@).len() implies placed(
                *grid,
                #[trigger] objs_v(objects@)[k],
            ) by {
                if k != monster_id {
                    assert(objects@[k] == pre[k]);
                    assert(placed(*grid, objs_v(pre)[k]));
                    assert(objs_v(pre)[k] == pre[k]@);
                }
            }
            assert forall|k: int| 0 <= k < objs_v(objects@).len() implies (#[trigger] objs_v(
                objects@,
            )[k]).wf() by {
                assert(objs_v(objects@)[k] == objects@[k]@);
                assert(objs_v(pre)[k] == pre[k]@);
                assert(objs_v(objects@)[k].fighter == objs_v(pre)[k].fighter);
                assert(objs_v(pre)[k].wf());
            }
        }
    } else {
        proof {
            assert(objs_v(objects@)[monster_id as int].wf());
            assert(objs_v(objects@)[PLAYER_ID as int].wf());
        }
        attack_at(objects, monster_id, PLAYER_ID, messages);
        proof {
            assert forall|k: int| 0 <= k < objs_v(objects@).len() implies (#[trigger] objs_v(
                objects@,
            )[k]).wf() by {
                assert(objs_v(objects@)[k] == objects@[k]@);
                if k != PLAYER_ID {
                    assert(objects@[k] == pre[k]);
                    assert(objs_v(pre)[k] == pre[k]@);
                    assert(objs_v(pre)[k].wf());
                }
            }
            assert forall|k: int| 0 <= k < objs_v(objects@).len() implies placed(
                *grid,
                #[trigger] objs_v(objects@)[k],
            ) by {
                assert(objs_v(objects@)[k] == objects@[k]@);
                if k != PLAYER_ID {
                    assert(objects@[k] == pre[k]);
                    assert(placed(*grid, objs_v(pre)[k]));
                    assert(objs_v(pre)[k] == pre[k]@);
                } else {
                    assert(placed(*grid, objs_v(pre)[k]));
                    assert(objs_v(objects@)[k].x == objs_v(pre)[k].x && objs_v(objects@)[k].y
                        == objs_v(pre)[k].y);
                }
            }
        }
    }
}

} // verus!
