//! The turn controller: one game tick. A player intent is classified as
//! taking a turn (movement or attack, even when the movement was blocked:
//! an attempted move always consumes the turn), not taking a turn (a
//! non-turn action, an unrecognized intent, or any intent while the player
//! is dead), or exiting. Only a taken turn makes the monsters act: nearby
//! fighters growl, then every entity with an AI marker takes its turn in
//! store order.

use vstd::prelude::*;
use crate::ai::{ai_take_turn, v_ai_turn_msgs, v_ai_turn_objs};
use crate::entity::{Color, Object, ObjectV, PLAYER_ID, dist_sq, objs_v};
use crate::fov::Visibility;
use crate::log::{Messages, log_message, log_push};
use crate::movement::{
    all_placed, all_wf, first_fighter_at, lemma_first_fighter_at, fighter_at, move_by_or_attack,
    placed, v_move_or_attack_msgs, v_move_or_attack_objs,
};
use crate::text::{growl_msg, growl_text};
use crate::tiles::{TileGrid, walled};

verus! {

/// What the embedding layer asks the engine to do with the player.
#[derive(Clone, Copy, Debug, PartialEq, Eq, Structural)]
pub enum PlayerIntent {
    /// Step (or attack) by one cell.
    Move { dx: i32, dy: i32 },
    /// A non-turn action (for example a view toggle) or unrecognized input.
    WaitOrOther,
    /// End the session.
    Exit,
}

/// How the engine classified the intent.
#[derive(Clone, Copy, Debug, PartialEq, Eq, Structural)]
pub enum PlayerAction {
    TookTurn,
    DidntTakeTurn,
    Exit,
}

/// A movement intent carries a one-cell, nonzero delta.
pub open spec fn intent_wf(intent: PlayerIntent) -> bool {
    match intent {
        PlayerIntent::Move { dx, dy } => -1 <= dx <= 1 && -1 <= dy <= 1 && !(dx == 0 && dy == 0),
        _ => true,
    }
}

/// The engine's running invariant: a well-formed, wall-bordered grid; a
/// non-empty store of well-formed entities standing on traversable tiles;
/// and no AI marker on the player.
pub open spec fn state_wf(g: TileGrid, objs: Seq<ObjectV>) -> bool {
    &&& g.wf()
    &&& walled(g)
    &&& 0 < objs.len()
    &&& all_placed(g, objs)
    &&& all_wf(objs)
    &&& objs[PLAYER_ID as int].ai is None
}

/// Entity `i` growls after the player's turn: it is a fighter other than
/// the player within Euclidean distance 5 of the player.
pub open spec fn growl_cond(objs: Seq<ObjectV>, i: int) -> bool {
    &&& i != PLAYER_ID
    &&& objs[i].fighter is Some
    &&& dist_sq(objs[i].x, objs[i].y, objs[PLAYER_ID as int].x, objs[PLAYER_ID as int].y) < 25
}

/// The log after the growl pass over the first `n` entities.
pub open spec fn v_growls_upto(
    objs: Seq<ObjectV>,
    log: Seq<(Seq<char>, Color)>,
    cap: nat,
    n: int,
) -> Seq<(Seq<char>, Color)>
    decreases n,
{
    if n <= 0 {
        log
    } else {
        let prev = v_growls_upto(objs, log, cap, n - 1);
        if growl_cond(objs, n - 1) {
            log_push(prev, (growl_msg(objs[n - 1].name), Color::spec_dark_red()), cap)
        } else {
            prev
        }
    }
}

/// The store and log after the first `n` entities have had their AI turn,
/// in store order. Each entity acts on the state its predecessors left.
pub open spec fn v_ai_round_upto(
    g: TileGrid,
    vis: Visibility,
    objs: Seq<ObjectV>,
    log: Seq<(Seq<char>, Color)>,
    cap: nat,
    n: int,
) -> (Seq<ObjectV>, Seq<(Seq<char>, Color)>)
    decreases n,
{
    if n <= 0 {
        (objs, log)
    } else {
        let r = v_ai_round_upto(g, vis, objs, log, cap, n - 1);
        let o1 = r.0;
        let l1 = r.1;
        let i = n - 1;
        if o1[i].ai is Some {
            let visible = vis.at(o1[i].x, o1[i].y);
            (v_ai_turn_objs(g, o1, i, visible), v_ai_turn_msgs(o1, i, visible, l1, cap))
        } else {
            (o1, l1)
        }
    }
}

/// One whole tick: classify the intent; on a taken turn, resolve the
/// player's movement-or-attack, run the growl pass, then the AI round.
pub open spec fn v_tick(
    intent: PlayerIntent,
    g: TileGrid,
    vis: Visibility,
    objs: Seq<ObjectV>,
    log: Seq<(Seq<char>, Color)>,
    cap: nat,
) -> (Seq<ObjectV>, Seq<(Seq<char>, Color)>, PlayerAction) {
    match intent {
        PlayerIntent::Exit => (objs, log, PlayerAction::Exit),
        PlayerIntent::WaitOrOther => (objs, log, PlayerAction::DidntTakeTurn),
        PlayerIntent::Move { dx, dy } => {
            if !objs[PLAYER_ID as int].alive {
                (objs, log, PlayerAction::DidntTakeTurn)
            } else {
                let o1 = v_move_or_attack_objs(g, objs, PLAYER_ID as int, dx as int, dy as int);
                let l1 = v_move_or_attack_msgs(objs, PLAYER_ID as int, dx as int, dy as int, log, cap);
                let l2 = v_growls_upto(o1, l1, cap, o1.len() as int);
                let r = v_ai_round_upto(g, vis, o1, l2, cap, o1.len() as int);
                (r.0, r.1, PlayerAction::TookTurn)
            }
        },
    }
}

/// The growl pass: every fighter other than the player within distance 5
/// of the player growls, in store order.
fn growl_pass(objects: &Vec<Object>, messages: &mut Messages)
    requires
        0 < objects@.len(),
        forall|k: int| 0 <= k < objects@.len() ==> 0 <= (#[trigger] objects@[k])@.x,
        forall|k: int| 0 <= k < objects@.len() ==> 0 <= (#[trigger] objects@[k])@.y,
        old(messages).wf(),
    ensures
        final(messages).wf(),
        final(messages).capacity() == old(messages).capacity(),
        final(messages)@ == v_growls_upto(
            objs_v(objects@),
            old(messages)@,
            old(messages).capacity(),
            objects@.len() as int,
        ),
{
    let n = objects.len();
    let mut i: usize = 0;
    while i < n
        invariant
            n == objects@.len(),
            0 < n,
            i <= n,
            forall|k: int| 0 <= k < objects@.len() ==> 0 <= (#[trigger] objects@[k])@.x,
            forall|k: int| 0 <= k < objects@.len() ==> 0 <= (#[trigger] objects@[k])@.y,
            messages.wf(),
            messages.capacity() == old(messages).capacity(),
            messages@ == v_growls_upto(
                objs_v(objects@),
                old(messages)@,
                old(messages).capacity(),
                i as int,
            ),
        decreases n - i,
    {
        proof {
            assert(objs_v(objects@)[i as int] == objects@[i as int]@);
            assert(objs_v(objects@)[PLAYER_ID as int] == objects@[PLAYER_ID as int]@);
        }
        if i != PLAYER_ID && objects[i].fighter.is_some() {
            let d = objects[i].distance_sq_to(&objects[PLAYER_ID]);
            if d < 25 {
                let text = growl_text(&objects[i].name);
                log_message(messages, text, Color::dark_red());
            }
        }
        i = i + 1;
    }
}

/// The AI round: every entity with an AI marker takes its turn, in store
/// order, each acting on the state its predecessors left.
fn ai_round(
    grid: &TileGrid,
    vis: &Visibility,
    objects: &mut Vec<Object>,
    messages: &mut Messages,
)
    requires
        state_wf(*grid, objs_v(old(objects)@)),
        vis.wf(),
        vis.width == grid.width,
        vis.height == grid.height,
        old(messages).wf(),
    ensures
        final(objects)@.len() == old(objects)@.len(),
        state_wf(*grid, objs_v(final(objects)@)),
        final(messages).wf(),
        final(messages).capacity() == old(messages).capacity(),
        (objs_v(final(objects)@), final(messages)@) == v_ai_round_upto(
            *grid,
            *vis,
            objs_v(old(objects)@),
            old(messages)@,
            old(messages).capacity(),
            old(objects)@.len() as int,
        ),
{
    let n = objects.len();
    let mut i: usize = 0;
    while i < n
        invariant
            n == objects@.len(),
            i <= n,
            grid.wf(),
            walled(*grid),
            vis.wf(),
            vis.width == grid.width,
            vis.height == grid.height,
            state_wf(*grid, objs_v(objects@)),
            messages.wf(),
            messages.capacity() == old(messages).capacity(),
            (objs_v(objects@), messages@) == v_ai_round_upto(
                *grid,
                *vis,
                objs_v(old(objects)@),
                old(messages)@,
                old(messages).capacity(),
                i as int,
            ),
        decreases n - i,
    {
        proof {
            assert(objs_v(objects@)[i as int] == objects@[i as int]@);
        }
        if objects[i].ai.is_some() {
            proof {
                assert(objs_v(objects@)[PLAYER_ID as int].ai is None);
                assert(placed(*grid, objs_v(objects@)[i as int]));
            }
            let mx = objects[i].x;
            let my = objects[i].y;
            let visible = vis.is_visible(mx, my);
            ai_take_turn(i, grid, objects, messages, visible);
            proof {
                assert(objs_v(objects@)[PLAYER_ID as int].ai is None);
            }
        }
        i = i + 1;
    }
}

/// One game tick, from a player intent to the action classification. A
/// movement intent consumes the turn even when the step itself was
/// blocked; any intent while the player is dead is ignored. Only a taken
/// turn runs the growl pass and the monsters' AI round; an exit intent
/// changes nothing.
pub fn game_tick(
    intent: PlayerIntent,
    grid: &TileGrid,
    vis: &Visibility,
    objects: &mut Vec<Object>,
    messages: &mut Messages,
) -> (action: PlayerAction)
    requires
        state_wf(*grid, objs_v(old(objects)@)),
        vis.wf(),
        vis.width == grid.width,
        vis.height == grid.height,
        old(messages).wf(),
        intent_wf(intent),
    ensures
        final(objects)@.len() == old(objects)@.len(),
        state_wf(*grid, objs_v(final(objects)@)),
        final(messages).wf(),
        final(messages).capacity() == old(messages).capacity(),
        ({
            let r = v_tick(
                intent,
                *grid,
                *vis,
                objs_v(old(objects)@),
                old(messages)@,
                old(messages).capacity(),
            );
            objs_v(final(objects)@) == r.0 && final(messages)@ == r.1 && action == r.2
        }),
{
    match intent {
        PlayerIntent::Exit => PlayerAction::Exit,
        PlayerIntent::WaitOrOther => PlayerAction::DidntTakeTurn,
        PlayerIntent::Move { dx, dy } => {
            proof {
                assert(objs_v(objects@)[PLAYER_ID as int] == objects@[PLAYER_ID as int]@);
            }
            if !objects[PLAYER_ID].alive {
                return PlayerAction::DidntTakeTurn;
            }
            let ghost pre = objs_v(objects@);
            move_by_or_attack(PLAYER_ID, dx, dy, grid, objects, messages);
            proof {
                // The player's AI marker stays absent: its own move keeps
                // every capability field, and as an attacker it is
                // unchanged (the attacked target stands on another cell,
                // so it is not the player).
                lemma_first_fighter_at(pre, pre[PLAYER_ID as int].x + dx, pre[PLAYER_ID as int].y + dy);
                match first_fighter_at(pre, pre[PLAYER_ID as int].x + dx, pre[PLAYER_ID as int].y + dy) {
                    Some(t) => {
                        assert(fighter_at(
                            pre[t],
                            pre[PLAYER_ID as int].x + dx,
                            pre[PLAYER_ID as int].y + dy,
                        ));
                        assert(t != PLAYER_ID);
                        assert(objs_v(objects@)[PLAYER_ID as int] == pre[PLAYER_ID as int]);
                    },
                    None => {},
                }
                assert(objs_v(objects@)[PLAYER_ID as int].ai is None);
                assert forall|k: int| 0 <= k < objects@.len() implies 0 <= (
                #[trigger] objects@[k])@.x && 0 <= objects@[k]@.y by {
                    assert(placed(*grid, objs_v(objects@)[k]));
                    assert(objs_v(objects@)[k] == objects@[k]@);
                }
            }
            growl_pass(objects, messages);
            ai_round(grid, vis, objects, messages);
            PlayerAction::TookTurn
        },
    }
}

} // verus!
