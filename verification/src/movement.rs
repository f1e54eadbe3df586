//! Movement and occupancy: whether a cell can be stepped onto, plain
//! movement, movement-or-attack resolution, and the one-step pursuit used
//! by the monster AI.

use vstd::prelude::*;
use crate::entity::{Object, ObjectV, objs_v, lemma_objs_v_update};
use crate::combat::{spec_power, spec_defence, v_take_damage, v_take_damage_msgs};
use crate::log::{Messages, log_push};
use crate::text::{attack_hit_msg, attack_no_effect_msg};
use crate::tiles::{TileGrid, walled};

verus! {

/// `o` stands at `(x, y)` and prevents movement onto that cell.
pub open spec fn blocks(o: ObjectV, x: int, y: int) -> bool {
    !o.traversable && o.x == x && o.y == y
}

/// Some entity in the store blocks the cell `(x, y)`.
pub open spec fn occupied(objs: Seq<ObjectV>, x: int, y: int) -> bool {
    exists|i: int| 0 <= i < objs.len() && blocks(#[trigger] objs[i], x, y)
}

/// The cell `(x, y)` can be stepped onto: its tile is traversable and no
/// blocking entity stands on it.
pub open spec fn spec_is_traversable(g: TileGrid, objs: Seq<ObjectV>, x: int, y: int) -> bool {
    g.tile_at(x, y).traversable && !occupied(objs, x, y)
}

/// The entity stands on a traversable tile of the grid.
pub open spec fn placed(g: TileGrid, o: ObjectV) -> bool {
    g.in_bounds(o.x, o.y) && g.tile_at(o.x, o.y).traversable
}

/// Every entity in the store stands on a traversable tile.
pub open spec fn all_placed(g: TileGrid, objs: Seq<ObjectV>) -> bool {
    forall|i: int| 0 <= i < objs.len() ==> placed(g, #[trigger] objs[i])
}

/// Every entity in the store is well formed.
pub open spec fn all_wf(objs: Seq<ObjectV>) -> bool {
    forall|i: int| 0 <= i < objs.len() ==> (#[trigger] objs[i]).wf()
}

/// On a grid whose border is walls, an entity on a traversable tile stands
/// strictly inside the border, so any one-cell step stays on the grid.
pub proof fn lemma_placed_interior(g: TileGrid, o: ObjectV)
    requires
        g.wf(),
        walled(g),
        placed(g, o),
    ensures
        1 <= o.x < g.width - 1,
        1 <= o.y < g.height - 1,
{
    assert(!(g.tile_at(o.x, o.y)).traversable ==> false);
}

/// Whether the cell can be stepped onto: the tile must be traversable and
/// no blocking entity may stand there.
pub fn is_traversable(x: i32, y: i32, grid: &TileGrid, objects: &Vec<Object>) -> (r: bool)
    requires
        grid.wf(),
        grid.in_bounds(x as int, y as int),
    ensures
        r == spec_is_traversable(*grid, objs_v(objects@), x as int, y as int),
{
    if !grid.get(x, y).traversable {
        return false;
    }
    let n = objects.len();
    let mut i: usize = 0;
    while i < n
        invariant
            n == objects@.len(),
            i <= n,
            forall|j: int| 0 <= j < i ==> !blocks(#[trigger] objs_v(objects@)[j], x as int, y as int),
        decreases n - i,
    {
        let o = &objects[i];
        if !o.traversable && o.x == x && o.y == y {
            proof {
                assert(blocks(objs_v(objects@)[i as int], x as int, y as int));
            }
            return false;
        }
        i = i + 1;
    }
    true
}

/// The store after `move_by`: the entity steps to the target cell if that
/// cell can be stepped onto, and stays put otherwise.
pub open spec fn v_move_by(g: TileGrid, objs: Seq<ObjectV>, id: int, dx: int, dy: int) -> Seq<
    ObjectV,
> {
    let o = objs[id];
    let nx = o.x + dx;
    let ny = o.y + dy;
    if spec_is_traversable(g, objs, nx, ny) {
        objs.update(id, ObjectV { x: nx, y: ny, ..o })
    } else {
        objs
    }
}

/// Move the entity by the given one-cell delta if the target cell can be
/// stepped onto; otherwise the move is silently discarded.
pub fn move_by(id: usize, dx: i32, dy: i32, grid: &TileGrid, objects: &mut Vec<Object>)
    requires
        grid.wf(),
        walled(*grid),
        id < old(objects)@.len(),
        -1 <= dx <= 1,
        -1 <= dy <= 1,
        placed(*grid, old(objects)@[id as int]@),
    ensures
        final(objects)@.len() == old(objects)@.len(),
        objs_v(final(objects)@) == v_move_by(*grid, objs_v(old(objects)@), id as int, dx as int, dy as int),
        placed(*grid, final(objects)@[id as int]@),
        forall|k: int|
            0 <= k < old(objects)@.len() && k != id ==> final(objects)@[k] == old(objects)@[k],
{
    proof {
        lemma_placed_interior(*grid, objects@[id as int]@);
    }
    let x = objects[id].x;
    let y = objects[id].y;
    let nx = x + dx;
    let ny = y + dy;
    if is_traversable(nx, ny, grid, objects) {
        let mut o = objects[id].duplicate();
        o.set_pos(nx, ny);
        objects.set(id, o);
        proof {
            lemma_objs_v_update(old(objects)@, id as int, o);
        }
    }
}

/// The first entity with a fighter block standing at `(x, y)`, scanning
/// the store in index order.
pub open spec fn first_fighter_at(objs: Seq<ObjectV>, x: int, y: int) -> Option<int>
    decreases objs.len(),
{
    if objs.len() == 0 {
        None
    } else if objs[0].fighter is Some && objs[0].x == x && objs[0].y == y {
        Some(0)
    } else {
        match first_fighter_at(objs.drop_first(), x, y) {
            Some(k) => Some(k + 1),
            None => None,
        }
    }
}

/// `o` has a fighter block and stands at `(x, y)`.
pub open spec fn fighter_at(o: ObjectV, x: int, y: int) -> bool {
    o.fighter is Some && o.x == x && o.y == y
}

/// What `first_fighter_at` finds: the lowest index whose entity has a
/// fighter block at the cell, or nothing if there is none.
pub proof fn lemma_first_fighter_at(objs: Seq<ObjectV>, x: int, y: int)
    ensures
        match first_fighter_at(objs, x, y) {
            Some(k) => 0 <= k < objs.len() && fighter_at(objs[k], x, y) && forall|m: int|
                0 <= m < k ==> !fighter_at(#[trigger] objs[m], x, y),
            None => forall|m: int| 0 <= m < objs.len() ==> !fighter_at(#[trigger] objs[m], x, y),
        },
    decreases objs.len(),
{
    if objs.len() == 0 {
    } else if fighter_at(objs[0], x, y) {
    } else {
        let rest = objs.drop_first();
        lemma_first_fighter_at(rest, x, y);
        match first_fighter_at(rest, x, y) {
            Some(k) => {
                assert(first_fighter_at(objs, x, y) == Some(k + 1));
                assert(objs[k + 1] == rest[k]);
                assert forall|m: int| 0 <= m < k + 1 implies !fighter_at(
                    #[trigger] objs[m],
                    x,
                    y,
                ) by {
                    if m > 0 {
                        assert(objs[m] == rest[m - 1]);
                    }
                }
            },
            None => {
                assert forall|m: int| 0 <= m < objs.len() implies !fighter_at(
                    #[trigger] objs[m],
                    x,
                    y,
                ) by {
                    if m > 0 {
                        assert(objs[m] == rest[m - 1]);
                    }
                }
            },
        }
    }
}

/// The store after an attack from entity `i` on entity `j`: positive
/// damage is applied to `j`; otherwise nothing changes.
pub open spec fn v_attack_objs(objs: Seq<ObjectV>, i: int, j: int) -> Seq<ObjectV> {
    let dmg = spec_power(objs[i]) - spec_defence(objs[j]);
    if dmg > 0 {
        objs.update(j, v_take_damage(objs[j], dmg))
    } else {
        objs
    }
}

/// The log after an attack from entity `i` on entity `j`: the hit line
/// followed by any death line, or the "no effect" line.
pub open spec fn v_attack_msgs(
    objs: Seq<ObjectV>,
    i: int,
    j: int,
    log: Seq<(Seq<char>, crate::entity::Color)>,
    cap: nat,
) -> Seq<(Seq<char>, crate::entity::Color)> {
    let dmg = spec_power(objs[i]) - spec_defence(objs[j]);
    if dmg > 0 {
        v_take_damage_msgs(
            objs[j],
            dmg,
            log_push(
                log,
                (attack_hit_msg(objs[i].name, objs[j].name, dmg as nat), crate::entity::Color::spec_white()),
                cap,
            ),
            cap,
        )
    } else {
        log_push(
            log,
            (attack_no_effect_msg(objs[i].name, objs[j].name), crate::entity::Color::spec_white()),
            cap,
        )
    }
}

/// Resolve an attack between two distinct entities of the store, by index.
/// This is the store's disjoint-access primitive: the two indices must
/// differ, which its precondition demands instead of risking aliasing.
pub fn attack_at(
    objects: &mut Vec<Object>,
    attacker_id: usize,
    defender_id: usize,
    messages: &mut Messages,
)
    requires
        attacker_id < old(objects)@.len(),
        defender_id < old(objects)@.len(),
        attacker_id != defender_id,
        old(objects)@[attacker_id as int]@.wf(),
        old(objects)@[defender_id as int]@.wf(),
        old(messages).wf(),
    ensures
        final(objects)@.len() == old(objects)@.len(),
        objs_v(final(objects)@) == v_attack_objs(
            objs_v(old(objects)@),
            attacker_id as int,
            defender_id as int,
        ),
        final(objects)@[defender_id as int]@.wf(),
        forall|k: int|
            0 <= k < old(objects)@.len() && k != defender_id ==> final(objects)@[k] == old(
                objects,
            )@[k],
        final(messages).wf(),
        final(messages).capacity() == old(messages).capacity(),
        final(messages)@ == v_attack_msgs(
            objs_v(old(objects)@),
            attacker_id as int,
            defender_id as int,
            old(messages)@,
            old(messages).capacity(),
        ),
{
    let mut attacker = objects[attacker_id].duplicate();
    let mut defender = objects[defender_id].duplicate();
    attacker.attack(&mut defender, messages);
    objects.set(defender_id, defender);
    proof {
        lemma_objs_v_update(old(objects)@, defender_id as int, defender);
        if spec_power(objs_v(old(objects)@)[attacker_id as int]) - spec_defence(
            objs_v(old(objects)@)[defender_id as int],
        ) <= 0 {
            assert(objs_v(old(objects)@).update(defender_id as int, defender@) =~= objs_v(
                old(objects)@,
            ));
        }
    }
}

/// The store after movement-or-attack: if some entity with a fighter block
/// stands on the target cell, the mover attacks the first such entity
/// instead of moving; otherwise it makes a plain move.
pub open spec fn v_move_or_attack_objs(
    g: TileGrid,
    objs: Seq<ObjectV>,
    id: int,
    dx: int,
    dy: int,
) -> Seq<ObjectV> {
    let x = objs[id].x + dx;
    let y = objs[id].y + dy;
    match first_fighter_at(objs, x, y) {
        Some(t) => v_attack_objs(objs, id, t),
        None => v_move_by(g, objs, id, dx, dy),
    }
}

/// The log after movement-or-attack: attack lines if a target was found,
/// nothing otherwise (a blocked or plain move logs nothing).
pub open spec fn v_move_or_attack_msgs(
    objs: Seq<ObjectV>,
    id: int,
    dx: int,
    dy: int,
    log: Seq<(Seq<char>, crate::entity::Color)>,
    cap: nat,
) -> Seq<(Seq<char>, crate::entity::Color)> {
    let x = objs[id].x + dx;
    let y = objs[id].y + dy;
    match first_fighter_at(objs, x, y) {
        Some(t) => v_attack_msgs(objs, id, t, log, cap),
        None => log,
    }
}

/// Find the first entity with a fighter block standing at `(x, y)`.
fn find_fighter_at(objects: &Vec<Object>, x: i32, y: i32) -> (r: Option<usize>)
    ensures
        match r {
            Some(t) => t < objects@.len() && first_fighter_at(
                objs_v(objects@),
                x as int,
                y as int,
            ) == Some(t as int),
            None => first_fighter_at(objs_v(objects@), x as int, y as int) is None,
        },
{
    proof {
        lemma_first_fighter_at(objs_v(objects@), x as int, y as int);
    }
    let n = objects.len();
    let mut i: usize = 0;
    while i < n
        invariant
            n == objects@.len(),
            i <= n,
            forall|j: int| 0 <= j < i ==> !fighter_at(#[trigger] objs_v(objects@)[j], x as int, y as int),
        decreases n - i,
    {
        let o = &objects[i];
        if o.fighter.is_some() && o.x == x && o.y == y {
            proof {
                lemma_first_fighter_at(objs_v(objects@), x as int, y as int);
                assert(fighter_at(objs_v(objects@)[i as int], x as int, y as int));
                match first_fighter_at(objs_v(objects@), x as int, y as int) {
                    Some(k) => {
                        if k < i {
                            assert(!fighter_at(objs_v(objects@)[k], x as int, y as int));
                        } else if k > i {
                            assert(!fighter_at(objs_v(objects@)[i as int], x as int, y as int));
                        }
                    },
                    None => {
                        assert(!fighter_at(objs_v(objects@)[i as int], x as int, y as int));
                    },
                }
            }
            return Some(i);
        }
        i = i + 1;
    }
    proof {
        lemma_first_fighter_at(objs_v(objects@), x as int, y as int);
        if first_fighter_at(objs_v(objects@), x as int, y as int) is Some {
            let k = first_fighter_at(objs_v(objects@), x as int, y as int).unwrap();
            assert(!fighter_at(objs_v(objects@)[k], x as int, y as int));
        }
    }
    None
}

/// Move the entity by the given one-cell delta, or attack: if the target
/// cell holds an entity with a fighter block, resolve an attack against
/// the first such entity instead. An entity can never attack a
/// non-fighter obstacle; it is simply blocked.
pub fn move_by_or_attack(
    id: usize,
    dx: i32,
    dy: i32,
    grid: &TileGrid,
    objects: &mut Vec<Object>,
    messages: &mut Messages,
)
    requires
        grid.wf(),
        walled(*grid),
        id < old(objects)@.len(),
        -1 <= dx <= 1,
        -1 <= dy <= 1,
        !(dx == 0 && dy == 0),
        all_placed(*grid, objs_v(old(objects)@)),
        all_wf(objs_v(old(objects)@)),
        old(messages).wf(),
    ensures
        final(objects)@.len() == old(objects)@.len(),
        objs_v(final(objects)@) == v_move_or_attack_objs(
            *grid,
            objs_v(old(objects)@),
            id as int,
            dx as int,
            dy as int,
        ),
        all_placed(*grid, objs_v(final(objects)@)),
        all_wf(objs_v(final(objects)@)),
        final(messages).wf(),
        final(messages).capacity() == old(messages).capacity(),
        final(messages)@ == v_move_or_attack_msgs(
            objs_v(old(objects)@),
            id as int,
            dx as int,
            dy as int,
            old(messages)@,
            old(messages).capacity(),
        ),
{
    proof {
        lemma_placed_interior(*grid, objects@[id as int]@);
        lemma_first_fighter_at(
            objs_v(objects@),
            objects@[id as int]@.x + dx,
            objects@[id as int]@.y + dy,
        );
    }
    let x = objects[id].x + dx;
    let y = objects[id].y + dy;

    match find_fighter_at(objects, x, y) {
        Some(t) => {
            proof {
                lemma_first_fighter_at(objs_v(objects@), x as int, y as int);
                // The target stands on the stepped-to cell, the mover on its
                // own; a one-cell step with a nonzero delta changes the cell.
                assert(fighter_at(objs_v(objects@)[t as int], x as int, y as int));
                assert(objs_v(objects@)[t as int] == objects@[t as int]@);
                assert(objs_v(objects@)[id as int] == objects@[id as int]@);
                assert(t != id);
            }
            proof {
                assert(objs_v(objects@)[id as int].wf());
                assert(objs_v(objects@)[t as int].wf());
            }
            let ghost pre = objects@;
            attack_at(objects, id, t, messages);
            proof {
                assert forall|k: int| 0 <= k < objs_v(objects@).len() implies (#[trigger] objs_v(
                    objects@,
                )[k]).wf() by {
                    assert(objs_v(objects@)[k] == objects@[k]@);
                    if k != t {
                        assert(objects@[k] == pre[k]);
                        assert(objs_v(pre)[k] == pre[k]@);
                        assert(objs_v(pre)[k].wf());
                    }
                }
                assert forall|k: int| 0 <= k < objs_v(objects@).len() implies placed(
                    *grid,
                    #[trigger] objs_v(objects@)[k],
                ) by {
                    assert(objs_v(objects@)[k] == objects@[k]@);
                    if k != t {
                        assert(objects@[k] == pre[k]);
                        assert(placed(*grid, objs_v(pre)[k]));
                    } else {
                        assert(placed(*grid, objs_v(pre)[k]));
                        assert(objs_v(objects@)[k].x == objs_v(pre)[k].x && objs_v(objects@)[k].y
                            == objs_v(pre)[k].y);
                    }
                }
            }
        },
        None => {
            proof {
                assert(placed(*grid, objs_v(objects@)[id as int]));
                assert(objs_v(objects@)[id as int] == objects@[id as int]@);
            }
            let ghost pre = objects@;
            move_by(id, dx, dy, grid, objects);
            proof {
                assert forall|k: int| 0 <= k < objs_v(objects@).len() implies placed(
                    *grid,
                    #[trigger] objs_v(objects@)[k],
                ) by {
                    if k != id {
                        assert(objects@[k] == pre[k]);
                        assert(placed(*grid, objs_v(pre)[k]));
                        assert(objs_v(pre)[k] == pre[k]@);
                    }
                }
                assert forall|k: int| 0 <= k < objs_v(objects@).len() implies (#[trigger] objs_v(
                    objects@,
                )[k]).wf() by {
                    assert(objs_v(objects@)[k] == objects@[k]@);
                    assert(objs_v(pre)[k] == pre[k]@);
                    assert(objs_v(objects@)[k].fighter == objs_v(pre)[k].fighter);
                    assert(objs_v(pre)[k].wf());
                }
            }
        },
    }
}

/// The one-cell step toward a target along one axis: the nearest-integer
/// rounding of that component of the unit displacement vector, computed
/// exactly in integers. The component rounds away from zero (to `1` or
/// `-1`) exactly when `3 a^2 >= b^2`, where `a` is this axis's displacement
/// and `b` the other's.
pub open spec fn step_component(a: int, b: int) -> int {
    if 3 * a * a >= b * b {
        if a > 0 {
            1
        } else if a < 0 {
            -1
        } else {
            0
        }
    } else {
        0
    }
}

/// The store after one step of straight-line pursuit toward `(tx, ty)`.
pub open spec fn v_move_towards(
    g: TileGrid,
    objs: Seq<ObjectV>,
    id: int,
    tx: int,
    ty: int,
) -> Seq<ObjectV> {
    let dx = tx - objs[id].x;
    let dy = ty - objs[id].y;
    v_move_by(g, objs, id, step_component(dx, dy), step_component(dy, dx))
}

/// One step of straight-line pursuit: normalize the displacement vector to
/// the target and round each component independently to the nearest integer
/// in `{-1, 0, 1}` (which can give a diagonal, orthogonal, or degenerate
/// zero-length step), then move by that delta if the cell allows it.
pub fn move_towards(id: usize, target_x: i32, target_y: i32, grid: &TileGrid, objects: &mut Vec<
    Object,
>)
    requires
        grid.wf(),
        walled(*grid),
        id < old(objects)@.len(),
        0 <= target_x,
        0 <= target_y,
        placed(*grid, old(objects)@[id as int]@),
    ensures
        final(objects)@.len() == old(objects)@.len(),
        objs_v(final(objects)@) == v_move_towards(
            *grid,
            objs_v(old(objects)@),
            id as int,
            target_x as int,
            target_y as int,
        ),
        placed(*grid, final(objects)@[id as int]@),
        forall|k: int|
            0 <= k < old(objects)@.len() && k != id ==> final(objects)@[k] == old(objects)@[k],
{
    let ox = objects[id].x;
    let oy = objects[id].y;
    let dx: i64 = target_x as i64 - ox as i64;
    let dy: i64 = target_y as i64 - oy as i64;
    let a: i128 = dx as i128;
    let b: i128 = dy as i128;
    proof {
        assert(0 <= a * a <= 0x4000000000000000 && 0 <= b * b <= 0x4000000000000000 && 0 <= 3 * a
            * a <= 0xc000000000000000 && 0 <= 3 * b * b <= 0xc000000000000000)
            by (nonlinear_arith)
            requires
                -0x80000000 <= a <= 0x80000000,
                -0x80000000 <= b <= 0x80000000,
        ;
    }
    let sx: i32 = if 3 * a * a >= b * b {
        if dx > 0 {
            1
        } else if dx < 0 {
            -1
        } else {
            0
        }
    } else {
        0
    };
    let sy: i32 = if 3 * b * b >= a * a {
        if dy > 0 {
            1
        } else if dy < 0 {
            -1
        } else {
            0
        }
    } else {
        0
    };
    move_by(id, sx, sy, grid, objects);
}

} // verus!
