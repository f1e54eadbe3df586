use roguelike::ai::ai_take_turn;
use roguelike::entity::{Ai, Color, DeathCallback, Fighter, Object, make_player};
use roguelike::fov::{Visibility, update_explored};
use roguelike::geometry::Rect;
use roguelike::log::Messages;
use roguelike::tiles::{TileGrid, create_room};
use roguelike::turn::{PlayerAction, PlayerIntent, game_tick};

fn open_arena(width: i32, height: i32) -> TileGrid {
    let mut grid = TileGrid::new(width, height);
    create_room(Rect { x1: 0, y1: 0, x2: width - 1, y2: height - 1 }, &mut grid);
    grid
}

fn all_visible(width: i32, height: i32) -> Visibility {
    let mut vis = Visibility::new(width, height);
    for x in 0..width {
        for y in 0..height {
            vis.set(x, y, true);
        }
    }
    vis
}

fn monster_at(x: i32, y: i32) -> Object {
    let mut orc = Object::new(x, y, 'o', "orc", Color::desaturated_green(), false);
    orc.fighter = Some(Fighter { max_hp: 10, hp: 10, defence: 0, power: 3, on_death: DeathCallback::Monster });
    orc.ai = Some(Ai);
    orc.alive = true;
    orc
}

#[test]
fn invisible_monster_waits() {
    let grid = open_arena(9, 9);
    let mut objects = vec![make_player(2, 2), monster_at(6, 2)];
    let mut messages = Messages::new(6);

    ai_take_turn(1, &grid, &mut objects, &mut messages, false);
    assert_eq!(objects[1].pos(), (6, 2));
    assert_eq!(messages.len(), 0);
}

#[test]
fn distant_monster_approaches() {
    let grid = open_arena(9, 9);
    let mut objects = vec![make_player(2, 2), monster_at(6, 2)];
    let mut messages = Messages::new(6);

    ai_take_turn(1, &grid, &mut objects, &mut messages, true);
    assert_eq!(objects[1].pos(), (5, 2));
    assert_eq!(messages.len(), 0);
}

#[test]
fn adjacent_monster_attacks() {
    let grid = open_arena(9, 9);
    let mut objects = vec![make_player(2, 2), monster_at(3, 2)];
    let mut messages = Messages::new(6);

    ai_take_turn(1, &grid, &mut objects, &mut messages, true);
    assert_eq!(objects[1].pos(), (3, 2));
    // Damage is the orc's power 3 minus the player's defence 2.
    assert_eq!(objects[0].fighter.unwrap().hp, 29);
    assert_eq!(messages.len(), 1);
    assert_eq!(messages.line(0).0, "orc attacks player for 1 hit points!");
}

#[test]
fn tick_exit_changes_nothing() {
    let grid = open_arena(9, 9);
    let vis = all_visible(9, 9);
    let mut objects = vec![make_player(2, 2), monster_at(3, 2)];
    let mut messages = Messages::new(6);

    let action = game_tick(PlayerIntent::Exit, &grid, &vis, &mut objects, &mut messages);
    assert_eq!(action, PlayerAction::Exit);
    assert_eq!(objects[0].pos(), (2, 2));
    assert_eq!(objects[0].fighter.unwrap().hp, 30);
    assert_eq!(messages.len(), 0);
}

#[test]
fn tick_wait_takes_no_turn() {
    let grid = open_arena(9, 9);
    let vis = all_visible(9, 9);
    let mut objects = vec![make_player(2, 2), monster_at(3, 2)];
    let mut messages = Messages::new(6);

    let action = game_tick(PlayerIntent::WaitOrOther, &grid, &vis, &mut objects, &mut messages);
    assert_eq!(action, PlayerAction::DidntTakeTurn);
    // The monsters do not act on a turn that was not taken.
    assert_eq!(objects[0].fighter.unwrap().hp, 30);
    assert_eq!(messages.len(), 0);
}

#[test]
fn tick_move_runs_growls_and_monster_turns() {
    let grid = open_arena(9, 9);
    let vis = all_visible(9, 9);
    let mut objects = vec![make_player(2, 2), monster_at(5, 2)];
    let mut messages = Messages::new(6);

    let action = game_tick(
        PlayerIntent::Move { dx: 0, dy: 1 },
        &grid,
        &vis,
        &mut objects,
        &mut messages,
    );
    assert_eq!(action, PlayerAction::TookTurn);
    // The player stepped; the nearby fighter growled; the visible monster
    // closed the distance toward the player.
    assert_eq!(objects[0].pos(), (2, 3));
    assert_eq!(messages.len(), 1);
    assert_eq!(messages.line(0).0, "The orc growls!");
    assert_eq!(messages.line(0).1, Color::dark_red());
    assert_eq!(objects[1].pos(), (4, 2));
}

#[test]
fn tick_move_into_monster_attacks() {
    let grid = open_arena(9, 9);
    let vis = all_visible(9, 9);
    let mut objects = vec![make_player(2, 2), monster_at(3, 2)];
    let mut messages = Messages::new(6);

    let action = game_tick(
        PlayerIntent::Move { dx: 1, dy: 0 },
        &grid,
        &vis,
        &mut objects,
        &mut messages,
    );
    assert_eq!(action, PlayerAction::TookTurn);
    // The player attacked instead of moving; the orc growled; then it
    // struck back.
    assert_eq!(objects[0].pos(), (2, 2));
    assert_eq!(objects[1].fighter.unwrap().hp, 5);
    assert_eq!(objects[0].fighter.unwrap().hp, 29);
    assert_eq!(messages.len(), 3);
    assert_eq!(messages.line(0).0, "player attacks orc for 5 hit points!");
    assert_eq!(messages.line(1).0, "The orc growls!");
    assert_eq!(messages.line(2).0, "orc attacks player for 1 hit points!");
}

#[test]
fn tick_ignores_input_while_player_dead() {
    let grid = open_arena(9, 9);
    let vis = all_visible(9, 9);
    let mut player = make_player(2, 2);
    player.alive = false;
    let mut objects = vec![player, monster_at(3, 2)];
    let mut messages = Messages::new(6);

    let action = game_tick(
        PlayerIntent::Move { dx: 1, dy: 0 },
        &grid,
        &vis,
        &mut objects,
        &mut messages,
    );
    assert_eq!(action, PlayerAction::DidntTakeTurn);
    assert_eq!(objects[0].pos(), (2, 2));
    assert_eq!(messages.len(), 0);
}

#[test]
fn blocked_move_still_consumes_turn() {
    // Stepping into a wall is discarded, but the attempted move still
    // counts as a taken turn, so the monsters act.
    let grid = open_arena(9, 9);
    let vis = all_visible(9, 9);
    let mut objects = vec![make_player(1, 1), monster_at(5, 1)];
    let mut messages = Messages::new(6);

    let action = game_tick(
        PlayerIntent::Move { dx: -1, dy: 0 },
        &grid,
        &vis,
        &mut objects,
        &mut messages,
    );
    assert_eq!(action, PlayerAction::TookTurn);
    assert_eq!(objects[0].pos(), (1, 1));
    assert_eq!(objects[1].pos(), (4, 1));
}

#[test]
fn explored_flag_is_sticky() {
    let mut grid = open_arena(5, 5);
    let mut vis = Visibility::new(5, 5);
    vis.set(2, 2, true);

    update_explored(&mut grid, &vis);
    assert!(grid.get(2, 2).explored);
    assert!(!grid.get(1, 1).explored);

    // Once explored, a tile stays explored even when no longer visible.
    vis.set(2, 2, false);
    update_explored(&mut grid, &vis);
    assert!(grid.get(2, 2).explored);
}
