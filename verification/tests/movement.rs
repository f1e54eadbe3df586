use roguelike::entity::{Ai, Color, DeathCallback, Fighter, Object};
use roguelike::geometry::Rect;
use roguelike::log::Messages;
use roguelike::movement::{is_traversable, move_by, move_by_or_attack, move_towards};
use roguelike::tiles::{TileGrid, create_room};

/// A grid of the given size whose whole inner area is one carved room.
fn open_arena(width: i32, height: i32) -> TileGrid {
    let mut grid = TileGrid::new(width, height);
    create_room(Rect { x1: 0, y1: 0, x2: width - 1, y2: height - 1 }, &mut grid);
    grid
}

fn blocker_at(x: i32, y: i32) -> Object {
    let mut orc = Object::new(x, y, 'o', "orc", Color::desaturated_green(), false);
    orc.fighter = Some(Fighter { max_hp: 10, hp: 10, defence: 0, power: 3, on_death: DeathCallback::Monster });
    orc.ai = Some(Ai);
    orc.alive = true;
    orc
}

#[test]
fn occupancy_exclusion() {
    // A cell occupied by a blocking entity is not traversable; an empty
    // carved cell is; a corpse (non-blocking) does not block.
    let grid = open_arena(5, 5);
    let mut objects: Vec<Object> = Vec::new();

    assert!(is_traversable(2, 2, &grid, &objects));
    // Walls are never traversable.
    assert!(!is_traversable(0, 0, &grid, &objects));

    objects.push(blocker_at(2, 2));
    assert!(!is_traversable(2, 2, &grid, &objects));
    assert!(is_traversable(2, 1, &grid, &objects));

    // A traversable (corpse) entity on the cell does not block it.
    let mut corpse = Object::new(3, 3, '%', "remains of orc", Color::dark_red(), true);
    corpse.alive = false;
    objects.push(corpse);
    assert!(is_traversable(3, 3, &grid, &objects));
}

#[test]
fn move_by_steps_or_discards() {
    let grid = open_arena(5, 5);
    let mut objects = vec![blocker_at(2, 2), blocker_at(3, 2)];

    // A step onto a free cell moves the entity.
    move_by(0, 0, 1, &grid, &mut objects);
    assert_eq!(objects[0].pos(), (2, 3));

    // A step onto a wall is silently discarded.
    move_by(0, 0, 1, &grid, &mut objects);
    assert_eq!(objects[0].pos(), (2, 3));

    // A step onto a blocking entity is silently discarded.
    move_by(0, 1, -1, &grid, &mut objects);
    assert_eq!(objects[0].pos(), (2, 3));
}

#[test]
fn move_towards_rounds_each_component() {
    let grid = open_arena(9, 9);

    // Straight line: the step is orthogonal.
    let mut objects = vec![blocker_at(1, 1)];
    move_towards(0, 5, 1, &grid, &mut objects);
    assert_eq!(objects[0].pos(), (2, 1));

    // Exact diagonal: both components round to one.
    let mut objects = vec![blocker_at(1, 1)];
    move_towards(0, 5, 5, &grid, &mut objects);
    assert_eq!(objects[0].pos(), (2, 2));

    // Shallow slope: the small component rounds to zero.
    let mut objects = vec![blocker_at(1, 1)];
    move_towards(0, 4, 2, &grid, &mut objects);
    assert_eq!(objects[0].pos(), (2, 1));

    // Steep slope, negative direction.
    let mut objects = vec![blocker_at(4, 5)];
    move_towards(0, 4, 1, &grid, &mut objects);
    assert_eq!(objects[0].pos(), (4, 4));
}

#[test]
fn move_or_attack_prefers_fighters() {
    let grid = open_arena(7, 7);
    let mut messages = Messages::new(6);

    // A fighter on the target cell is attacked instead of stepped onto.
    let mut player = Object::new(2, 2, '@', "player", Color::white(), false);
    player.fighter = Some(Fighter { max_hp: 30, hp: 30, defence: 2, power: 5, on_death: DeathCallback::Player });
    player.alive = true;
    let mut objects = vec![player, blocker_at(3, 2)];

    move_by_or_attack(0, 1, 0, &grid, &mut objects, &mut messages);
    assert_eq!(objects[0].pos(), (2, 2));
    assert_eq!(objects[1].fighter.unwrap().hp, 5);
    assert_eq!(messages.len(), 1);
    assert_eq!(messages.line(0).0, "player attacks orc for 5 hit points!");

    // With no fighter on the target cell the entity simply moves.
    move_by_or_attack(0, 0, 1, &grid, &mut objects, &mut messages);
    assert_eq!(objects[0].pos(), (2, 3));
    assert_eq!(messages.len(), 1);
}
