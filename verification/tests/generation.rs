use rand::SeedableRng;
use roguelike::dungeon::{GenConfig, make_map};
use roguelike::entity::Object;
use roguelike::game::new_game;
use roguelike::geometry::Rect;
use roguelike::tiles::TileGrid;

fn interior_cells(room: &Rect) -> Vec<(i32, i32)> {
    let mut cells = Vec::new();
    for x in (room.x1 + 1)..room.x2 {
        for y in (room.y1 + 1)..room.y2 {
            cells.push((x, y));
        }
    }
    cells
}

/// Breadth-first search over traversable tiles, eight-directional like
/// movement.
fn reachable_cells(grid: &TileGrid, start: (i32, i32)) -> Vec<Vec<bool>> {
    let w = grid.width as usize;
    let h = grid.height as usize;
    let mut seen = vec![vec![false; h]; w];
    let mut queue = vec![start];
    seen[start.0 as usize][start.1 as usize] = true;
    while let Some((x, y)) = queue.pop() {
        for dx in -1i32..=1 {
            for dy in -1i32..=1 {
                if dx == 0 && dy == 0 {
                    continue;
                }
                let nx = x + dx;
                let ny = y + dy;
                if nx >= 0 && nx < grid.width && ny >= 0 && ny < grid.height {
                    if !seen[nx as usize][ny as usize] && grid.get(nx, ny).traversable {
                        seen[nx as usize][ny as usize] = true;
                        queue.push((nx, ny));
                    }
                }
            }
        }
    }
    seen
}

#[test]
fn single_room_scenario() {
    // maxRooms = 1, roomMinSize = roomMaxSize = 6, a 10x10 grid: exactly
    // one room is placed, the start position is its center, and no
    // monsters spawn (monsters only spawn from the second room onward).
    let cfg = GenConfig {
        width: 10,
        height: 10,
        max_rooms: 1,
        room_min_size: 6,
        room_max_size: 6,
        max_room_monsters: 3,
    };
    let mut rng = rand::rngs::StdRng::seed_from_u64(11);
    let mut objects: Vec<Object> = Vec::new();
    let (grid, start, rooms) = make_map(cfg, &mut objects, &mut rng);

    assert_eq!(rooms.len(), 1);
    assert_eq!(rooms[0].x2 - rooms[0].x1, 6);
    assert_eq!(rooms[0].y2 - rooms[0].y1, 6);
    assert_eq!(start, rooms[0].center());
    assert!(objects.is_empty());
    assert!(grid.get(start.0, start.1).traversable);
}

#[test]
fn generation_validity() {
    // No two accepted rooms overlap; every room interior tile is
    // traversable and transparent; the start position is traversable.
    let cfg = GenConfig::standard();
    for seed in [0u64, 7, 42, 1234] {
        let mut rng = rand::rngs::StdRng::seed_from_u64(seed);
        let mut objects: Vec<Object> = Vec::new();
        let (grid, start, rooms) = make_map(cfg, &mut objects, &mut rng);

        assert!(rooms.len() >= 1);
        for i in 0..rooms.len() {
            for j in 0..rooms.len() {
                if i != j {
                    assert!(!rooms[i].intersects_with(&rooms[j]));
                }
            }
            for (x, y) in interior_cells(&rooms[i]) {
                let tile = grid.get(x, y);
                assert!(tile.traversable);
                assert!(tile.transparent);
            }
        }
        assert!(grid.get(start.0, start.1).traversable);
        // The sampled room sizes respect the configured bounds.
        for room in &rooms {
            let w = room.x2 - room.x1;
            let h = room.y2 - room.y1;
            assert!(cfg.room_min_size <= w && w <= cfg.room_max_size);
            assert!(cfg.room_min_size <= h && h <= cfg.room_max_size);
            assert!(room.x1 >= 0 && room.x2 < cfg.width);
            assert!(room.y1 >= 0 && room.y2 < cfg.height);
        }
    }
}

#[test]
fn generation_connectivity() {
    // Every room's carved interior is reachable from the start position
    // via traversable tiles.
    let cfg = GenConfig::standard();
    for seed in [1u64, 99, 2024] {
        let mut rng = rand::rngs::StdRng::seed_from_u64(seed);
        let mut objects: Vec<Object> = Vec::new();
        let (grid, start, rooms) = make_map(cfg, &mut objects, &mut rng);
        let seen = reachable_cells(&grid, start);
        for room in &rooms {
            for (x, y) in interior_cells(room) {
                assert!(seen[x as usize][y as usize]);
            }
        }
    }
}

#[test]
fn monsters_spawn_on_valid_tiles() {
    let cfg = GenConfig::standard();
    let mut rng = rand::rngs::StdRng::seed_from_u64(5);
    let mut objects: Vec<Object> = Vec::new();
    let (grid, _start, rooms) = make_map(cfg, &mut objects, &mut rng);

    for monster in &objects {
        // Monsters stand on traversable tiles, blocking, alive, with a
        // fighter block and an AI marker, and are one of the two
        // archetypes.
        assert!(grid.get(monster.x, monster.y).traversable);
        assert!(!monster.traversable);
        assert!(monster.alive);
        assert!(monster.fighter.is_some());
        assert!(monster.ai.is_some());
        assert!(monster.name == "orc" || monster.name == "troll");
        // Each stands inside some room after the first.
        let inside = rooms.iter().skip(1).any(|r| {
            r.x1 + 1 <= monster.x && monster.x < r.x2 && r.y1 + 1 <= monster.y && monster.y < r.y2
        });
        assert!(inside);
    }
    // No two blocking entities share a cell.
    for i in 0..objects.len() {
        for j in (i + 1)..objects.len() {
            assert!((objects[i].x, objects[i].y) != (objects[j].x, objects[j].y));
        }
    }
}

#[test]
fn rooms_vary_with_seed() {
    // The random source really drives the layout: a standard-sized dungeon
    // gets more than one room, and different seeds give different layouts.
    let cfg = GenConfig::standard();
    let mut rng = rand::rngs::StdRng::seed_from_u64(0);
    let mut objects: Vec<Object> = Vec::new();
    let (_grid, start_a, rooms_a) = make_map(cfg, &mut objects, &mut rng);
    assert!(rooms_a.len() >= 2);

    let mut rng = rand::rngs::StdRng::seed_from_u64(1);
    let mut objects: Vec<Object> = Vec::new();
    let (_grid, start_b, _rooms_b) = make_map(cfg, &mut objects, &mut rng);
    assert_ne!(start_a, start_b);
}

#[test]
fn new_game_setup() {
    let (grid, objects, messages, start, rooms) = new_game(GenConfig::standard(), 7);

    assert!(rooms.len() >= 1);
    assert!(objects.len() >= 1);
    let player = &objects[0];
    assert_eq!(player.name, "player");
    assert_eq!(player.glyph, '@');
    assert!(player.alive);
    assert!(player.ai.is_none());
    assert_eq!((player.x, player.y), start);
    let f = player.fighter.unwrap();
    assert_eq!((f.max_hp, f.hp, f.defence, f.power), (30, 30, 2, 5));
    assert!(grid.get(start.0, start.1).traversable);

    assert_eq!(messages.len(), 1);
    assert_eq!(
        messages.line(0).0,
        "Welcome stranger! Prepare to perish in the Tombs of the Ancient Kings."
    );

    // The same seed reproduces the same session.
    let (_, objects2, _, start2, rooms2) = new_game(GenConfig::standard(), 7);
    assert_eq!(start, start2);
    assert_eq!(rooms.len(), rooms2.len());
    assert_eq!(objects.len(), objects2.len());
}
