use roguelike::entity::{Ai, Color, DeathCallback, Fighter, Object};
use roguelike::log::Messages;

fn fighter(max_hp: i32, hp: i32, defence: i32, power: i32, on_death: DeathCallback) -> Fighter {
    Fighter { max_hp, hp, defence, power, on_death }
}

fn orc_at(x: i32, y: i32, hp: i32) -> Object {
    let mut orc = Object::new(x, y, 'o', "orc", Color::desaturated_green(), false);
    orc.fighter = Some(fighter(10, hp, 0, 3, DeathCallback::Monster));
    orc.ai = Some(Ai);
    orc.alive = true;
    orc
}

#[test]
fn attack_deals_power_minus_defence() {
    // Attacker power 5, defence 0; defender power 0, defence 2, hp 10:
    // the first attack deals 3 damage and logs it.
    let mut attacker = Object::new(0, 0, '@', "player", Color::white(), false);
    attacker.fighter = Some(fighter(30, 30, 0, 5, DeathCallback::Player));
    attacker.alive = true;
    let mut defender = Object::new(1, 0, 'o', "orc", Color::desaturated_green(), false);
    defender.fighter = Some(fighter(10, 10, 2, 0, DeathCallback::Monster));
    defender.alive = true;
    let mut messages = Messages::new(6);

    attacker.attack(&mut defender, &mut messages);

    assert_eq!(defender.fighter.unwrap().hp, 7);
    assert_eq!(messages.len(), 1);
    let line = messages.line(0);
    assert_eq!(line.0, "player attacks orc for 3 hit points!");
    assert_eq!(line.1, Color::white());
    // The attacker is untouched.
    assert_eq!(attacker.fighter.unwrap().hp, 30);
}

#[test]
fn attack_with_high_defence_has_no_effect() {
    let mut attacker = Object::new(0, 0, '@', "player", Color::white(), false);
    attacker.fighter = Some(fighter(30, 30, 0, 5, DeathCallback::Player));
    let mut defender = Object::new(1, 0, 'T', "troll", Color::darker_green(), false);
    defender.fighter = Some(fighter(16, 16, 5, 4, DeathCallback::Monster));
    let mut messages = Messages::new(6);

    attacker.attack(&mut defender, &mut messages);

    assert_eq!(defender.fighter.unwrap().hp, 16);
    assert_eq!(messages.len(), 1);
    assert_eq!(messages.line(0).0, "player attacks troll but it has no effect!");
}

#[test]
fn damage_is_monotonic_until_death_then_noop() {
    let mut orc = orc_at(2, 2, 10);
    let mut messages = Messages::new(6);

    orc.take_damage(3, &mut messages);
    assert_eq!(orc.fighter.unwrap().hp, 7);
    orc.take_damage(3, &mut messages);
    assert_eq!(orc.fighter.unwrap().hp, 4);
    // Zero damage changes nothing.
    orc.take_damage(0, &mut messages);
    assert_eq!(orc.fighter.unwrap().hp, 4);
    assert_eq!(messages.len(), 0);

    orc.take_damage(4, &mut messages);
    assert!(orc.fighter.is_none());
    assert!(!orc.alive);
    assert_eq!(messages.len(), 1);

    // Re-damaging a dead entity is a no-op: no log line, no change.
    let name_after_death = orc.name.clone();
    orc.take_damage(5, &mut messages);
    assert!(orc.fighter.is_none());
    assert_eq!(orc.name, name_after_death);
    assert_eq!(messages.len(), 1);
}

#[test]
fn monster_death_transition() {
    // A monster at one hit point: one point of damage kills it, clears its
    // capability blocks, makes the corpse traversable, renames it, and
    // appends exactly one log line.
    let mut orc = orc_at(3, 4, 1);
    let mut messages = Messages::new(6);

    orc.take_damage(1, &mut messages);

    assert!(!orc.alive);
    assert!(orc.traversable);
    assert!(orc.fighter.is_none());
    assert!(orc.ai.is_none());
    assert_eq!(orc.name, "remains of orc");
    assert_eq!(orc.glyph, '%');
    assert_eq!(orc.color, Color::dark_red());
    assert_eq!(messages.len(), 1);
    let line = messages.line(0);
    assert_eq!(line.0, "orc is dead!");
    assert_eq!(line.1, Color::orange());
    // Position is untouched by death.
    assert_eq!(orc.pos(), (3, 4));
}

#[test]
fn player_death_transition() {
    let mut player = Object::new(5, 5, '@', "player", Color::white(), false);
    player.fighter = Some(fighter(30, 2, 0, 5, DeathCallback::Player));
    player.alive = true;
    let mut messages = Messages::new(6);

    player.take_damage(2, &mut messages);

    assert!(!player.alive);
    assert!(player.fighter.is_none());
    assert_eq!(player.glyph, '%');
    assert_eq!(player.color, Color::dark_red());
    // The player keeps its name and stays blocking.
    assert_eq!(player.name, "player");
    assert!(!player.traversable);
    assert_eq!(messages.len(), 1);
    assert_eq!(messages.line(0).0, "You died!");
}

#[test]
fn attack_message_renders_multi_digit_damage() {
    let mut attacker = Object::new(0, 0, 'T', "troll", Color::darker_green(), false);
    attacker.fighter = Some(fighter(16, 16, 1, 15, DeathCallback::Monster));
    let mut defender = Object::new(1, 0, '@', "player", Color::white(), false);
    defender.fighter = Some(fighter(30, 30, 2, 5, DeathCallback::Player));
    defender.alive = true;
    let mut messages = Messages::new(6);

    attacker.attack(&mut defender, &mut messages);

    assert_eq!(defender.fighter.unwrap().hp, 17);
    assert_eq!(messages.line(0).0, "troll attacks player for 13 hit points!");
}

#[test]
fn distance_sq_matches_squares() {
    let a = Object::new(1, 2, '@', "a", Color::white(), false);
    let b = Object::new(4, 6, 'b', "b", Color::white(), false);
    // (4-1)^2 + (6-2)^2 = 9 + 16
    assert_eq!(a.distance_sq_to(&b), 25);
    assert_eq!(b.distance_sq_to(&a), 25);
    assert_eq!(a.distance_sq_to(&a), 0);
}
