//! The combat model: damage resolution between two entities and the death
//! transitions. Damage is attacker power minus defender defence; an entity
//! whose hit points would drop to zero or below dies exactly once, because
//! the death transition removes its fighter block and further damage calls
//! are no-ops.

use vstd::prelude::*;
use crate::entity::{Color, DeathCallback, Fighter, Object, ObjectV, fighter_wf};
use crate::log::{Messages, log_message, log_push};
use crate::text::{
    attack_hit_msg, attack_hit_text, attack_no_effect_msg, attack_no_effect_text,
    monster_death_msg, monster_death_text, remains_name, remains_text,
};

verus! {

/// The attack power an entity contributes: zero without a fighter block.
pub open spec fn spec_power(o: ObjectV) -> int {
    match o.fighter {
        Some(f) => f.power as int,
        None => 0,
    }
}

/// The defence an entity contributes: zero without a fighter block.
pub open spec fn spec_defence(o: ObjectV) -> int {
    match o.fighter {
        Some(f) => f.defence as int,
        None => 0,
    }
}

/// The entity after `take_damage(amount)`: without a fighter block nothing
/// happens; positive damage is subtracted from hp; if hp would drop to
/// zero or below, the death transition bound to `on_death` runs.
pub open spec fn v_take_damage(o: ObjectV, amount: int) -> ObjectV {
    match o.fighter {
        None => o,
        Some(f) => {
            let hp2 = if amount > 0 {
                f.hp - amount
            } else {
                f.hp as int
            };
            if hp2 <= 0 {
                match f.on_death {
                    DeathCallback::Player => ObjectV {
                        alive: false,
                        glyph: '%',
                        color: Color::spec_dark_red(),
                        fighter: None,
                        ..o
                    },
                    DeathCallback::Monster => ObjectV {
                        alive: false,
                        glyph: '%',
                        color: Color::spec_dark_red(),
                        traversable: true,
                        fighter: None,
                        ai: None,
                        name: remains_name(o.name),
                        ..o
                    },
                }
            } else {
                ObjectV { fighter: Some(Fighter { hp: hp2 as i32, ..f }), ..o }
            }
        },
    }
}

/// The log after `take_damage(amount)`: exactly one line is appended when
/// the entity dies, and none otherwise.
pub open spec fn v_take_damage_msgs(
    o: ObjectV,
    amount: int,
    log: Seq<(Seq<char>, Color)>,
    cap: nat,
) -> Seq<(Seq<char>, Color)> {
    match o.fighter {
        None => log,
        Some(f) => {
            let hp2 = if amount > 0 {
                f.hp - amount
            } else {
                f.hp as int
            };
            if hp2 <= 0 {
                match f.on_death {
                    DeathCallback::Player => log_push(
                        log,
                        ("You died!"@, Color::spec_dark_red()),
                        cap,
                    ),
                    DeathCallback::Monster => log_push(
                        log,
                        (monster_death_msg(o.name), Color::spec_orange()),
                        cap,
                    ),
                }
            } else {
                log
            }
        },
    }
}

/// The player's death transition: log `"You died!"` and turn the player
/// into an inert corpse record (the entry stays at its index).
fn player_death(player: &mut Object, messages: &mut Messages)
    requires
        old(messages).wf(),
    ensures
        *final(player) == (Object {
            alive: false,
            glyph: '%',
            color: Color::dark_red(),
            fighter: None,
            ..*old(player)
        }),
        final(messages).wf(),
        final(messages).capacity() == old(messages).capacity(),
        final(messages)@ == log_push(
            old(messages)@,
            ("You died!"@, Color::spec_dark_red()),
            old(messages).capacity(),
        ),
{
    log_message(messages, "You died!".to_owned(), Color::dark_red());
    player.alive = false;
    player.glyph = '%';
    player.color = Color::dark_red();
    player.fighter = None;
}

/// A monster's death transition: log `"{name} is dead!"`, then turn the
/// monster into a traversable, unattackable, immobile corpse named
/// `"remains of {name}"`.
fn monster_death(monster: &mut Object, messages: &mut Messages)
    requires
        old(messages).wf(),
    ensures
        final(monster)@ == (ObjectV {
            alive: false,
            glyph: '%',
            color: Color::spec_dark_red(),
            traversable: true,
            fighter: None,
            ai: None,
            name: remains_name(old(monster)@.name),
            ..old(monster)@
        }),
        final(messages).wf(),
        final(messages).capacity() == old(messages).capacity(),
        final(messages)@ == log_push(
            old(messages)@,
            (monster_death_msg(old(monster)@.name), Color::spec_orange()),
            old(messages).capacity(),
        ),
{
    let text = monster_death_text(&monster.name);
    log_message(messages, text, Color::orange());
    monster.alive = false;
    monster.glyph = '%';
    monster.color = Color::dark_red();
    monster.traversable = true;
    monster.fighter = None;
    monster.ai = None;
    let new_name = remains_text(&monster.name);
    monster.name = new_name;
}

impl DeathCallback {
    /// Dispatch to the death transition this callback names.
    pub fn callback(self, object: &mut Object, messages: &mut Messages)
        requires
            old(messages).wf(),
        ensures
            final(messages).wf(),
            final(messages).capacity() == old(messages).capacity(),
            self == DeathCallback::Player ==> final(object)@ == (ObjectV {
                alive: false,
                glyph: '%',
                color: Color::spec_dark_red(),
                fighter: None,
                ..old(object)@
            }) && final(messages)@ == log_push(
                old(messages)@,
                ("You died!"@, Color::spec_dark_red()),
                old(messages).capacity(),
            ),
            self == DeathCallback::Monster ==> final(object)@ == (ObjectV {
                alive: false,
                glyph: '%',
                color: Color::spec_dark_red(),
                traversable: true,
                fighter: None,
                ai: None,
                name: remains_name(old(object)@.name),
                ..old(object)@
            }) && final(messages)@ == log_push(
                old(messages)@,
                (monster_death_msg(old(object)@.name), Color::spec_orange()),
                old(messages).capacity(),
            ),
    {
        match self {
            DeathCallback::Player => player_death(object, messages),
            DeathCallback::Monster => monster_death(object, messages),
        }
    }
}

impl Object {
    /// Apply damage if possible: positive damage is subtracted from hp;
    /// hp dropping to zero or below triggers the death transition exactly
    /// once (afterwards the fighter block is gone and further calls are
    /// no-ops). An entity without a fighter block ignores damage.
    pub fn take_damage(&mut self, damage: i32, messages: &mut Messages)
        requires
            old(self).wf(),
            old(messages).wf(),
            0 <= damage,
        ensures
            final(self)@ == v_take_damage(old(self)@, damage as int),
            final(self).wf(),
            final(messages).wf(),
            final(messages).capacity() == old(messages).capacity(),
            final(messages)@ == v_take_damage_msgs(
                old(self)@,
                damage as int,
                old(messages)@,
                old(messages).capacity(),
            ),
    {
        if let Some(f) = self.fighter {
            let mut f2 = f;
            if damage > 0 {
                f2.hp = f2.hp - damage;
            }
            self.fighter = Some(f2);
            if f2.hp <= 0 {
                self.alive = false;
                f2.on_death.callback(self, messages);
            }
        }
    }

    /// One melee attack: damage is the attacker's power minus the target's
    /// defence. Positive damage is logged and applied to the target;
    /// otherwise a "no effect" line is logged and the target is untouched.
    /// The attacker itself never changes.
    pub fn attack(&mut self, target: &mut Object, messages: &mut Messages)
        requires
            old(self).wf(),
            old(target).wf(),
            old(messages).wf(),
        ensures
            *final(self) == *old(self),
            final(target).wf(),
            final(messages).wf(),
            final(messages).capacity() == old(messages).capacity(),
            ({
                let dmg = spec_power(old(self)@) - spec_defence(old(target)@);
                if dmg > 0 {
                    &&& final(target)@ == v_take_damage(old(target)@, dmg)
                    &&& final(messages)@ == v_take_damage_msgs(
                        old(target)@,
                        dmg,
                        log_push(
                            old(messages)@,
                            (
                                attack_hit_msg(old(self)@.name, old(target)@.name, dmg as nat),
                                Color::spec_white(),
                            ),
                            old(messages).capacity(),
                        ),
                        old(messages).capacity(),
                    )
                } else {
                    &&& *final(target) == *old(target)
                    &&& final(messages)@ == log_push(
                        old(messages)@,
                        (
                            attack_no_effect_msg(old(self)@.name, old(target)@.name),
                            Color::spec_white(),
                        ),
                        old(messages).capacity(),
                    )
                }
            }),
    {
        let power = match self.fighter {
            Some(f) => f.power,
            None => 0,
        };
        let defence = match target.fighter {
            Some(f) => f.defence,
            None => 0,
        };
        let damage = power - defence;
        if damage > 0 {
            let text = attack_hit_text(&self.name, &target.name, damage as u32);
            log_message(messages, text, Color::white());
            target.take_damage(damage, messages);
        } else {
            let text = attack_no_effect_text(&self.name, &target.name);
            log_message(messages, text, Color::white());
        }
    }
}

/// Damage monotonicity: positive damage on an entity with a fighter block
/// strictly decreases its hit points for as long as the block survives,
/// and removes the block (the death transition) as soon as the hit points
/// would reach zero; once the block is gone, damage is a no-op, so
/// re-damaging a dead entity changes nothing.
pub proof fn lemma_damage_monotonic(o: ObjectV, amount: int)
    requires
        o.wf(),
        amount > 0,
    ensures
        o.fighter is Some && v_take_damage(o, amount).fighter is Some ==> v_take_damage(
            o,
            amount,
        ).fighter.unwrap().hp < o.fighter.unwrap().hp,
        o.fighter is Some ==> (v_take_damage(o, amount).fighter is None <==> amount
            >= o.fighter.unwrap().hp),
        o.fighter is None ==> v_take_damage(o, amount) == o,
        v_take_damage(o, amount).wf(),
{
}

/// Death transition correctness for a monster at one hit point: one point
/// of damage kills it, clears its capability blocks, makes the corpse
/// traversable, renames it to `"remains of {name}"`, and appends exactly
/// one log line.
pub proof fn lemma_monster_death_transition(o: ObjectV, log: Seq<(Seq<char>, Color)>, cap: nat)
    requires
        o.wf(),
        o.fighter is Some,
        o.fighter.unwrap().hp == 1,
        o.fighter.unwrap().on_death == DeathCallback::Monster,
    ensures
        v_take_damage(o, 1).alive == false,
        v_take_damage(o, 1).traversable == true,
        v_take_damage(o, 1).fighter is None,
        v_take_damage(o, 1).ai is None,
        v_take_damage(o, 1).name == remains_name(o.name),
        v_take_damage_msgs(o, 1, log, cap) == log_push(
            log,
            (monster_death_msg(o.name), Color::spec_orange()),
            cap,
        ),
{
}

} // verus!
