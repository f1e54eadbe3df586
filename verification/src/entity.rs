//! Entities: the player and the monsters. An entity is one concrete record
//! with optional capability blocks (a `Fighter` for combat, an `Ai` marker
//! for autonomous turns). Identity is the entity's index in the store; dead
//! entities become inert corpse records and are never removed, so indices
//! stay stable for the whole session.

use vstd::prelude::*;

verus! {

/// An RGB color, carried on entities and log messages for the renderer.
#[derive(Clone, Copy, Debug, PartialEq, Eq, Structural)]
pub struct Color {
    pub r: u8,
    pub g: u8,
    pub b: u8,
}

impl Color {
    pub open spec fn spec_white() -> Color {
        Color { r: 255, g: 255, b: 255 }
    }

    #[verifier::when_used_as_spec(spec_white)]
    pub fn white() -> (c: Color)
        ensures
            c == Color::spec_white(),
    {
        Color { r: 255, g: 255, b: 255 }
    }

    pub open spec fn spec_red() -> Color {
        Color { r: 255, g: 0, b: 0 }
    }

    #[verifier::when_used_as_spec(spec_red)]
    pub fn red() -> (c: Color)
        ensures
            c == Color::spec_red(),
    {
        Color { r: 255, g: 0, b: 0 }
    }

    pub open spec fn spec_dark_red() -> Color {
        Color { r: 191, g: 0, b: 0 }
    }

    #[verifier::when_used_as_spec(spec_dark_red)]
    pub fn dark_red() -> (c: Color)
        ensures
            c == Color::spec_dark_red(),
    {
        Color { r: 191, g: 0, b: 0 }
    }

    pub open spec fn spec_orange() -> Color {
        Color { r: 255, g: 127, b: 0 }
    }

    #[verifier::when_used_as_spec(spec_orange)]
    pub fn orange() -> (c: Color)
        ensures
            c == Color::spec_orange(),
    {
        Color { r: 255, g: 127, b: 0 }
    }

    pub open spec fn spec_desaturated_green() -> Color {
        Color { r: 63, g: 127, b: 63 }
    }

    #[verifier::when_used_as_spec(spec_desaturated_green)]
    pub fn desaturated_green() -> (c: Color)
        ensures
            c == Color::spec_desaturated_green(),
    {
        Color { r: 63, g: 127, b: 63 }
    }

    pub open spec fn spec_darker_green() -> Color {
        Color { r: 0, g: 127, b: 0 }
    }

    #[verifier::when_used_as_spec(spec_darker_green)]
    pub fn darker_green() -> (c: Color)
        ensures
            c == Color::spec_darker_green(),
    {
        Color { r: 0, g: 127, b: 0 }
    }
}

/// Which death transition runs when an entity's hit points reach zero.
#[derive(Clone, Copy, Debug, PartialEq, Eq, Structural)]
pub enum DeathCallback {
    Player,
    Monster,
}

/// The combat capability block. While it is present, `1 <= hp <= max_hp`:
/// the death transition removes the block the moment hp would drop to zero
/// or below.
#[derive(Clone, Copy, Debug, PartialEq, Eq, Structural)]
pub struct Fighter {
    pub max_hp: i32,
    pub hp: i32,
    pub defence: i32,
    pub power: i32,
    pub on_death: DeathCallback,
}

/// A live fighter block has positive hit points bounded by its maximum,
/// and non-negative combat stats.
pub open spec fn fighter_wf(f: Fighter) -> bool {
    &&& 1 <= f.hp <= f.max_hp
    &&& 0 <= f.power
    &&& 0 <= f.defence
}

/// The autonomous-behavior marker: entities carrying it act each turn.
#[derive(Clone, Copy, Debug, PartialEq, Eq, Structural)]
pub struct Ai;

/// One entity: the player or a monster, alive or as a corpse.
#[derive(Debug)]
pub struct Object {
    pub x: i32,
    pub y: i32,
    pub glyph: char,
    pub name: String,
    pub color: Color,
    pub traversable: bool,
    pub alive: bool,
    pub fighter: Option<Fighter>,
    pub ai: Option<Ai>,
}

/// The index reserved for the player in the entity store.
pub const PLAYER_ID: usize = 0;

/// The squared Euclidean distance between two points.
pub open spec fn dist_sq(ax: int, ay: int, bx: int, by: int) -> int {
    (ax - bx) * (ax - bx) + (ay - by) * (ay - by)
}

/// The mathematical image of an entity: the same record with the name as a
/// character sequence and the coordinates as unbounded integers.
pub ghost struct ObjectV {
    pub x: int,
    pub y: int,
    pub glyph: char,
    pub name: Seq<char>,
    pub color: Color,
    pub traversable: bool,
    pub alive: bool,
    pub fighter: Option<Fighter>,
    pub ai: Option<Ai>,
}

impl ObjectV {
    /// Any fighter block the entity carries is well formed.
    pub open spec fn wf(self) -> bool {
        match self.fighter {
            Some(f) => fighter_wf(f),
            None => true,
        }
    }
}

impl View for Object {
    type V = ObjectV;

    open spec fn view(&self) -> ObjectV {
        ObjectV {
            x: self.x as int,
            y: self.y as int,
            glyph: self.glyph,
            name: self.name@,
            color: self.color,
            traversable: self.traversable,
            alive: self.alive,
            fighter: self.fighter,
            ai: self.ai,
        }
    }
}

/// The images of all entities in the store.
pub open spec fn objs_v(objects: Seq<Object>) -> Seq<ObjectV> {
    objects.map_values(|o: Object| o@)
}

/// Replacing one entity in the store replaces its image and nothing else.
pub proof fn lemma_objs_v_update(s: Seq<Object>, i: int, o: Object)
    requires
        0 <= i < s.len(),
    ensures
        objs_v(s.update(i, o)) == objs_v(s).update(i, o@),
{
    assert(objs_v(s.update(i, o)) =~= objs_v(s).update(i, o@));
}

impl Object {
    /// Any fighter block the entity carries is well formed.
    pub open spec fn wf(self) -> bool {
        match self.fighter {
            Some(f) => fighter_wf(f),
            None => true,
        }
    }

    /// A fresh, not-yet-alive entity with no capability blocks.
    pub fn new(x: i32, y: i32, glyph: char, name: &str, color: Color, traversable: bool) -> (o:
        Object)
        ensures
            o == (Object {
                x,
                y,
                glyph,
                name: o.name,
                color,
                traversable,
                alive: false,
                fighter: None,
                ai: None,
            }),
            o.name@ == name@,
    {
        Object {
            x,
            y,
            glyph,
            name: name.to_owned(),
            color,
            traversable,
            alive: false,
            fighter: None,
            ai: None,
        }
    }

    pub fn pos(&self) -> (p: (i32, i32))
        ensures
            p == (self.x, self.y),
    {
        (self.x, self.y)
    }

    pub fn set_pos(&mut self, x: i32, y: i32)
        ensures
            *final(self) == (Object { x, y, ..*old(self) }),
    {
        self.x = x;
        self.y = y;
    }

    /// The squared straight-line distance to another entity. (The original
    /// design compares Euclidean distances against constants; comparing the
    /// squares against the squared constants is exact and stays in
    /// integers.)
    pub fn distance_sq_to(&self, other: &Object) -> (d: i64)
        requires
            0 <= self.x,
            0 <= self.y,
            0 <= other.x,
            0 <= other.y,
        ensures
            d == dist_sq(self.x as int, self.y as int, other.x as int, other.y as int),
    {
        let dx: i64 = self.x as i64 - other.x as i64;
        let dy: i64 = self.y as i64 - other.y as i64;
        proof {
            assert(0 <= dx * dx < 0x4000000000000000 && 0 <= dy * dy < 0x4000000000000000)
                by (nonlinear_arith)
                requires
                    -0x7fffffff <= dx <= 0x7fffffff,
                    -0x7fffffff <= dy <= 0x7fffffff,
            ;
        }
        dx * dx + dy * dy
    }

    /// An exact copy (the entity record is not `Copy` because of its name).
    pub fn duplicate(&self) -> (o: Object)
        ensures
            o == *self,
    {
        Object {
            x: self.x,
            y: self.y,
            glyph: self.glyph,
            name: self.name.clone(),
            color: self.color,
            traversable: self.traversable,
            alive: self.alive,
            fighter: self.fighter,
            ai: self.ai,
        }
    }
}

/// The player's starting stat preset.
pub open spec fn spec_player_fighter() -> Fighter {
    Fighter { max_hp: 30, hp: 30, defence: 2, power: 5, on_death: DeathCallback::Player }
}

/// The player entity as it starts the session, standing at `(x, y)`.
pub open spec fn spec_player(x: int, y: int) -> ObjectV {
    ObjectV {
        x,
        y,
        glyph: '@',
        name: "player"@,
        color: Color::spec_white(),
        traversable: false,
        alive: true,
        fighter: Some(spec_player_fighter()),
        ai: None,
    }
}

/// The player entity: alive, blocking, with the player stat preset and no
/// AI marker.
pub fn make_player(x: i32, y: i32) -> (o: Object)
    ensures
        o@ == spec_player(x as int, y as int),
        o.x == x,
        o.y == y,
        o.glyph == '@',
        o.name@ == "player"@,
        o.color == Color::spec_white(),
        o.traversable == false,
        o.alive == true,
        o.fighter == Some(spec_player_fighter()),
        o.ai is None,
        o.wf(),
{
    let mut player = Object::new(x, y, '@', "player", Color::white(), false);
    player.alive = true;
    player.fighter = Some(
        Fighter { max_hp: 30, hp: 30, defence: 2, power: 5, on_death: DeathCallback::Player },
    );
    player
}

} // verus!
