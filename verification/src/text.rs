//! Verified construction of the log-line texts: decimal rendering of
//! numbers and the fixed message templates of the combat model.

use vstd::prelude::*;

verus! {

/// The decimal digit character for `d` (`d < 10`).
pub open spec fn dec_digit(d: nat) -> char {
    if d == 0 {
        '0'
    } else if d == 1 {
        '1'
    } else if d == 2 {
        '2'
    } else if d == 3 {
        '3'
    } else if d == 4 {
        '4'
    } else if d == 5 {
        '5'
    } else if d == 6 {
        '6'
    } else if d == 7 {
        '7'
    } else if d == 8 {
        '8'
    } else {
        '9'
    }
}

/// The decimal rendering of `n`, without leading zeroes (a single `'0'`
/// for zero).
pub open spec fn dec_str(n: nat) -> Seq<char>
    decreases n,
{
    if n < 10 {
        seq![dec_digit(n)]
    } else {
        dec_str(n / 10).push(dec_digit(n % 10))
    }
}

/// The one-character string for a decimal digit.
fn digit_str(d: u32) -> (s: &'static str)
    requires
        d < 10,
    ensures
        s@ == seq![dec_digit(d as nat)],
{
    proof {
        reveal_strlit("0");
        reveal_strlit("1");
        reveal_strlit("2");
        reveal_strlit("3");
        reveal_strlit("4");
        reveal_strlit("5");
        reveal_strlit("6");
        reveal_strlit("7");
        reveal_strlit("8");
        reveal_strlit("9");
    }
    let s = match d {
        0 => "0",
        1 => "1",
        2 => "2",
        3 => "3",
        4 => "4",
        5 => "5",
        6 => "6",
        7 => "7",
        8 => "8",
        _ => "9",
    };
    proof {
        assert(s@ =~= seq![dec_digit(d as nat)]);
    }
    s
}

/// Render `n` in decimal.
pub fn u32_to_string(n: u32) -> (s: String)
    ensures
        s@ == dec_str(n as nat),
    decreases n,
{
    if n < 10 {
        digit_str(n).to_owned()
    } else {
        let mut s = u32_to_string(n / 10);
        s.append(digit_str(n % 10));
        s
    }
}

/// `"{attacker} attacks {defender} for {damage} hit points!"`
pub open spec fn attack_hit_msg(att: Seq<char>, def: Seq<char>, dmg: nat) -> Seq<char> {
    att + " attacks "@ + def + " for "@ + dec_str(dmg) + " hit points!"@
}

/// `"{attacker} attacks {defender} but it has no effect!"`
pub open spec fn attack_no_effect_msg(att: Seq<char>, def: Seq<char>) -> Seq<char> {
    att + " attacks "@ + def + " but it has no effect!"@
}

/// `"{name} is dead!"`
pub open spec fn monster_death_msg(name: Seq<char>) -> Seq<char> {
    name + " is dead!"@
}

/// `"remains of {name}"`
pub open spec fn remains_name(name: Seq<char>) -> Seq<char> {
    "remains of "@ + name
}

/// `"The {name} growls!"`
pub open spec fn growl_msg(name: Seq<char>) -> Seq<char> {
    "The "@ + name + " growls!"@
}

pub fn attack_hit_text(att: &String, def: &String, dmg: u32) -> (s: String)
    ensures
        s@ == attack_hit_msg(att@, def@, dmg as nat),
{
    let mut s = String::new();
    s.append(att.as_str());
    s.append(" attacks ");
    s.append(def.as_str());
    s.append(" for ");
    let num = u32_to_string(dmg);
    s.append(num.as_str());
    s.append(" hit points!");
    proof {
        assert(s@ =~= attack_hit_msg(att@, def@, dmg as nat));
    }
    s
}

pub fn attack_no_effect_text(att: &String, def: &String) -> (s: String)
    ensures
        s@ == attack_no_effect_msg(att@, def@),
{
    let mut s = String::new();
    s.append(att.as_str());
    s.append(" attacks ");
    s.append(def.as_str());
    s.append(" but it has no effect!");
    proof {
        assert(s@ =~= attack_no_effect_msg(att@, def@));
    }
    s
}

pub fn monster_death_text(name: &String) -> (s: String)
    ensures
        s@ == monster_death_msg(name@),
{
    let mut s = String::new();
    s.append(name.as_str());
    s.append(" is dead!");
    proof {
        assert(s@ =~= monster_death_msg(name@));
    }
    s
}

pub fn remains_text(name: &String) -> (s: String)
    ensures
        s@ == remains_name(name@),
{
    let mut s = String::new();
    s.append("remains of ");
    s.append(name.as_str());
    proof {
        assert(s@ =~= remains_name(name@));
    }
    s
}

pub fn growl_text(name: &String) -> (s: String)
    ensures
        s@ == growl_msg(name@),
{
    let mut s = String::new();
    s.append("The ");
    s.append(name.as_str());
    s.append(" growls!");
    proof {
        assert(s@ =~= growl_msg(name@));
    }
    s
}

} // verus!
