//! Monsters: the combatants that the server controls.

use vstd::prelude::*;
use vstd::utf8::encode_utf8;
use crate::flags::MONSTER_FRESH;
use crate::frame::{build_character, character_frame};
use crate::search::{first, lemma_first_unique};
use crate::wire::{bits_i16, from_bits, low16, low_bits};

verus! {

/// A monster with its live stats. It never leaves its room; once dead it
/// stays there, and can be looted until its gold is gone.
#[derive(Debug, PartialEq, Eq)]
pub struct Monster {
    pub name: String,
    pub flags: u8,
    pub attack: u16,
    pub defense: u16,
    pub regen: u16,
    pub health: i16,
    pub gold: u16,
    pub current_room: u16,
    pub description: String,
}

/// What a monster is, as plain values.
pub struct MonsterView {
    pub name: Seq<char>,
    pub flags: u8,
    pub attack: u16,
    pub defense: u16,
    pub regen: u16,
    pub health: i16,
    pub gold: u16,
    pub current_room: u16,
    pub description: Seq<char>,
}

impl View for Monster {
    type V = MonsterView;

    open spec fn view(&self) -> MonsterView {
        MonsterView {
            name: self.name@,
            flags: self.flags,
            attack: self.attack,
            defense: self.defense,
            regen: self.regen,
            health: self.health,
            gold: self.gold,
            current_room: self.current_room,
            description: self.description@,
        }
    }
}

/// A number of the map: 0 where the map gives none.
pub open spec fn number(x: Option<u64>) -> u64 {
    match x {
        Some(v) => v,
        None => 0,
    }
}

/// A number of the map: 0 where the map gives none.
pub fn or_zero(x: Option<u64>) -> (v: u64)
    ensures
        v == number(x),
{
    match x {
        Some(v) => v,
        None => 0,
    }
}

impl MonsterView {
    /// The CHARACTER frame that shows this monster to a player.
    pub open spec fn frame(self) -> Seq<u8> {
        character_frame(
            encode_utf8(self.name),
            self.flags,
            self.attack,
            self.defense,
            self.regen,
            self.health,
            self.gold,
            self.current_room,
            encode_utf8(self.description),
        )
    }

    /// Whether the monster takes part in a battle in its room.
    pub open spec fn fights(self) -> bool {
        crate::flags::spec_joins_battle(self.flags) && self.health > 0
    }
}

impl Clone for Monster {
    fn clone(&self) -> (res: Self)
        ensures
            res@ == self@,
    {
        Monster {
            name: self.name.clone(),
            flags: self.flags,
            attack: self.attack,
            defense: self.defense,
            regen: self.regen,
            health: self.health,
            gold: self.gold,
            current_room: self.current_room,
            description: self.description.clone(),
        }
    }
}

impl Monster {
    /// A monster with the default stats, alive, in room 0 and without gold.
    pub fn new(name: String, description: String) -> (m: Monster)
        ensures
            m@ == (MonsterView {
                name: name@,
                flags: MONSTER_FRESH,
                attack: 5,
                defense: 10,
                regen: 5,
                health: 20,
                gold: 0,
                current_room: 0,
                description: description@,
            }),
    {
        Monster {
            name,
            flags: MONSTER_FRESH,
            attack: 5,
            defense: 10,
            regen: 5,
            health: 20,
            gold: 0,
            current_room: 0,
            description,
        }
    }

    /// A monster as a map describes it. The flags are those of a fresh
    /// monster. A name that is missing reads "ERROR", a description that is
    /// missing reads "SOMETHING WENT WRONG", and a number that is missing
    /// reads 0; of a number only the low 16 bits count, which for the health
    /// are the bits of a signed number.
    pub fn from_map(
        name: Option<String>,
        description: Option<String>,
        attack: Option<u64>,
        defense: Option<u64>,
        regen: Option<u64>,
        health: Option<u64>,
        gold: Option<u64>,
        current_room: Option<u64>,
    ) -> (m: Monster)
        ensures
            m@ == (MonsterView {
                name: match name {
                    Some(s) => s@,
                    None => "ERROR"@,
                },
                flags: MONSTER_FRESH,
                attack: low16(number(attack)),
                defense: low16(number(defense)),
                regen: low16(number(regen)),
                health: bits_i16(low16(number(health))),
                gold: low16(number(gold)),
                current_room: low16(number(current_room)),
                description: match description {
                    Some(s) => s@,
                    None => "SOMETHING WENT WRONG"@,
                },
            }),
    {
        Monster {
            name: match name {
                Some(s) => s,
                None => String::from_str("ERROR"),
            },
            flags: MONSTER_FRESH,
            attack: low_bits(or_zero(attack)),
            defense: low_bits(or_zero(defense)),
            regen: low_bits(or_zero(regen)),
            health: from_bits(low_bits(or_zero(health))),
            gold: low_bits(or_zero(gold)),
            current_room: low_bits(or_zero(current_room)),
            description: match description {
                Some(s) => s,
                None => String::from_str("SOMETHING WENT WRONG"),
            },
        }
    }

    /// Whether the monster takes part in a battle in its room.
    pub fn fights(&self) -> (b: bool)
        ensures
            b == self@.fights(),
    {
        crate::flags::joins_battle(self.flags) && self.health > 0
    }

    /// The CHARACTER frame that shows this monster to a player.
    pub fn to_frame(&self) -> (out: Vec<u8>)
        ensures
            out@ == self@.frame(),
    {
        build_character(
            self.name.as_str().as_bytes(),
            self.flags,
            self.attack,
            self.defense,
            self.regen,
            self.health,
            self.gold,
            self.current_room,
            self.description.as_str().as_bytes(),
        )
    }
}

/// What a list of monsters is, as plain values.
pub open spec fn monster_views(v: Seq<Monster>) -> Seq<MonsterView> {
    v.map_values(|m: Monster| m@)
}

/// The test that a monster passes when its name is `name`.
pub open spec fn is_named(name: Seq<char>) -> spec_fn(MonsterView) -> bool {
    |m: MonsterView| m.name == name
}

/// Position of the first monster named `name`, or the length of the list if
/// there is none.
pub fn find_monster(monsters: &Vec<Monster>, name: &String) -> (i: usize)
    ensures
        i == first(monster_views(monsters@), is_named(name@)),
        i <= monsters@.len(),
        i < monsters@.len() ==> monsters@[i as int]@.name == name@,
{
    let ghost views = monster_views(monsters@);
    let mut i: usize = 0;
    while i < monsters.len()
        invariant
            i <= monsters@.len(),
            views == monster_views(monsters@),
            forall|j: int| 0 <= j < i ==> !is_named(name@)(#[trigger] views[j]),
        decreases monsters@.len() - i,
    {
        if monsters[i].name == *name {
            proof {
                assert(is_named(name@)(views[i as int]));
                lemma_first_unique(views, is_named(name@), i as int);
            }
            return i;
        }
        i += 1;
    }
    proof {
        lemma_first_unique(views, is_named(name@), i as int);
    }
    i
}

} // verus!
