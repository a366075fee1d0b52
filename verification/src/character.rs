//! Characters: the players' avatars, and the connection each one is bound to.

use vstd::prelude::*;
use vstd::utf8::encode_utf8;
use crate::flags::spec_is_alive;
use crate::flags::spec_joins_battle;
use crate::frame::{build_character, character_frame};
use crate::search::{first, lemma_first_unique};

verus! {

/// A player's avatar. `conn` names the connection that plays it; `active`
/// says whether that connection is still open. A character is never removed:
/// after its player has left it stays, inactive, until the name comes back.
#[derive(Debug, PartialEq, Eq)]
pub struct Character {
    pub conn: u64,
    pub active: bool,
    pub name: String,
    pub flags: u8,
    pub attack: u16,
    pub defense: u16,
    pub regen: u16,
    pub health: i16,
    pub gold: u16,
    pub current_room: u16,
    pub description: String,
}

/// What a character is, as plain values.
pub struct CharacterView {
    pub conn: u64,
    pub active: bool,
    pub name: Seq<char>,
    pub flags: u8,
    pub attack: u16,
    pub defense: u16,
    pub regen: u16,
    pub health: i16,
    pub gold: u16,
    pub current_room: u16,
    pub description: Seq<char>,
}

impl View for Character {
    type V = CharacterView;

    open spec fn view(&self) -> CharacterView {
        CharacterView {
            conn: self.conn,
            active: self.active,
            name: self.name@,
            flags: self.flags,
            attack: self.attack,
            defense: self.defense,
            regen: self.regen,
            health: self.health,
            gold: self.gold,
            current_room: self.current_room,
            description: self.description@,
        }
    }
}

impl CharacterView {
    /// The CHARACTER frame that shows this character to a player.
    pub open spec fn frame(self) -> Seq<u8> {
        character_frame(
            encode_utf8(self.name),
            self.flags,
            self.attack,
            self.defense,
            self.regen,
            self.health,
            self.gold,
            self.current_room,
            encode_utf8(self.description),
        )
    }

    /// A character is dead when its health is used up or its ALIVE flag is clear.
    pub open spec fn is_dead(self) -> bool {
        self.health <= 0 || !spec_is_alive(self.flags)
    }

    /// Whether the character takes part in a battle in its room.
    pub open spec fn fights(self) -> bool {
        spec_joins_battle(self.flags) && spec_is_alive(self.flags)
    }
}

impl Clone for Character {
    fn clone(&self) -> (res: Self)
        ensures
            res@ == self@,
    {
        Character {
            conn: self.conn,
            active: self.active,
            name: self.name.clone(),
            flags: self.flags,
            attack: self.attack,
            defense: self.defense,
            regen: self.regen,
            health: self.health,
            gold: self.gold,
            current_room: self.current_room,
            description: self.description.clone(),
        }
    }
}

impl Character {
    /// A character with the default stats, bound to `conn` and active.
    pub fn new(conn: u64, name: String, description: String) -> (c: Character)
        ensures
            c@ == (CharacterView {
                conn,
                active: true,
                name: name@,
                flags: 0xff,
                attack: 5,
                defense: 10,
                regen: 5,
                health: 20,
                gold: 0,
                current_room: 0,
                description: description@,
            }),
    {
        Character {
            conn,
            active: true,
            name,
            flags: 0xff,
            attack: 5,
            defense: 10,
            regen: 5,
            health: 20,
            gold: 0,
            current_room: 0,
            description,
        }
    }

    /// Records the room the character is in.
    pub fn update_room(&mut self, room: u16)
        ensures
            final(self)@ == (CharacterView { current_room: room, ..old(self)@ }),
    {
        self.current_room = room;
    }

    /// Binds the character to another connection.
    pub fn update_connection(&mut self, conn: u64)
        ensures
            final(self)@ == (CharacterView { conn, ..old(self)@ }),
    {
        self.conn = conn;
    }

    /// Whether the character is dead.
    pub fn is_dead(&self) -> (b: bool)
        ensures
            b == self@.is_dead(),
    {
        self.health <= 0 || !crate::flags::is_alive(self.flags)
    }

    /// Whether the character takes part in a battle in its room.
    pub fn fights(&self) -> (b: bool)
        ensures
            b == self@.fights(),
    {
        crate::flags::joins_battle(self.flags) && crate::flags::is_alive(self.flags)
    }

    /// The CHARACTER frame that shows this character to a player.
    pub fn to_frame(&self) -> (out: Vec<u8>)
        ensures
            out@ == self@.frame(),
    {
        build_character(
            self.name.as_str().as_bytes(),
            self.flags,
            self.attack,
            self.defense,
            self.regen,
            self.health,
            self.gold,
            self.current_room,
            self.description.as_str().as_bytes(),
        )
    }
}

/// What a list of characters is, as plain values.
pub open spec fn character_views(v: Seq<Character>) -> Seq<CharacterView> {
    v.map_values(|c: Character| c@)
}

/// The test that a character passes when its name is `name`.
pub open spec fn has_name(name: Seq<char>) -> spec_fn(CharacterView) -> bool {
    |c: CharacterView| c.name == name
}

/// The test that a character passes when it is bound to connection `conn`.
pub open spec fn on_conn(conn: u64) -> spec_fn(CharacterView) -> bool {
    |c: CharacterView| c.conn == conn
}

/// Position of the first character named `name`, or the length of the list
/// if there is none.
pub fn find_by_name(characters: &Vec<Character>, name: &String) -> (i: usize)
    ensures
        i == first(character_views(characters@), has_name(name@)),
        i <= characters@.len(),
        i < characters@.len() ==> characters@[i as int]@.name == name@,
{
    let ghost views = character_views(characters@);
    let mut i: usize = 0;
    while i < characters.len()
        invariant
            i <= characters@.len(),
            views == character_views(characters@),
            forall|j: int| 0 <= j < i ==> !has_name(name@)(#[trigger] views[j]),
        decreases characters@.len() - i,
    {
        if characters[i].name == *name {
            proof {
                assert(has_name(name@)(views[i as int]));
                lemma_first_unique(views, has_name(name@), i as int);
            }
            return i;
        }
        i += 1;
    }
    proof {
        lemma_first_unique(views, has_name(name@), i as int);
    }
    i
}

/// Position of the first character bound to connection `conn`, or the length
/// of the list if there is none.
pub fn find_by_conn(characters: &Vec<Character>, conn: u64) -> (i: usize)
    ensures
        i == first(character_views(characters@), on_conn(conn)),
        i <= characters@.len(),
        i < characters@.len() ==> characters@[i as int]@.conn == conn,
{
    let ghost views = character_views(characters@);
    let mut i: usize = 0;
    while i < characters.len()
        invariant
            i <= characters@.len(),
            views == character_views(characters@),
            forall|j: int| 0 <= j < i ==> !on_conn(conn)(#[trigger] views[j]),
        decreases characters@.len() - i,
    {
        if characters[i].conn == conn {
            proof {
                assert(on_conn(conn)(views[i as int]));
                lemma_first_unique(views, on_conn(conn), i as int);
            }
            return i;
        }
        i += 1;
    }
    proof {
        lemma_first_unique(views, on_conn(conn), i as int);
    }
    i
}

} // verus!
