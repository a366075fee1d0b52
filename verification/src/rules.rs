//! The rules of the game, as functions from the state of the world and an
//! event to the next state and the frames that go out.

use vstd::prelude::*;
use vstd::utf8::encode_utf8;
use crate::action::ActionView;
use crate::character::{has_name, on_conn, CharacterView};
use crate::dispatch::{connections_shown, room_shown};
use crate::error_code::ErrorCode;
use crate::flags::{PLAYER_ACCEPTED, PLAYER_GONE, PLAYER_STARTED};
use crate::frame::{accept_frame, error_frame, message_frame};
use crate::monster::{is_named, MonsterView};
use crate::search::first;
use crate::wire::field32;
use crate::world::{moved, RoomView};

verus! {

/// The points that a new character may spend on attack, defense and regen.
pub const INITIAL_POINTS: u16 = 40;

/// The cap on any stat.
pub const STAT_LIMIT: u16 = 500;

/// The state of the world: the map, the monsters, and every character that
/// has been accepted since the server started.
pub struct GameView {
    pub rooms: Seq<RoomView>,
    pub monsters: Seq<MonsterView>,
    pub characters: Seq<CharacterView>,
}

/// What an event leads to: the next state, and what the host is asked to do.
pub struct Outcome {
    pub game: GameView,
    pub actions: Seq<ActionView>,
}

/// Some character named `name` has `room` as its current room.
pub open spec fn lives_in(characters: Seq<CharacterView>, name: Seq<char>, room: int) -> bool {
    exists|c: int|
        0 <= c < characters.len() && (#[trigger] characters[c]).name == name
            && characters[c].current_room == room
}

/// Some room is named `name`.
pub open spec fn is_room_name(rooms: Seq<RoomView>, name: Seq<char>) -> bool {
    exists|j: int| 0 <= j < rooms.len() && (#[trigger] rooms[j]).name == name
}

/// Some monster named `name` has `room` as its current room.
pub open spec fn lurks_in(monsters: Seq<MonsterView>, name: Seq<char>, room: int) -> bool {
    exists|j: int|
        0 <= j < monsters.len() && (#[trigger] monsters[j]).name == name && monsters[j].current_room
            == room
}

/// Each room has its place in the list as its number.
pub open spec fn rooms_numbered(rooms: Seq<RoomView>) -> bool {
    forall|i: int| 0 <= i < rooms.len() ==> (#[trigger] rooms[i]).id == i
}

/// No two rooms share a name.
pub open spec fn room_names_distinct(rooms: Seq<RoomView>) -> bool {
    forall|i: int, j: int|
        0 <= i < j < rooms.len() ==> (#[trigger] rooms[i]).name != (#[trigger] rooms[j]).name
}

/// Every exit names a room.
pub open spec fn exits_lead(rooms: Seq<RoomView>) -> bool {
    forall|i: int, k: int|
        0 <= i < rooms.len() && 0 <= k < rooms[i].exits.len() ==> is_room_name(
            rooms,
            #[trigger] rooms[i].exits[k],
        )
}

/// No two monsters share a name.
pub open spec fn monster_names_distinct(monsters: Seq<MonsterView>) -> bool {
    forall|i: int, j: int|
        0 <= i < j < monsters.len() ==> (#[trigger] monsters[i]).name != (#[trigger] monsters[j]).name
}

/// Every monster that a room lists is a monster of that room.
pub open spec fn monsters_at_home(rooms: Seq<RoomView>, monsters: Seq<MonsterView>) -> bool {
    forall|i: int, k: int|
        0 <= i < rooms.len() && 0 <= k < rooms[i].monsters.len() ==> lurks_in(
            monsters,
            #[trigger] rooms[i].monsters[k],
            i,
        )
}

/// What loading a map establishes, and no event changes: there are between
/// 1 and 65536 rooms, numbered by their place, no two rooms and no two
/// monsters share a name, every exit names a room, and every monster listed
/// in a room is a monster of that room.
#[verifier::opaque]
pub open spec fn map_ok(rooms: Seq<RoomView>, monsters: Seq<MonsterView>) -> bool {
    &&& 1 <= rooms.len() <= 65536
    &&& rooms_numbered(rooms)
    &&& room_names_distinct(rooms)
    &&& exits_lead(rooms)
    &&& monster_names_distinct(monsters)
    &&& monsters_at_home(rooms, monsters)
}

/// No two characters share a name.
pub open spec fn character_names_distinct(characters: Seq<CharacterView>) -> bool {
    forall|a: int, b: int|
        0 <= a < b < characters.len() ==> (#[trigger] characters[a]).name != (
        #[trigger] characters[b]).name
}

/// Each character is in a room, and that room lists it.
pub open spec fn residents_listed(rooms: Seq<RoomView>, characters: Seq<CharacterView>) -> bool {
    forall|c: int|
        0 <= c < characters.len() ==> ((#[trigger] characters[c]).current_room as int) < rooms.len()
            && rooms[characters[c].current_room as int].characters.contains(characters[c].name)
}

/// Every name that a room lists is that of a character whose current room it is.
pub open spec fn lists_resolve(rooms: Seq<RoomView>, characters: Seq<CharacterView>) -> bool {
    forall|i: int, k: int|
        0 <= i < rooms.len() && 0 <= k < rooms[i].characters.len() ==> lives_in(
            characters,
            #[trigger] rooms[i].characters[k],
            i,
        )
}

/// No room lists a name twice.
pub open spec fn lists_plain(rooms: Seq<RoomView>) -> bool {
    forall|i: int| 0 <= i < rooms.len() ==> (#[trigger] rooms[i]).characters.no_duplicates()
}

/// Where the characters are: no two characters share a name, each character
/// is listed in its current room, every name listed in a room is that of a
/// character whose current room it is, and no list names anyone twice.
#[verifier::opaque]
pub open spec fn placed_ok(rooms: Seq<RoomView>, characters: Seq<CharacterView>) -> bool {
    &&& character_names_distinct(characters)
    &&& residents_listed(rooms, characters)
    &&& lists_resolve(rooms, characters)
    &&& lists_plain(rooms)
}

/// The name that a character gets: the one asked for, or "Default" where none was given.
pub open spec fn given_name(name: Seq<char>) -> Seq<char> {
    if name.len() == 0 {
        "Default"@
    } else {
        name
    }
}

/// The flags that a character starts with: those asked for, or, where none
/// or all were asked for, those of an accepted player.
pub open spec fn given_flags(flags: u8) -> u8 {
    if flags == 0 || flags == 0xff {
        PLAYER_ACCEPTED
    } else {
        flags
    }
}

/// The health that a character starts with: what was asked for, or 20 where 0 was.
pub open spec fn given_health(health: i16) -> i16 {
    if health == 0 {
        20
    } else {
        health
    }
}

/// Whether the stats asked for are within the points that a new character may spend.
pub open spec fn affordable(attack: u16, defense: u16, regen: u16) -> bool {
    attack + defense + regen <= 40
}

/// The sender field of a narration: "Narrator", with the last two bytes of
/// the field set to 0 and 1.
pub open spec fn narrator() -> Seq<u8> {
    field32(encode_utf8("Narrator"@)).update(30, 0u8).update(31, 1u8)
}

/// What a revived character is told, which depends on the name of the first room.
pub open spec fn revival_text(entrance: Seq<char>) -> Seq<char> {
    if entrance == "Temple Entrance"@ {
        "As you regain conciousness, you see a Wallmaster retreating into the darkness above."@
    } else {
        "You feel exhasted and groggy, you hear laughing and the sound of wood clacking together. A Skullkid must have dragged you back to the entrance."@
    }
}

/// The request to write an ERROR frame to `author`.
pub open spec fn refusal(author: u64, code: ErrorCode, text: Seq<char>) -> ActionView {
    ActionView::Send { to: author, bytes: error_frame(code.spec_code(), encode_utf8(text)) }
}

impl GameView {
    /// The state is sound: the map is as it was loaded, and the characters
    /// are where the rooms say.
    pub open spec fn wf(self) -> bool {
        &&& map_ok(self.rooms, self.monsters)
        &&& placed_ok(self.rooms, self.characters)
    }

    /// Position of the character bound to connection `author`, or the number
    /// of characters if there is none.
    pub open spec fn speaker(self, author: u64) -> int {
        first(self.characters, on_conn(author))
    }

    /// Position of the character named `name`, or the number of characters
    /// if there is none.
    pub open spec fn bearer(self, name: Seq<char>) -> int {
        first(self.characters, has_name(name))
    }

    /// Position of the monster named `name`, or the number of monsters if
    /// there is none.
    pub open spec fn beast(self, name: Seq<char>) -> int {
        first(self.monsters, is_named(name))
    }

    /// Nothing changes and nothing goes out.
    pub open spec fn ignore(self) -> Outcome {
        Outcome { game: self, actions: Seq::empty() }
    }

    /// Nothing changes, and `author` gets an ERROR frame.
    pub open spec fn refuse(self, author: u64, code: ErrorCode, text: Seq<char>) -> Outcome {
        Outcome { game: self, actions: seq![refusal(author, code, text)] }
    }

    /// Nothing changes, and `author` gets one frame.
    pub open spec fn answer(self, author: u64, bytes: Seq<u8>) -> Outcome {
        Outcome { game: self, actions: seq![ActionView::Send { to: author, bytes }] }
    }

    /// MESSAGE: the text goes to the connection of the character named
    /// `recipient`; where no character bears that name, nothing happens.
    pub open spec fn relay(self, recipient: Seq<char>, sender: Seq<char>, text: Seq<char>) -> Outcome {
        let i = self.bearer(recipient);
        if i < self.characters.len() {
            self.answer(
                self.characters[i].conn,
                message_frame(encode_utf8(recipient), encode_utf8(sender), encode_utf8(text)),
            )
        } else {
            self.ignore()
        }
    }

    /// Whether room number `to` exists and is named by an exit of room `from`.
    pub open spec fn is_exit(self, from: int, to: u16) -> bool {
        &&& (to as int) < self.rooms.len()
        &&& self.rooms[from].exits.contains(self.rooms[to as int].name)
    }

    /// The state after character `i` has moved to room `to`.
    pub open spec fn relocated(self, i: int, to: u16) -> GameView {
        GameView {
            rooms: moved(
                self.rooms,
                self.characters[i].name,
                to as int,
                self.characters[i].current_room as int,
            ),
            characters: self.characters.update(
                i,
                CharacterView { current_room: to, ..self.characters[i] },
            ),
            ..self
        }
    }

    /// CHANGEROOM: a living character moves through an exit of its room. It
    /// is shown the new room, the others of both rooms are told, and it is
    /// shown the exits of the new room.
    pub open spec fn change_room(self, author: u64, room_num: u16) -> Outcome {
        let i = self.speaker(author);
        if i >= self.characters.len() {
            self.ignore()
        } else if self.characters[i].is_dead() {
            self.refuse(author, ErrorCode::Other, "Player is dead and cannot change rooms!"@)
        } else if !self.is_exit(self.characters[i].current_room as int, room_num) {
            self.refuse(author, ErrorCode::BadRoom, "Not a valid room or connection!"@)
        } else {
            let old_room = self.characters[i].current_room as int;
            let next = self.relocated(i, room_num);
            Outcome {
                game: next,
                actions: room_shown(
                    next.rooms,
                    next.characters,
                    next.monsters,
                    author,
                    room_num as int,
                    old_room,
                ) + connections_shown(next.rooms, room_num as int, author),
            }
        }
    }

    /// START: the character is shown the first room, the others there are
    /// told of it, its flags become those of a started player, and it is
    /// shown the exits of the first room.
    pub open spec fn start(self, author: u64) -> Outcome {
        let i = self.speaker(author);
        if i >= self.characters.len() {
            self.ignore()
        } else {
            Outcome {
                game: GameView {
                    characters: self.characters.update(
                        i,
                        CharacterView { flags: PLAYER_STARTED, ..self.characters[i] },
                    ),
                    ..self
                },
                actions: room_shown(self.rooms, self.characters, self.monsters, author, 0, 0)
                    + connections_shown(self.rooms, 0, author),
            }
        }
    }

    /// LEAVE: the character of the connection becomes inactive and loses its
    /// flags, and the connection is closed.
    pub open spec fn leave(self, author: u64) -> Outcome {
        let i = self.speaker(author);
        Outcome {
            game: if i < self.characters.len() {
                GameView {
                    characters: self.characters.update(
                        i,
                        CharacterView { active: false, flags: PLAYER_GONE, ..self.characters[i] },
                    ),
                    ..self
                }
            } else {
                self
            },
            actions: seq![ActionView::Close { conn: author }],
        }
    }

    /// The gold of a character that takes `gain` more: it stops at 65535.
    pub open spec fn purse(gold: u16, gain: u16) -> u16 {
        if gold + gain > 65535 {
            65535
        } else {
            (gold + gain) as u16
        }
    }

    /// LOOT: a living character takes all the gold of a dead monster that
    /// still has some, and is shown itself and the monster.
    pub open spec fn loot(self, author: u64, target: Seq<char>) -> Outcome {
        let i = self.speaker(author);
        let j = self.beast(target);
        if i >= self.characters.len() {
            self.ignore()
        } else if self.characters[i].is_dead() {
            self.refuse(author, ErrorCode::Other, "Player is dead and cannot loot!"@)
        } else if j >= self.monsters.len() {
            self.refuse(author, ErrorCode::BadMonster, "Not a valid monster to loot!"@)
        } else if self.monsters[j].health > 0 {
            self.refuse(author, ErrorCode::BadMonster, "Monster is not dead and cannot be looted!"@)
        } else if self.monsters[j].gold == 0 {
            self.refuse(author, ErrorCode::BadMonster, "Monster has already been looted!"@)
        } else {
            let rich = CharacterView {
                gold: Self::purse(self.characters[i].gold, self.monsters[j].gold),
                ..self.characters[i]
            };
            let poor = MonsterView { gold: 0, ..self.monsters[j] };
            Outcome {
                game: GameView {
                    characters: self.characters.update(i, rich),
                    monsters: self.monsters.update(j, poor),
                    ..self
                },
                actions: seq![
                    ActionView::Send { to: author, bytes: rich.frame() },
                    ActionView::Send { to: author, bytes: poor.frame() },
                ],
            }
        }
    }

    /// CHARACTER for a name that an inactive character bears: the character
    /// is bound to the new connection and becomes active, with the flags of
    /// an accepted player and in the room asked for; its stats stay.
    pub open spec fn revive(self, author: u64, i: int, room: u16) -> Outcome {
        if room as int >= self.rooms.len() {
            self.refuse(author, ErrorCode::BadRoom, "Not a valid room or connection!"@)
        } else {
            let back = CharacterView {
                conn: author,
                active: true,
                flags: PLAYER_ACCEPTED,
                current_room: room,
                ..self.characters[i]
            };
            Outcome {
                game: GameView {
                    rooms: moved(
                        self.rooms,
                        back.name,
                        room as int,
                        self.characters[i].current_room as int,
                    ),
                    characters: self.characters.update(i, back),
                    ..self
                },
                actions: seq![
                    ActionView::Send { to: author, bytes: accept_frame(10) },
                    ActionView::Send { to: author, bytes: back.frame() },
                    ActionView::Send {
                        to: author,
                        bytes: message_frame(
                            encode_utf8(back.name),
                            narrator(),
                            encode_utf8(revival_text(self.rooms[0].name)),
                        ),
                    },
                ],
            }
        }
    }

    /// CHARACTER for a name that nobody bears: where the stats are within
    /// the points to spend, a character is made, is put in the first room,
    /// and is accepted.
    pub open spec fn create(
        self,
        author: u64,
        name: Seq<char>,
        flags: u8,
        attack: u16,
        defense: u16,
        regen: u16,
        health: i16,
        description: Seq<char>,
    ) -> Outcome {
        if !affordable(attack, defense, regen) {
            self.refuse(author, ErrorCode::StatError, "Total points exceeds initial points"@)
        } else {
            let fresh = CharacterView {
                conn: author,
                active: true,
                name,
                flags: given_flags(flags),
                attack,
                defense,
                regen,
                health: given_health(health),
                gold: 0,
                current_room: 0,
                description,
            };
            Outcome {
                game: GameView {
                    rooms: moved(self.rooms, name, 0, 0),
                    characters: self.characters.push(fresh),
                    ..self
                },
                actions: seq![
                    ActionView::Send { to: author, bytes: accept_frame(10) },
                    ActionView::Send { to: author, bytes: fresh.frame() },
                ],
            }
        }
    }

    /// CHARACTER: a name that an active character bears is refused, one that
    /// an inactive character bears revives it, and a new one makes a
    /// character. The name is taken as the event gives it: the connection
    /// handler has put "Default" where the client gave none.
    pub open spec fn join(
        self,
        author: u64,
        name: Seq<char>,
        flags: u8,
        attack: u16,
        defense: u16,
        regen: u16,
        health: i16,
        current_room: u16,
        description: Seq<char>,
    ) -> Outcome {
        let i = self.bearer(name);
        if i < self.characters.len() {
            if self.characters[i].active {
                self.refuse(author, ErrorCode::PlayerExists, "Character already exists!"@)
            } else {
                self.revive(author, i, current_room)
            }
        } else {
            self.create(author, name, flags, attack, defense, regen, health, description)
        }
    }
}

} // verus!
