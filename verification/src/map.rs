//! Reading a world out of the JSON document of a map.
//!
//! The document is an object with a list `monsters` and a list `rooms`.
//! A monster has a `name`, a `description`, and the numbers `attack`,
//! `defense`, `regen`, `health`, `gold` and `current_room`. A room has an
//! `id`, a `name`, a `description`, and the lists of names `exits` and
//! `monsters`.

use vstd::prelude::*;
use crate::game::Game;
use crate::load::{emptied, fault, WorldError};
use crate::monster::{monster_views, number, Monster, MonsterView};
use crate::names::texts;
use crate::rules::GameView;
use crate::wire::{bits_i16, low16};
use crate::world::{room_views, Room, RoomView};

verus! {

/// Declares `serde_json::Value`, a JSON value, which is carried through
/// without a look inside: what it holds is known by the names below.
#[verifier::external_type_specification]
#[verifier::external_body]
pub struct ExValue(serde_json::Value);

/// What a JSON value holds under a key: the member of that name if the
/// value is an object that has one, else null.
pub uninterp spec fn json_member(value: serde_json::Value, key: Seq<char>) -> serde_json::Value;

/// The text of a JSON value, if it is a string.
pub uninterp spec fn json_text(value: serde_json::Value) -> Option<Seq<char>>;

/// The number of a JSON value, if it is an integer from 0 to 2^64 - 1. A
/// number that the document writes with a fraction or an exponent is none.
pub uninterp spec fn json_number(value: serde_json::Value) -> Option<u64>;

/// The items of a JSON value, if it is an array.
pub uninterp spec fn json_items(value: serde_json::Value) -> Option<Seq<serde_json::Value>>;

/// Calls the indexing of a `serde_json::Value` by a string, which gives the
/// member of an object under that key, and null where the value is no
/// object or has no such member. The contract, taken on trust, gives that
/// result its name.
#[verifier::external_body]
fn member_of<'a>(value: &'a serde_json::Value, key: &str) -> (res: &'a serde_json::Value)
    ensures
        *res == json_member(*value, key@),
{
    &value[key]
}

/// Calls `serde_json::Value::as_str`, which gives the text of a value that
/// is a string and nothing for any other. The contract, taken on trust,
/// gives that result its name.
#[verifier::external_body]
fn as_text<'a>(value: &'a serde_json::Value) -> (res: Option<&'a str>)
    ensures
        match res {
            Some(s) => json_text(*value) == Some(s@),
            None => json_text(*value) is None,
        },
{
    value.as_str()
}

/// Calls `serde_json::Value::as_u64`, which gives the number of a value
/// that is an integer from 0 to 2^64 - 1 and nothing for any other. The
/// contract, taken on trust, gives that result its name.
#[verifier::external_body]
fn as_number(value: &serde_json::Value) -> (res: Option<u64>)
    ensures
        res == json_number(*value),
{
    value.as_u64()
}

/// Calls `serde_json::Value::as_array`, which gives the items of a value
/// that is an array and nothing for any other. The contract, taken on
/// trust, gives that result its name.
#[verifier::external_body]
fn as_items<'a>(value: &'a serde_json::Value) -> (res: Option<&'a Vec<serde_json::Value>>)
    ensures
        match res {
            Some(items) => json_items(*value) == Some(items@),
            None => json_items(*value) is None,
        },
{
    value.as_array()
}

/// The text under a key of an object.
pub open spec fn text_under(value: serde_json::Value, key: Seq<char>) -> Option<Seq<char>> {
    json_text(json_member(value, key))
}

/// The number under a key of an object.
pub open spec fn number_under(value: serde_json::Value, key: Seq<char>) -> Option<u64> {
    json_number(json_member(value, key))
}

/// The monster that an object of the document describes. The flags are
/// those of a fresh monster; what is missing reads as `Monster::from_map`
/// says.
pub open spec fn monster_in(value: serde_json::Value) -> MonsterView {
    MonsterView {
        name: match text_under(value, "name"@) {
            Some(s) => s,
            None => "ERROR"@,
        },
        flags: 0xF8,
        attack: low16(number(number_under(value, "attack"@))),
        defense: low16(number(number_under(value, "defense"@))),
        regen: low16(number(number_under(value, "regen"@))),
        health: bits_i16(low16(number(number_under(value, "health"@)))),
        gold: low16(number(number_under(value, "gold"@))),
        current_room: low16(number(number_under(value, "current_room"@))),
        description: match text_under(value, "description"@) {
            Some(s) => s,
            None => "SOMETHING WENT WRONG"@,
        },
    }
}

/// Whether every item is a string.
pub open spec fn all_text(items: Seq<serde_json::Value>) -> bool {
    forall|k: int| 0 <= k < items.len() ==> json_text(#[trigger] items[k]) is Some
}

/// The names that a value lists, if it is an array of strings.
pub open spec fn names_in(value: serde_json::Value) -> Option<Seq<Seq<char>>> {
    match json_items(value) {
        Some(items) => if all_text(items) {
            Some(Seq::new(items.len(), |k: int| json_text(items[k])->0))
        } else {
            None
        },
        None => None,
    }
}

/// The room that an object of the document describes, with nobody in it;
/// nothing where it has no name or no description, or where its exits or
/// its monsters are no list of names. A number that is missing reads 99.
pub open spec fn room_in(value: serde_json::Value) -> Option<RoomView> {
    match (
        text_under(value, "name"@),
        text_under(value, "description"@),
        names_in(json_member(value, "exits"@)),
        names_in(json_member(value, "monsters"@)),
    ) {
        (Some(name), Some(description), Some(exits), Some(monsters)) => Some(
            RoomView {
                id: low16(
                    match number_under(value, "id"@) {
                        Some(v) => v,
                        None => 99,
                    },
                ),
                name,
                description,
                exits,
                characters: Seq::empty(),
                monsters,
            },
        ),
        _ => None,
    }
}

/// Whether every item describes a room.
pub open spec fn all_rooms(items: Seq<serde_json::Value>) -> bool {
    forall|k: int| 0 <= k < items.len() ==> room_in(#[trigger] items[k]) is Some
}

/// The rooms that the items describe.
pub open spec fn rooms_in(items: Seq<serde_json::Value>) -> Seq<RoomView> {
    Seq::new(items.len(), |k: int| room_in(items[k])->0)
}

/// The monsters that the items describe.
pub open spec fn monsters_in(items: Seq<serde_json::Value>) -> Seq<MonsterView> {
    Seq::new(items.len(), |k: int| monster_in(items[k]))
}

/// The first fault of the document of a map, or `None` for one that makes
/// a world: it has to have a list of monsters and a list of rooms, every
/// room has to be readable, and the map that they form has to be without
/// fault.
pub open spec fn document_fault(document: serde_json::Value) -> Option<WorldError> {
    match json_items(json_member(document, "monsters"@)) {
        None => Some(WorldError::NoMonsterList),
        Some(monsters) => match json_items(json_member(document, "rooms"@)) {
            None => Some(WorldError::NoRoomList),
            Some(rooms) => if !all_rooms(rooms) {
                Some(WorldError::UnreadableRoom)
            } else {
                fault(rooms_in(rooms), monsters_in(monsters))
            },
        },
    }
}

/// The world that the document of a map describes.
pub open spec fn world_in(document: serde_json::Value) -> GameView {
    GameView {
        rooms: rooms_in(json_items(json_member(document, "rooms"@))->0),
        monsters: monsters_in(json_items(json_member(document, "monsters"@))->0),
        characters: Seq::empty(),
    }
}

/// The text under a key of an object, as an owned string.
fn read_text(value: &serde_json::Value, key: &str) -> (res: Option<String>)
    ensures
        match res {
            Some(s) => text_under(*value, key@) == Some(s@),
            None => text_under(*value, key@) is None,
        },
{
    match as_text(member_of(value, key)) {
        Some(s) => Some(s.to_owned()),
        None => None,
    }
}

/// The names that a value lists, if it is an array of strings.
fn read_names(value: &serde_json::Value) -> (res: Option<Vec<String>>)
    ensures
        match res {
            Some(list) => names_in(*value) == Some(texts(list@)),
            None => names_in(*value) is None,
        },
{
    match as_items(value) {
        None => None,
        Some(items) => {
            let mut list: Vec<String> = Vec::new();
            let mut k: usize = 0;
            while k < items.len()
                invariant
                    k <= items@.len(),
                    json_items(*value) == Some(items@),
                    list@.len() == k,
                    forall|j: int| 0 <= j < k ==> json_text(#[trigger] items@[j]) == Some(list@[j]@),
                decreases items@.len() - k,
            {
                match as_text(&items[k]) {
                    Some(s) => {
                        list.push(s.to_owned());
                    },
                    None => {
                        assert(json_text(items@[k as int]) is None);
                        assert(!all_text(items@));
                        return None;
                    },
                }
                k += 1;
            }
            assert(texts(list@) =~= Seq::new(items@.len(), |k: int| json_text(items@[k])->0));
            Some(list)
        },
    }
}

/// The monster that an object of the document describes.
fn read_monster(value: &serde_json::Value) -> (m: Monster)
    ensures
        m@ == monster_in(*value),
{
    Monster::from_map(
        read_text(value, "name"),
        read_text(value, "description"),
        as_number(member_of(value, "attack")),
        as_number(member_of(value, "defense")),
        as_number(member_of(value, "regen")),
        as_number(member_of(value, "health")),
        as_number(member_of(value, "gold")),
        as_number(member_of(value, "current_room")),
    )
}

/// The room that an object of the document describes.
fn read_room(value: &serde_json::Value) -> (res: Option<Room>)
    ensures
        match res {
            Some(room) => room_in(*value) == Some(room@),
            None => room_in(*value) is None,
        },
{
    let exits = read_names(member_of(value, "exits"));
    let monsters = read_names(member_of(value, "monsters"));
    match (exits, monsters) {
        (Some(exits), Some(monsters)) => Room::from_map(
            as_number(member_of(value, "id")),
            read_text(value, "name"),
            read_text(value, "description"),
            exits,
            monsters,
        ),
        _ => None,
    }
}

/// Reads the world out of the document of a map. The monsters are read
/// first, then the rooms in their order; then the map is checked. The
/// result says what was wrong with the first thing that was.
pub fn read_map(document: &serde_json::Value) -> (res: Result<Game, WorldError>)
    ensures
        match res {
            Ok(game) => document_fault(*document) is None && game@ == world_in(*document)
                && game@.wf(),
            Err(e) => document_fault(*document) == Some(e),
        },
{
    let monster_items = match as_items(member_of(document, "monsters")) {
        Some(items) => items,
        None => {
            return Err(WorldError::NoMonsterList);
        },
    };
    let room_items = match as_items(member_of(document, "rooms")) {
        Some(items) => items,
        None => {
            return Err(WorldError::NoRoomList);
        },
    };
    let mut monsters: Vec<Monster> = Vec::new();
    let mut j: usize = 0;
    while j < monster_items.len()
        invariant
            j <= monster_items@.len(),
            monsters@.len() == j,
            forall|i: int| 0 <= i < j ==> (#[trigger] monsters@[i])@ == monster_in(monster_items@[i]),
        decreases monster_items@.len() - j,
    {
        monsters.push(read_monster(&monster_items[j]));
        j += 1;
    }
    assert(monster_views(monsters@) =~= monsters_in(monster_items@));
    let mut rooms: Vec<Room> = Vec::new();
    let mut k: usize = 0;
    while k < room_items.len()
        invariant
            k <= room_items@.len(),
            json_items(json_member(*document, "monsters"@)) == Some(monster_items@),
            json_items(json_member(*document, "rooms"@)) == Some(room_items@),
            rooms@.len() == k,
            forall|i: int| 0 <= i < k ==> room_in(#[trigger] room_items@[i]) == Some(rooms@[i]@),
        decreases room_items@.len() - k,
    {
        match read_room(&room_items[k]) {
            Some(room) => {
                rooms.push(room);
            },
            None => {
                assert(room_in(room_items@[k as int]) is None);
                assert(!all_rooms(room_items@));
                return Err(WorldError::UnreadableRoom);
            },
        }
        k += 1;
    }
    assert(room_views(rooms@) =~= rooms_in(room_items@));
    assert(emptied(rooms_in(room_items@)) =~= rooms_in(room_items@));
    Game::new(rooms, monsters)
}

} // verus!
