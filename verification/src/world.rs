//! Rooms and the map they form.

use vstd::prelude::*;
use vstd::utf8::encode_utf8;
use crate::character::Character;
use crate::frame::{build_place, connection_frame, room_frame, CONNECTION, ROOM};
use crate::names::{clone_names, contains_name, texts, without, without_name};
use crate::wire::{low16, low_bits};

verus! {

/// A room of the map. Its exits name other rooms; `characters` and `monsters`
/// name who is in it. Exits and monsters are fixed when the map is loaded;
/// the characters change as players move.
#[derive(Debug, PartialEq, Eq)]
pub struct Room {
    pub id: u16,
    pub name: String,
    pub description: String,
    pub exits: Vec<String>,
    pub characters: Vec<String>,
    pub monsters: Vec<String>,
}

/// What a room is, as plain values.
pub struct RoomView {
    pub id: u16,
    pub name: Seq<char>,
    pub description: Seq<char>,
    pub exits: Seq<Seq<char>>,
    pub characters: Seq<Seq<char>>,
    pub monsters: Seq<Seq<char>>,
}

impl View for Room {
    type V = RoomView;

    open spec fn view(&self) -> RoomView {
        RoomView {
            id: self.id,
            name: self.name@,
            description: self.description@,
            exits: texts(self.exits@),
            characters: texts(self.characters@),
            monsters: texts(self.monsters@),
        }
    }
}

impl RoomView {
    /// The ROOM frame that describes this room to a player in it.
    pub open spec fn frame(self) -> Seq<u8> {
        room_frame(self.id, encode_utf8(self.name), encode_utf8(self.description))
    }

    /// The CONNECTION frame that describes this room as an exit of another.
    pub open spec fn connection(self) -> Seq<u8> {
        connection_frame(self.id, encode_utf8(self.name), encode_utf8(self.description))
    }

}

impl Clone for Room {
    fn clone(&self) -> (res: Self)
        ensures
            res@ == self@,
    {
        Room {
            id: self.id,
            name: self.name.clone(),
            description: self.description.clone(),
            exits: clone_names(&self.exits),
            characters: clone_names(&self.characters),
            monsters: clone_names(&self.monsters),
        }
    }
}

impl Room {
    /// A room as a map describes it, with nobody in it: `None` where the
    /// map gives it no name or no description. A number that is missing
    /// reads 99, and of a number only the low 16 bits count.
    pub fn from_map(
        id: Option<u64>,
        name: Option<String>,
        description: Option<String>,
        exits: Vec<String>,
        monsters: Vec<String>,
    ) -> (res: Option<Room>)
        ensures
            res is Some <==> name is Some && description is Some,
            res matches Some(room) ==> room@ == (RoomView {
                id: low16(
                    match id {
                        Some(v) => v,
                        None => 99,
                    },
                ),
                name: name->0@,
                description: description->0@,
                exits: texts(exits@),
                characters: Seq::empty(),
                monsters: texts(monsters@),
            }),
    {
        match (name, description) {
            (Some(name), Some(description)) => {
                let characters: Vec<String> = Vec::new();
                assert(texts(characters@) =~= Seq::<Seq<char>>::empty());
                Some(
                    Room {
                        id: low_bits(
                            match id {
                                Some(v) => v,
                                None => 99,
                            },
                        ),
                        name,
                        description,
                        exits,
                        characters,
                        monsters,
                    },
                )
            },
            _ => None,
        }
    }

    /// The ROOM frame that describes this room to a player in it.
    pub fn to_frame(&self) -> (out: Vec<u8>)
        ensures
            out@ == self@.frame(),
    {
        let out = build_place(
            ROOM,
            self.id,
            self.name.as_str().as_bytes(),
            self.description.as_str().as_bytes(),
        );
        assert(out@ =~= self@.frame());
        out
    }

    /// The CONNECTION frame that describes this room as an exit of another.
    pub fn to_connection(&self) -> (out: Vec<u8>)
        ensures
            out@ == self@.connection(),
    {
        let out = build_place(
            CONNECTION,
            self.id,
            self.name.as_str().as_bytes(),
            self.description.as_str().as_bytes(),
        );
        assert(out@ =~= self@.connection());
        out
    }
}

/// What a list of rooms is, as plain values.
pub open spec fn room_views(v: Seq<Room>) -> Seq<RoomView> {
    v.map_values(|r: Room| r@)
}

/// The test that a room passes when its name is one of `names`.
pub open spec fn named_in(names: Seq<Seq<char>>) -> spec_fn(RoomView) -> bool {
    |r: RoomView| names.contains(r.name)
}

/// The rooms whose names are among `names`, in the order of the map.
pub open spec fn rooms_named(rooms: Seq<RoomView>, names: Seq<Seq<char>>) -> Seq<RoomView> {
    rooms.filter(named_in(names))
}

/// The map after a name has moved from the list of room `old` to that of
/// room `new`: the name leaves the old list wherever it stood, and is put at
/// the end of the new one. Where `old` is no room nothing changes; where only
/// `new` is none the name just leaves.
pub open spec fn moved(rooms: Seq<RoomView>, name: Seq<char>, new: int, old: int) -> Seq<RoomView> {
    if !(0 <= old < rooms.len()) {
        rooms
    } else {
        let left = rooms.update(
            old,
            RoomView { characters: without(rooms[old].characters, name), ..rooms[old] },
        );
        if !(0 <= new < rooms.len()) {
            left
        } else {
            left.update(new, RoomView { characters: left[new].characters.push(name), ..left[new] })
        }
    }
}

/// The rooms that `connecting_rooms` names, in the order of the map.
pub fn find_rooms(map: &Vec<Room>, connecting_rooms: &Vec<String>) -> (rooms: Vec<Room>)
    ensures
        room_views(rooms@) == rooms_named(room_views(map@), texts(connecting_rooms@)),
{
    let ghost pick = named_in(texts(connecting_rooms@));
    let mut rooms: Vec<Room> = Vec::new();
    let mut i: usize = 0;
    proof {
        reveal(Seq::filter);
        assert(room_views(map@).subrange(0, 0) =~= Seq::<RoomView>::empty());
    }
    while i < map.len()
        invariant
            i <= map@.len(),
            pick == named_in(texts(connecting_rooms@)),
            room_views(rooms@) == room_views(map@).subrange(0, i as int).filter(pick),
        decreases map@.len() - i,
    {
        let ghost before = room_views(map@).subrange(0, i as int);
        let ghost this = map@[i as int]@;
        proof {
            assert(room_views(map@).subrange(0, i + 1) =~= before.push(this));
            Seq::lemma_filter_push(before, this, pick);
        }
        if contains_name(connecting_rooms, &map[i].name) {
            rooms.push(map[i].clone());
            assert(room_views(rooms@) =~= before.filter(pick).push(this));
        }
        i += 1;
    }
    assert(room_views(map@).subrange(0, i as int) =~= room_views(map@));
    rooms
}

/// Moves the character's name from the list of room `old_room_num` to that
/// of room `new_room_num`.
pub fn move_character(
    map: &mut Vec<Room>,
    character: &Character,
    new_room_num: usize,
    old_room_num: usize,
)
    ensures
        room_views(final(map)@) == moved(
            room_views(old(map)@),
            character@.name,
            new_room_num as int,
            old_room_num as int,
        ),
{
    if old_room_num >= map.len() {
        return;
    }
    let kept = without_name(&map[old_room_num].characters, &character.name);
    map[old_room_num].characters = kept;
    let ghost left = room_views(old(map)@).update(
        old_room_num as int,
        RoomView {
            characters: without(room_views(old(map)@)[old_room_num as int].characters, character@.name),
            ..room_views(old(map)@)[old_room_num as int]
        },
    );
    assert(room_views(map@) =~= left);
    if new_room_num >= map.len() {
        return;
    }
    map[new_room_num].characters.push(character.name.clone());
    assert(map@[new_room_num as int]@.characters =~= left[new_room_num as int].characters.push(
        character@.name,
    ));
    assert(room_views(map@) =~= left.update(
        new_room_num as int,
        RoomView {
            characters: left[new_room_num as int].characters.push(character@.name),
            ..left[new_room_num as int]
        },
    ));
}

} // verus!
