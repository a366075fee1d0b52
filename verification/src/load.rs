//! Making a world from a map: the checks that a map has to pass, and the
//! checks that tell whether a world is sound.

use vstd::prelude::*;
use crate::character::{character_views, find_by_name, has_name, Character};
use crate::names::{contains_name, texts};
use crate::game::Game;
use crate::monster::{find_monster, is_named, monster_views, Monster, MonsterView};
use crate::rules::{
    character_names_distinct,
    exits_lead,
    is_room_name,
    lists_plain,
    lists_resolve,
    lives_in,
    lurks_in,
    map_ok,
    monster_names_distinct,
    monsters_at_home,
    placed_ok,
    residents_listed,
    room_names_distinct,
    rooms_numbered,
};
use crate::search::{first, lemma_first, lemma_first_unique};
use crate::world::{room_views, Room, RoomView};

verus! {

/// Why a map was refused.
#[derive(Clone, Copy, Debug, PartialEq, Eq, Structural)]
pub enum WorldError {
    /// The map has no room.
    NoRooms,
    /// The map has more rooms than a 16-bit room number can tell apart.
    TooManyRooms,
    /// A room's number is not its place in the list.
    BadRoomNumber,
    /// Two rooms share a name.
    DuplicateRoom,
    /// An exit names no room.
    UnknownExit,
    /// Two monsters share a name.
    DuplicateMonster,
    /// A room lists a monster that does not exist, or whose room is another.
    StrayMonster,
    /// The document of the map has no list of monsters.
    NoMonsterList,
    /// The document of the map has no list of rooms.
    NoRoomList,
    /// A room of the document has no name or no description, or its exits
    /// or its monsters are no list of names.
    UnreadableRoom,
}

/// The first fault of a map, in the order in which a map is checked, or
/// `None` for a map without fault.
pub open spec fn fault(rooms: Seq<RoomView>, monsters: Seq<MonsterView>) -> Option<WorldError> {
    if rooms.len() == 0 {
        Some(WorldError::NoRooms)
    } else if rooms.len() > 65536 {
        Some(WorldError::TooManyRooms)
    } else if !rooms_numbered(rooms) {
        Some(WorldError::BadRoomNumber)
    } else if !room_names_distinct(rooms) {
        Some(WorldError::DuplicateRoom)
    } else if !exits_lead(rooms) {
        Some(WorldError::UnknownExit)
    } else if !monster_names_distinct(monsters) {
        Some(WorldError::DuplicateMonster)
    } else if !monsters_at_home(rooms, monsters) {
        Some(WorldError::StrayMonster)
    } else {
        None
    }
}

/// A room with nobody in it.
pub open spec fn vacated() -> spec_fn(RoomView) -> RoomView {
    |r: RoomView| RoomView { characters: Seq::empty(), ..r }
}

/// The rooms with nobody in them.
pub open spec fn emptied(rooms: Seq<RoomView>) -> Seq<RoomView> {
    rooms.map_values(vacated())
}

/// The test that a room passes when its name is `name`.
pub open spec fn room_named(name: Seq<char>) -> spec_fn(RoomView) -> bool {
    |r: RoomView| r.name == name
}

/// A map is sound exactly when it has no fault.
pub proof fn lemma_fault_free(rooms: Seq<RoomView>, monsters: Seq<MonsterView>)
    ensures
        fault(rooms, monsters) is None <==> map_ok(rooms, monsters),
{
    reveal(map_ok);
}

/// A map without fault, with nobody in its rooms and no character yet, is a
/// sound state.
pub proof fn lemma_fresh_world(rooms: Seq<RoomView>, monsters: Seq<MonsterView>)
    requires
        fault(rooms, monsters) is None,
    ensures
        map_ok(emptied(rooms), monsters),
        placed_ok(emptied(rooms), Seq::empty()),
{
    reveal(map_ok);
    reveal(placed_ok);
    let e = emptied(rooms);
    assert forall|i: int, k: int| 0 <= i < e.len() && 0 <= k < e[i].exits.len() implies is_room_name(
        e,
        #[trigger] e[i].exits[k],
    ) by {
        assert(is_room_name(rooms, rooms[i].exits[k]));
        let j = choose|j: int| 0 <= j < rooms.len() && (#[trigger] rooms[j]).name == rooms[i].exits[k];
        assert(e[j].name == rooms[j].name);
    }
    assert forall|i: int, k: int| 0 <= i < e.len() && 0 <= k < e[i].monsters.len() implies lurks_in(
        monsters,
        #[trigger] e[i].monsters[k],
        i,
    ) by {
        assert(lurks_in(monsters, rooms[i].monsters[k], i));
    }
    assert forall|i: int| 0 <= i < e.len() implies (#[trigger] e[i]).id == i by {
        assert(rooms[i].id == i);
    }
    assert forall|i: int, j: int| 0 <= i < j < e.len() implies (#[trigger] e[i]).name != (
    #[trigger] e[j]).name by {
        assert(rooms[i].name != rooms[j].name);
    }
}

/// Whether each room has its place in the list as its number.
fn check_numbered(rooms: &Vec<Room>) -> (ok: bool)
    ensures
        ok == rooms_numbered(room_views(rooms@)),
{
    let mut i: usize = 0;
    while i < rooms.len()
        invariant
            i <= rooms@.len(),
            forall|j: int| 0 <= j < i ==> (#[trigger] room_views(rooms@)[j]).id == j,
        decreases rooms@.len() - i,
    {
        if rooms[i].id as usize != i {
            assert(room_views(rooms@)[i as int].id != i);
            return false;
        }
        i += 1;
    }
    true
}

/// Whether no two rooms share a name.
fn check_room_names(rooms: &Vec<Room>) -> (ok: bool)
    ensures
        ok == room_names_distinct(room_views(rooms@)),
{
    let ghost views = room_views(rooms@);
    let mut j: usize = 0;
    while j < rooms.len()
        invariant
            j <= rooms@.len(),
            views == room_views(rooms@),
            forall|a: int, b: int|
                0 <= a < b < j ==> (#[trigger] views[a]).name != (#[trigger] views[b]).name,
        decreases rooms@.len() - j,
    {
        let mut i: usize = 0;
        while i < j
            invariant
                i <= j < rooms@.len(),
                views == room_views(rooms@),
                forall|a: int| 0 <= a < i ==> (#[trigger] views[a]).name != views[j as int].name,
            decreases j - i,
        {
            if rooms[i].name == rooms[j].name {
                assert(views[i as int].name == views[j as int].name);
                return false;
            }
            i += 1;
        }
        j += 1;
    }
    true
}

/// Whether no two monsters share a name.
fn check_monster_names(monsters: &Vec<Monster>) -> (ok: bool)
    ensures
        ok == monster_names_distinct(monster_views(monsters@)),
{
    let ghost views = monster_views(monsters@);
    let mut j: usize = 0;
    while j < monsters.len()
        invariant
            j <= monsters@.len(),
            views == monster_views(monsters@),
            forall|a: int, b: int|
                0 <= a < b < j ==> (#[trigger] views[a]).name != (#[trigger] views[b]).name,
        decreases monsters@.len() - j,
    {
        let mut i: usize = 0;
        while i < j
            invariant
                i <= j < monsters@.len(),
                views == monster_views(monsters@),
                forall|a: int| 0 <= a < i ==> (#[trigger] views[a]).name != views[j as int].name,
            decreases j - i,
        {
            if monsters[i].name == monsters[j].name {
                assert(views[i as int].name == views[j as int].name);
                return false;
            }
            i += 1;
        }
        j += 1;
    }
    true
}

/// Position of the first room named `name`, or the number of rooms if there is none.
pub fn find_room(rooms: &Vec<Room>, name: &String) -> (i: usize)
    ensures
        i == first(room_views(rooms@), room_named(name@)),
        i <= rooms@.len(),
        i < rooms@.len() <==> is_room_name(room_views(rooms@), name@),
{
    let ghost views = room_views(rooms@);
    let mut i: usize = 0;
    while i < rooms.len()
        invariant
            i <= rooms@.len(),
            views == room_views(rooms@),
            forall|j: int| 0 <= j < i ==> !room_named(name@)(#[trigger] views[j]),
        decreases rooms@.len() - i,
    {
        if rooms[i].name == *name {
            proof {
                assert(room_named(name@)(views[i as int]));
                lemma_first_unique(views, room_named(name@), i as int);
            }
            return i;
        }
        i += 1;
    }
    proof {
        lemma_first_unique(views, room_named(name@), i as int);
        if is_room_name(views, name@) {
            let j = choose|j: int| 0 <= j < views.len() && (#[trigger] views[j]).name == name@;
            assert(!room_named(name@)(views[j]));
        }
    }
    i
}

/// Whether every exit names a room.
fn check_exits(rooms: &Vec<Room>) -> (ok: bool)
    ensures
        ok == exits_lead(room_views(rooms@)),
{
    let ghost views = room_views(rooms@);
    let mut i: usize = 0;
    while i < rooms.len()
        invariant
            i <= rooms@.len(),
            views == room_views(rooms@),
            forall|a: int, k: int|
                0 <= a < i && 0 <= k < views[a].exits.len() ==> is_room_name(
                    views,
                    #[trigger] views[a].exits[k],
                ),
        decreases rooms@.len() - i,
    {
        let mut k: usize = 0;
        while k < rooms[i].exits.len()
            invariant
                i < rooms@.len(),
                k <= rooms@[i as int].exits@.len(),
                views == room_views(rooms@),
                forall|b: int| 0 <= b < k ==> is_room_name(views, #[trigger] views[i as int].exits[b]),
            decreases rooms@[i as int].exits@.len() - k,
        {
            let at = find_room(rooms, &rooms[i].exits[k]);
            assert(views[i as int].exits[k as int] == rooms@[i as int].exits@[k as int]@);
            if at >= rooms.len() {
                assert(!is_room_name(views, views[i as int].exits[k as int]));
                return false;
            }
            k += 1;
        }
        i += 1;
    }
    true
}

/// Whether every monster that a room lists is a monster of that room.
fn check_monsters_home(rooms: &Vec<Room>, monsters: &Vec<Monster>) -> (ok: bool)
    requires
        monster_names_distinct(monster_views(monsters@)),
        rooms@.len() <= 65536,
    ensures
        ok == monsters_at_home(room_views(rooms@), monster_views(monsters@)),
{
    let ghost views = room_views(rooms@);
    let ghost beasts = monster_views(monsters@);
    let mut i: usize = 0;
    while i < rooms.len()
        invariant
            i <= rooms@.len(),
            rooms@.len() <= 65536,
            views == room_views(rooms@),
            beasts == monster_views(monsters@),
            monster_names_distinct(beasts),
            forall|a: int, k: int|
                0 <= a < i && 0 <= k < views[a].monsters.len() ==> lurks_in(
                    beasts,
                    #[trigger] views[a].monsters[k],
                    a,
                ),
        decreases rooms@.len() - i,
    {
        let mut k: usize = 0;
        while k < rooms[i].monsters.len()
            invariant
                i < rooms@.len(),
                rooms@.len() <= 65536,
                k <= rooms@[i as int].monsters@.len(),
                views == room_views(rooms@),
                beasts == monster_views(monsters@),
                monster_names_distinct(beasts),
                forall|b: int|
                    0 <= b < k ==> lurks_in(beasts, #[trigger] views[i as int].monsters[b], i as int),
            decreases rooms@[i as int].monsters@.len() - k,
        {
            let at = find_monster(monsters, &rooms[i].monsters[k]);
            let ghost name = views[i as int].monsters[k as int];
            assert(name == rooms@[i as int].monsters@[k as int]@);
            if at >= monsters.len() || monsters[at].current_room as usize != i {
                proof {
                    lemma_first(beasts, is_named(name));
                    if lurks_in(beasts, name, i as int) {
                        let j = choose|j: int|
                            0 <= j < beasts.len() && (#[trigger] beasts[j]).name == name
                                && beasts[j].current_room == i as int;
                        assert(is_named(name)(beasts[j]));
                        if at < beasts.len() {
                            if j < at {
                                assert(beasts[j].name != beasts[at as int].name);
                            }
                            if at < j {
                                assert(beasts[at as int].name != beasts[j].name);
                            }
                        }
                    }
                }
                return false;
            }
            assert(beasts[at as int].name == name && beasts[at as int].current_room == i as int);
            k += 1;
        }
        i += 1;
    }
    true
}

/// Takes every name off the rooms' lists of characters.
fn clear_characters(rooms: &mut Vec<Room>)
    ensures
        room_views(final(rooms)@) == emptied(room_views(old(rooms)@)),
{
    let n = rooms.len();
    let mut i: usize = 0;
    while i < n
        invariant
            i <= n,
            rooms@.len() == n,
            n == old(rooms)@.len(),
            forall|j: int| 0 <= j < i ==> (#[trigger] rooms@[j])@ == vacated()(old(rooms)@[j]@),
            forall|j: int| i <= j < n ==> (#[trigger] rooms@[j]) == old(rooms)@[j],
        decreases n - i,
    {
        rooms[i].characters = Vec::new();
        assert(rooms@[i as int]@.characters =~= Seq::<Seq<char>>::empty());
        i += 1;
    }
    assert(room_views(rooms@) =~= emptied(room_views(old(rooms)@)));
}

/// Whether no two characters share a name.
fn check_character_names(characters: &Vec<Character>) -> (ok: bool)
    ensures
        ok == character_names_distinct(character_views(characters@)),
{
    let ghost views = character_views(characters@);
    let mut j: usize = 0;
    while j < characters.len()
        invariant
            j <= characters@.len(),
            views == character_views(characters@),
            forall|a: int, b: int|
                0 <= a < b < j ==> (#[trigger] views[a]).name != (#[trigger] views[b]).name,
        decreases characters@.len() - j,
    {
        let mut i: usize = 0;
        while i < j
            invariant
                i <= j < characters@.len(),
                views == character_views(characters@),
                forall|a: int| 0 <= a < i ==> (#[trigger] views[a]).name != views[j as int].name,
            decreases j - i,
        {
            if characters[i].name == characters[j].name {
                assert(views[i as int].name == views[j as int].name);
                return false;
            }
            i += 1;
        }
        j += 1;
    }
    true
}

/// Whether each character is in a room that lists it.
fn check_residents(rooms: &Vec<Room>, characters: &Vec<Character>) -> (ok: bool)
    ensures
        ok == residents_listed(room_views(rooms@), character_views(characters@)),
{
    let ghost views = character_views(characters@);
    let ghost places = room_views(rooms@);
    let mut c: usize = 0;
    while c < characters.len()
        invariant
            c <= characters@.len(),
            views == character_views(characters@),
            places == room_views(rooms@),
            forall|d: int|
                0 <= d < c ==> ((#[trigger] views[d]).current_room as int) < places.len()
                    && places[views[d].current_room as int].characters.contains(views[d].name),
        decreases characters@.len() - c,
    {
        let at = characters[c].current_room as usize;
        if at >= rooms.len() || !contains_name(&rooms[at].characters, &characters[c].name) {
            assert(!((views[c as int].current_room as int) < places.len()
                && places[views[c as int].current_room as int].characters.contains(
                views[c as int].name,
            )));
            return false;
        }
        c += 1;
    }
    true
}

/// Whether every name that a room lists is that of a character of that room.
fn check_lists(rooms: &Vec<Room>, characters: &Vec<Character>) -> (ok: bool)
    requires
        character_names_distinct(character_views(characters@)),
        rooms@.len() <= 65536,
    ensures
        ok == lists_resolve(room_views(rooms@), character_views(characters@)),
{
    let ghost views = character_views(characters@);
    let ghost places = room_views(rooms@);
    let mut i: usize = 0;
    while i < rooms.len()
        invariant
            i <= rooms@.len(),
            rooms@.len() <= 65536,
            views == character_views(characters@),
            places == room_views(rooms@),
            character_names_distinct(views),
            forall|a: int, k: int|
                0 <= a < i && 0 <= k < places[a].characters.len() ==> lives_in(
                    views,
                    #[trigger] places[a].characters[k],
                    a,
                ),
        decreases rooms@.len() - i,
    {
        let mut k: usize = 0;
        while k < rooms[i].characters.len()
            invariant
                i < rooms@.len(),
                rooms@.len() <= 65536,
                k <= rooms@[i as int].characters@.len(),
                views == character_views(characters@),
                places == room_views(rooms@),
                character_names_distinct(views),
                forall|b: int|
                    0 <= b < k ==> lives_in(views, #[trigger] places[i as int].characters[b], i as int),
            decreases rooms@[i as int].characters@.len() - k,
        {
            let at = find_by_name(characters, &rooms[i].characters[k]);
            let ghost name = places[i as int].characters[k as int];
            assert(name == rooms@[i as int].characters@[k as int]@);
            if at >= characters.len() || characters[at].current_room as usize != i {
                proof {
                    lemma_first(views, has_name(name));
                    if lives_in(views, name, i as int) {
                        let j = choose|j: int|
                            0 <= j < views.len() && (#[trigger] views[j]).name == name
                                && views[j].current_room == i as int;
                        assert(has_name(name)(views[j]));
                        if at < views.len() {
                            if j < at {
                                assert(views[j].name != views[at as int].name);
                            }
                            if at < j {
                                assert(views[at as int].name != views[j].name);
                            }
                        }
                    }
                }
                return false;
            }
            assert(views[at as int].name == name && views[at as int].current_room == i as int);
            k += 1;
        }
        i += 1;
    }
    true
}

/// Whether the list names nobody twice.
fn no_repeats(list: &Vec<String>) -> (ok: bool)
    ensures
        ok == texts(list@).no_duplicates(),
{
    let ghost names = texts(list@);
    let mut j: usize = 0;
    while j < list.len()
        invariant
            j <= list@.len(),
            names == texts(list@),
            forall|a: int, b: int| 0 <= a < b < j ==> names[a] != names[b],
        decreases list@.len() - j,
    {
        let mut i: usize = 0;
        while i < j
            invariant
                i <= j < list@.len(),
                names == texts(list@),
                forall|a: int| 0 <= a < i ==> names[a] != names[j as int],
            decreases j - i,
        {
            if list[i] == list[j] {
                assert(names[i as int] == names[j as int]);
                return false;
            }
            i += 1;
        }
        j += 1;
    }
    assert forall|a: int, b: int| 0 <= a < names.len() && 0 <= b < names.len() && a != b implies names[a]
        != names[b] by {
        if a < b {
            assert(names[a] != names[b]);
        } else {
            assert(names[b] != names[a]);
        }
    }
    true
}

/// Whether no room lists a name twice.
fn check_plain(rooms: &Vec<Room>) -> (ok: bool)
    ensures
        ok == lists_plain(room_views(rooms@)),
{
    let ghost places = room_views(rooms@);
    let mut i: usize = 0;
    while i < rooms.len()
        invariant
            i <= rooms@.len(),
            places == room_views(rooms@),
            forall|a: int| 0 <= a < i ==> (#[trigger] places[a]).characters.no_duplicates(),
        decreases rooms@.len() - i,
    {
        if !no_repeats(&rooms[i].characters) {
            assert(!places[i as int].characters.no_duplicates());
            return false;
        }
        i += 1;
    }
    true
}

impl Game {
    /// Whether the state is sound. A world that `new` has made and that only
    /// the game loop has changed is; this lets a host make sure of a world
    /// that it has put together or changed by hand.
    pub fn is_sound(&self) -> (ok: bool)
        ensures
            ok == self@.wf(),
    {
        proof {
            reveal(map_ok);
            reveal(placed_ok);
        }
        self.rooms.len() >= 1 && self.rooms.len() <= 65536 && check_numbered(&self.rooms)
            && check_room_names(&self.rooms) && check_exits(&self.rooms) && check_monster_names(
            &self.monsters,
        ) && check_monsters_home(&self.rooms, &self.monsters) && check_character_names(
            &self.characters,
        ) && check_residents(&self.rooms, &self.characters) && check_lists(
            &self.rooms,
            &self.characters,
        ) && check_plain(&self.rooms)
    }

    /// A world made of a map, with nobody in it yet. The map is checked
    /// first; the result says which check it failed.
    pub fn new(rooms: Vec<Room>, monsters: Vec<Monster>) -> (res: Result<Game, WorldError>)
        ensures
            match res {
                Ok(game) => {
                    &&& fault(room_views(rooms@), monster_views(monsters@)) is None
                    &&& game@.wf()
                    &&& game@.rooms == emptied(room_views(rooms@))
                    &&& game@.monsters == monster_views(monsters@)
                    &&& game@.characters == Seq::<crate::character::CharacterView>::empty()
                },
                Err(e) => fault(room_views(rooms@), monster_views(monsters@)) == Some(e),
            },
    {
        if rooms.len() == 0 {
            return Err(WorldError::NoRooms);
        }
        if rooms.len() > 65536 {
            return Err(WorldError::TooManyRooms);
        }
        if !check_numbered(&rooms) {
            return Err(WorldError::BadRoomNumber);
        }
        if !check_room_names(&rooms) {
            return Err(WorldError::DuplicateRoom);
        }
        if !check_exits(&rooms) {
            return Err(WorldError::UnknownExit);
        }
        if !check_monster_names(&monsters) {
            return Err(WorldError::DuplicateMonster);
        }
        if !check_monsters_home(&rooms, &monsters) {
            return Err(WorldError::StrayMonster);
        }
        let mut rooms = rooms;
        let ghost loaded = room_views(rooms@);
        clear_characters(&mut rooms);
        let characters: Vec<Character> = Vec::new();
        proof {
            lemma_fresh_world(loaded, monster_views(monsters@));
            assert(character_views(characters@) =~= Seq::<
                crate::character::CharacterView,
            >::empty());
        }
        Ok(Game { rooms, monsters, characters })
    }
}

} // verus!
