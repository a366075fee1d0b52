//! Why the state of the world stays sound: each change that an event can
//! make keeps the map as it was loaded and the characters where the rooms
//! say they are.

use vstd::prelude::*;
use crate::character::{has_name, CharacterView};
use crate::monster::MonsterView;
use crate::names::{lemma_without, without};
use crate::rules::{is_room_name, lives_in, lurks_in, map_ok, placed_ok, GameView};
use crate::search::{first, lemma_first};
use crate::world::{moved, RoomView};

verus! {

/// `after` is `before` but for the characters that the rooms list.
pub open spec fn same_map(before: Seq<RoomView>, after: Seq<RoomView>) -> bool {
    &&& after.len() == before.len()
    &&& forall|r: int|
        0 <= r < before.len() ==> (#[trigger] after[r]).id == before[r].id && after[r].name
            == before[r].name && after[r].description == before[r].description && after[r].exits
            == before[r].exits && after[r].monsters == before[r].monsters
}

/// `after` is `before` but for the health, the flags and the gold of the monsters.
pub open spec fn same_monsters(before: Seq<MonsterView>, after: Seq<MonsterView>) -> bool {
    &&& after.len() == before.len()
    &&& forall|j: int|
        0 <= j < before.len() ==> (#[trigger] after[j]).name == before[j].name
            && after[j].current_room == before[j].current_room
}

/// `after` is `before` but for what does not say who a character is or where.
pub open spec fn same_places(before: Seq<CharacterView>, after: Seq<CharacterView>) -> bool {
    &&& after.len() == before.len()
    &&& forall|c: int|
        0 <= c < before.len() ==> (#[trigger] after[c]).name == before[c].name
            && after[c].current_room == before[c].current_room
}

/// Moving a name between lists changes nothing else of the map.
pub proof fn lemma_moved_same_map(rooms: Seq<RoomView>, name: Seq<char>, to: int, from: int)
    ensures
        same_map(rooms, moved(rooms, name, to, from)),
{
}

/// A map stays sound while its rooms keep all but their lists of characters
/// and its monsters keep their names and rooms.
pub proof fn lemma_map_ok_kept(
    rooms: Seq<RoomView>,
    monsters: Seq<MonsterView>,
    rooms2: Seq<RoomView>,
    monsters2: Seq<MonsterView>,
)
    requires
        map_ok(rooms, monsters),
        same_map(rooms, rooms2),
        same_monsters(monsters, monsters2),
    ensures
        map_ok(rooms2, monsters2),
{
    reveal(map_ok);
    assert forall|i: int| 0 <= i < rooms2.len() implies (#[trigger] rooms2[i]).id == i by {
        assert(rooms[i].id == i);
    }
    assert forall|i: int, j: int| 0 <= i < j < rooms2.len() implies (#[trigger] rooms2[i]).name != (
    #[trigger] rooms2[j]).name by {
        assert(rooms[i].name != rooms[j].name);
    }
    assert forall|i: int, k: int| 0 <= i < rooms2.len() && 0 <= k < rooms2[i].exits.len() implies is_room_name(
        rooms2,
        #[trigger] rooms2[i].exits[k],
    ) by {
        assert(rooms2[i].exits == rooms[i].exits);
        assert(is_room_name(rooms, rooms[i].exits[k]));
        let j = choose|j: int| 0 <= j < rooms.len() && (#[trigger] rooms[j]).name == rooms[i].exits[k];
        assert(rooms2[j].name == rooms[j].name);
    }
    assert forall|i: int, j: int| 0 <= i < j < monsters2.len() implies (#[trigger] monsters2[i]).name
        != (#[trigger] monsters2[j]).name by {
        assert(monsters[i].name != monsters[j].name);
    }
    assert forall|i: int, k: int|
        0 <= i < rooms2.len() && 0 <= k < rooms2[i].monsters.len() implies lurks_in(
        monsters2,
        #[trigger] rooms2[i].monsters[k],
        i,
    ) by {
        assert(rooms2[i].monsters == rooms[i].monsters);
        assert(lurks_in(monsters, rooms[i].monsters[k], i));
        let j = choose|j: int|
            0 <= j < monsters.len() && (#[trigger] monsters[j]).name == rooms[i].monsters[k]
                && monsters[j].current_room == i;
        assert(monsters2[j].name == monsters[j].name);
    }
}

/// The characters stay where the rooms say while the lists stay and each
/// character keeps its name and its room.
pub proof fn lemma_placed_ok_kept(
    rooms: Seq<RoomView>,
    characters: Seq<CharacterView>,
    characters2: Seq<CharacterView>,
)
    requires
        placed_ok(rooms, characters),
        same_places(characters, characters2),
    ensures
        placed_ok(rooms, characters2),
{
    reveal(placed_ok);
    assert forall|a: int, b: int| 0 <= a < b < characters2.len() implies (
    #[trigger] characters2[a]).name != (#[trigger] characters2[b]).name by {
        assert(characters[a].name != characters[b].name);
    }
    assert forall|c: int| 0 <= c < characters2.len() implies ((
    #[trigger] characters2[c]).current_room as int) < rooms.len() && rooms[characters2[c].current_room as int].characters.contains(
        characters2[c].name,
    ) by {
        assert((characters[c].current_room as int) < rooms.len());
    }
    assert forall|i: int, k: int|
        0 <= i < rooms.len() && 0 <= k < rooms[i].characters.len() implies lives_in(
        characters2,
        #[trigger] rooms[i].characters[k],
        i,
    ) by {
        assert(lives_in(characters, rooms[i].characters[k], i));
        let c = choose|c: int|
            0 <= c < characters.len() && (#[trigger] characters[c]).name == rooms[i].characters[k]
                && characters[c].current_room == i;
        assert(characters2[c].name == characters[c].name);
    }
}

/// A name is listed only in the room of the character that bears it.
pub proof fn lemma_listed_once(
    rooms: Seq<RoomView>,
    characters: Seq<CharacterView>,
    i: int,
    r: int,
)
    requires
        placed_ok(rooms, characters),
        0 <= i < characters.len(),
        0 <= r < rooms.len(),
        rooms[r].characters.contains(characters[i].name),
    ensures
        r == characters[i].current_room,
{
    reveal(placed_ok);
    let name = characters[i].name;
    let k = choose|k: int| 0 <= k < rooms[r].characters.len() && rooms[r].characters[k] == name;
    assert(lives_in(characters, rooms[r].characters[k], r));
    let c = choose|c: int|
        0 <= c < characters.len() && (#[trigger] characters[c]).name == name
            && characters[c].current_room == r;
    if c < i {
        assert(characters[c].name != characters[i].name);
    }
    if i < c {
        assert(characters[i].name != characters[c].name);
    }
}

/// A name that no character bears is listed nowhere.
pub proof fn lemma_unlisted(
    rooms: Seq<RoomView>,
    characters: Seq<CharacterView>,
    name: Seq<char>,
    r: int,
)
    requires
        placed_ok(rooms, characters),
        first(characters, has_name(name)) >= characters.len(),
        0 <= r < rooms.len(),
    ensures
        !rooms[r].characters.contains(name),
{
    reveal(placed_ok);
    lemma_first(characters, has_name(name));
    if rooms[r].characters.contains(name) {
        let k = choose|k: int| 0 <= k < rooms[r].characters.len() && rooms[r].characters[k] == name;
        assert(lives_in(characters, rooms[r].characters[k], r));
        let c = choose|c: int|
            0 <= c < characters.len() && (#[trigger] characters[c]).name == name
                && characters[c].current_room == r;
        assert(!has_name(name)(characters[c]));
    }
}

/// A list with one more name at its end names nobody twice, if it did not
/// and the name was not on it.
pub proof fn lemma_push_no_duplicates(list: Seq<Seq<char>>, name: Seq<char>)
    requires
        list.no_duplicates(),
        !list.contains(name),
    ensures
        list.push(name).no_duplicates(),
{
    let grown = list.push(name);
    assert forall|a: int, b: int| 0 <= a < grown.len() && 0 <= b < grown.len() && a != b implies grown[a]
        != grown[b] by {
        if a < list.len() && b < list.len() {
        } else if a < list.len() {
            assert(list.contains(list[a]));
        } else {
            assert(list.contains(list[b]));
        }
    }
}

/// The characters stay where the rooms say when a character moves: its name
/// goes from the list of its room to that of another, and its current room
/// follows.
pub proof fn lemma_move_keeps_placed(
    rooms: Seq<RoomView>,
    characters: Seq<CharacterView>,
    i: int,
    to: int,
    changed: CharacterView,
)
    requires
        placed_ok(rooms, characters),
        0 <= i < characters.len(),
        0 <= to < rooms.len(),
        changed.name == characters[i].name,
        changed.current_room == to,
    ensures
        placed_ok(
            moved(rooms, characters[i].name, to, characters[i].current_room as int),
            characters.update(i, changed),
        ),
{
    reveal(placed_ok);
    let name = characters[i].name;
    let from = characters[i].current_room as int;
    let rooms2 = moved(rooms, name, to, from);
    let characters2 = characters.update(i, changed);
    assert(0 <= from < rooms.len());
    let left = rooms.update(
        from,
        RoomView { characters: without(rooms[from].characters, name), ..rooms[from] },
    );
    lemma_without(rooms[from].characters, name);
    // Where the name is listed after the move: in the new room, and only there.
    assert forall|r: int| 0 <= r < rooms.len() && r != to implies !(
    #[trigger] rooms2[r]).characters.contains(name) by {
        if r == from {
            assert(rooms2[r].characters == without(rooms[from].characters, name));
        } else {
            assert(rooms2[r] == rooms[r]);
            if rooms[r].characters.contains(name) {
                lemma_listed_once(rooms, characters, i, r);
            }
        }
    }
    assert(rooms2[to].characters == left[to].characters.push(name));
    assert(!left[to].characters.contains(name)) by {
        if to == from {
        } else {
            assert(left[to] == rooms[to]);
            if rooms[to].characters.contains(name) {
                lemma_listed_once(rooms, characters, i, to);
            }
        }
    }
    assert(rooms2[to].characters[left[to].characters.len() as int] == name);
    assert(rooms2[to].characters.contains(name));
    // Every other name is listed where it was.
    assert forall|r: int, n: Seq<char>| 0 <= r < rooms.len() && n != name implies (
    #[trigger] rooms2[r].characters.contains(n) <==> rooms[r].characters.contains(n)) by {
        let l = left[r].characters;
        assert(l.contains(n) <==> rooms[r].characters.contains(n)) by {
            if r != from {
                assert(left[r] == rooms[r]);
            }
        }
        if r == to {
            let grown = l.push(name);
            assert(rooms2[r].characters == grown);
            if l.contains(n) {
                let k = choose|k: int| 0 <= k < l.len() && l[k] == n;
                assert(grown[k] == n);
            }
            if grown.contains(n) {
                let k = choose|k: int| 0 <= k < grown.len() && grown[k] == n;
                assert(k < l.len());
                assert(l[k] == n);
            }
        } else {
            assert(rooms2[r] == left[r]);
        }
    }
    assert forall|a: int, b: int| 0 <= a < b < characters2.len() implies (
    #[trigger] characters2[a]).name != (#[trigger] characters2[b]).name by {
        assert(characters[a].name != characters[b].name);
    }
    assert forall|c: int| 0 <= c < characters2.len() implies ((
    #[trigger] characters2[c]).current_room as int) < rooms2.len() && rooms2[characters2[c].current_room as int].characters.contains(
        characters2[c].name,
    ) by {
        if c != i {
            assert(characters2[c] == characters[c]);
            assert((characters[c].current_room as int) < rooms.len());
            if c < i {
                assert(characters[c].name != characters[i].name);
            } else {
                assert(characters[i].name != characters[c].name);
            }
            let r = characters[c].current_room as int;
            assert(rooms2[r].characters.contains(characters[c].name) <==> rooms[r].characters.contains(
                characters[c].name,
            ));
        }
    }
    assert forall|r: int, k: int|
        0 <= r < rooms2.len() && 0 <= k < rooms2[r].characters.len() implies lives_in(
        characters2,
        #[trigger] rooms2[r].characters[k],
        r,
    ) by {
        let n = rooms2[r].characters[k];
        assert(rooms2[r].characters.contains(n));
        if n == name {
            assert(r == to);
            assert(characters2[i].name == name && characters2[i].current_room == r);
        } else {
            assert(rooms[r].characters.contains(n));
            let k0 = choose|k0: int| 0 <= k0 < rooms[r].characters.len() && rooms[r].characters[k0] == n;
            assert(lives_in(characters, rooms[r].characters[k0], r));
            let c = choose|c: int|
                0 <= c < characters.len() && (#[trigger] characters[c]).name == n
                    && characters[c].current_room == r;
            assert(c != i);
            assert(characters2[c] == characters[c]);
        }
    }
    assert forall|r: int| 0 <= r < rooms2.len() implies (
    #[trigger] rooms2[r]).characters.no_duplicates() by {
        assert(rooms[r].characters.no_duplicates());
        if r == to {
            assert(left[to].characters.no_duplicates()) by {
                if to != from {
                    assert(left[to] == rooms[to]);
                }
            }
            lemma_push_no_duplicates(left[to].characters, name);
        } else if r == from {
        } else {
            assert(rooms2[r] == rooms[r]);
        }
    }
}

/// The characters stay where the rooms say when a new character, whose name
/// nobody bears, is put in the first room.
pub proof fn lemma_join_keeps_placed(
    rooms: Seq<RoomView>,
    characters: Seq<CharacterView>,
    fresh: CharacterView,
)
    requires
        placed_ok(rooms, characters),
        rooms.len() >= 1,
        first(characters, has_name(fresh.name)) >= characters.len(),
        fresh.current_room == 0,
    ensures
        placed_ok(moved(rooms, fresh.name, 0, 0), characters.push(fresh)),
{
    reveal(placed_ok);
    let name = fresh.name;
    let rooms2 = moved(rooms, name, 0, 0);
    let characters2 = characters.push(fresh);
    lemma_first(characters, has_name(name));
    lemma_unlisted(rooms, characters, name, 0);
    lemma_without(rooms[0].characters, name);
    let l = rooms[0].characters;
    let grown = l.push(name);
    assert(rooms2[0].characters == grown);
    assert(grown[l.len() as int] == name);
    assert forall|a: int, b: int| 0 <= a < b < characters2.len() implies (
    #[trigger] characters2[a]).name != (#[trigger] characters2[b]).name by {
        if b < characters.len() {
            assert(characters[a].name != characters[b].name);
        } else {
            assert(!has_name(name)(characters[a]));
        }
    }
    assert forall|c: int| 0 <= c < characters2.len() implies ((
    #[trigger] characters2[c]).current_room as int) < rooms2.len() && rooms2[characters2[c].current_room as int].characters.contains(
        characters2[c].name,
    ) by {
        if c < characters.len() {
            assert(characters2[c] == characters[c]);
            let r = characters[c].current_room as int;
            assert(r < rooms.len());
            let n = characters[c].name;
            assert(rooms[r].characters.contains(n));
            if r == 0 {
                let k = choose|k: int| 0 <= k < l.len() && l[k] == n;
                assert(grown[k] == n);
            } else {
                assert(rooms2[r] == rooms[r]);
            }
        }
    }
    assert forall|r: int, k: int|
        0 <= r < rooms2.len() && 0 <= k < rooms2[r].characters.len() implies lives_in(
        characters2,
        #[trigger] rooms2[r].characters[k],
        r,
    ) by {
        if r == 0 && k == l.len() {
            assert(characters2[characters.len() as int] == fresh);
        } else {
            if r != 0 {
                assert(rooms2[r] == rooms[r]);
            }
            assert(rooms2[r].characters[k] == rooms[r].characters[k]);
            assert(lives_in(characters, rooms[r].characters[k], r));
            let c = choose|c: int|
                0 <= c < characters.len() && (#[trigger] characters[c]).name
                    == rooms[r].characters[k] && characters[c].current_room == r;
            assert(characters2[c] == characters[c]);
        }
    }
    assert forall|r: int| 0 <= r < rooms2.len() implies (
    #[trigger] rooms2[r]).characters.no_duplicates() by {
        assert(rooms[r].characters.no_duplicates());
        if r == 0 {
            lemma_push_no_duplicates(l, name);
        } else {
            assert(rooms2[r] == rooms[r]);
        }
    }
}

/// In a sound state there is a first room, and every character is in a room.
pub proof fn lemma_wf_bounds(g: GameView)
    requires
        g.wf(),
    ensures
        1 <= g.rooms.len() <= 65536,
        forall|c: int|
            0 <= c < g.characters.len() ==> ((#[trigger] g.characters[c]).current_room as int)
                < g.rooms.len(),
{
    reveal(map_ok);
    reveal(placed_ok);
}

} // verus!
