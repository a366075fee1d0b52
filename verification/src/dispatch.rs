//! The outbound primitives: each builds frames and queues them for the
//! connections they are meant for.

use vstd::prelude::*;
use vstd::utf8::encode_utf8;
use crate::action::{action_views, gather, lemma_gather_step, send, Action, ActionView};
use crate::wire::copy_bytes;
use crate::character::{character_views, find_by_conn, find_by_name, has_name, on_conn, Character, CharacterView};
use crate::codec_laws::lemma_room_framed;
use crate::error_code::ErrorCode;
use crate::frame::{
    accept_frame,
    build_accept,
    build_error,
    build_place,
    error_frame,
    room_frame,
    well_framed,
    ROOM,
};
use crate::monster::{find_monster, is_named, monster_views, Monster, MonsterView};
use crate::names::{texts, without, without_name};
use crate::search::first;
use crate::world::{find_rooms, room_views, rooms_named, Room, RoomView};

verus! {

/// What one listed name gives rise to when a frame goes round a room: the
/// frame goes to the character of that name, if there is one and it is
/// active.
pub open spec fn notice(frame: Seq<u8>, characters: Seq<CharacterView>) -> spec_fn(Seq<char>) -> Seq<
    ActionView,
> {
    |name: Seq<char>|
        {
            let i = first(characters, has_name(name));
            if i < characters.len() && characters[i].active {
                seq![ActionView::Send { to: characters[i].conn, bytes: frame }]
            } else {
                Seq::empty()
            }
        }
}

/// A frame sent to every active character on a list of names, in list order.
pub open spec fn notices(
    names: Seq<Seq<char>>,
    frame: Seq<u8>,
    characters: Seq<CharacterView>,
) -> Seq<ActionView> {
    gather(names, notice(frame, characters))
}

/// What one listed name gives rise to when a room's characters are shown to
/// connection `to`: the CHARACTER frame of the character of that name.
pub open spec fn shown_character(characters: Seq<CharacterView>, to: u64) -> spec_fn(
    Seq<char>,
) -> Seq<ActionView> {
    |name: Seq<char>|
        {
            let i = first(characters, has_name(name));
            if i < characters.len() {
                seq![ActionView::Send { to, bytes: characters[i].frame() }]
            } else {
                Seq::empty()
            }
        }
}

/// What one listed name gives rise to when a room's monsters are shown to
/// connection `to`: the CHARACTER frame of the monster of that name.
pub open spec fn shown_monster(monsters: Seq<MonsterView>, to: u64) -> spec_fn(Seq<char>) -> Seq<
    ActionView,
> {
    |name: Seq<char>|
        {
            let i = first(monsters, is_named(name));
            if i < monsters.len() {
                seq![ActionView::Send { to, bytes: monsters[i].frame() }]
            } else {
                Seq::empty()
            }
        }
}

/// What one room gives rise to when exits are shown to connection `to`: its
/// CONNECTION frame.
pub open spec fn shown_exit(to: u64) -> spec_fn(RoomView) -> Seq<ActionView> {
    |room: RoomView| seq![ActionView::Send { to, bytes: room.connection() }]
}

/// The news of a character's move: its CHARACTER frame, sent to every other
/// active character of the room it is in now and, where that is another
/// room, of the room it was in.
pub open spec fn alerts(
    rooms: Seq<RoomView>,
    mover: CharacterView,
    characters: Seq<CharacterView>,
    room: int,
    old_room: int,
) -> Seq<ActionView> {
    notices(without(rooms[room].characters, mover.name), mover.frame(), characters) + if old_room
        != room {
        notices(without(rooms[old_room].characters, mover.name), mover.frame(), characters)
    } else {
        Seq::empty()
    }
}

/// Whether a room can be shown to `author`: both rooms exist, and a
/// character is bound to the connection.
pub open spec fn can_show_room(
    rooms: Seq<RoomView>,
    characters: Seq<CharacterView>,
    author: u64,
    room: int,
    old_room: int,
) -> bool {
    &&& 0 <= room < rooms.len()
    &&& 0 <= old_room < rooms.len()
    &&& first(characters, on_conn(author)) < characters.len()
}

/// The ROOM frame by which room number `room` is shown: it carries the number
/// that was asked for, in its low 16 bits, with the name and the description
/// of the room that stands at that place of the map.
pub open spec fn room_sign(rooms: Seq<RoomView>, room: int) -> Seq<u8> {
    room_frame(
        (room % 65536) as u16,
        encode_utf8(rooms[room].name),
        encode_utf8(rooms[room].description),
    )
}

/// A room as it is shown to the character of `author` on entering: the ROOM
/// frame, the news of the move for the others, then the other characters of
/// the room and its monsters, each as a CHARACTER frame.
pub open spec fn room_shown(
    rooms: Seq<RoomView>,
    characters: Seq<CharacterView>,
    monsters: Seq<MonsterView>,
    author: u64,
    room: int,
    old_room: int,
) -> Seq<ActionView> {
    let mover = characters[first(characters, on_conn(author))];
    seq![ActionView::Send { to: author, bytes: room_sign(rooms, room) }] + alerts(
        rooms,
        mover,
        characters,
        room,
        old_room,
    ) + gather(without(rooms[room].characters, mover.name), shown_character(characters, author))
        + gather(rooms[room].monsters, shown_monster(monsters, author))
}

/// What `send_room` queues. Where the room does not exist, nothing. Where
/// it does, the ROOM frame comes first in every case; the rest of the
/// showing follows only where the old room exists too and a character is
/// bound to the connection.
pub open spec fn room_sent(
    rooms: Seq<RoomView>,
    characters: Seq<CharacterView>,
    monsters: Seq<MonsterView>,
    author: u64,
    room: int,
    old_room: int,
) -> Seq<ActionView> {
    if !(0 <= room < rooms.len()) {
        Seq::empty()
    } else if !can_show_room(rooms, characters, author, room, old_room) {
        seq![ActionView::Send { to: author, bytes: room_sign(rooms, room) }]
    } else {
        room_shown(rooms, characters, monsters, author, room, old_room)
    }
}

/// The exits of a room as they are shown to `to`: one CONNECTION frame for
/// each room that an exit names, in the order of the map.
pub open spec fn connections_shown(rooms: Seq<RoomView>, room: int, to: u64) -> Seq<ActionView> {
    gather(rooms_named(rooms, rooms[room].exits), shown_exit(to))
}

/// Queues `frame` for every active character that `players` names.
fn send_update_to_room(
    out: &mut Vec<Action>,
    players: &Vec<String>,
    frame: &Vec<u8>,
    active_characters: &Vec<Character>,
)
    ensures
        action_views(final(out)@) == action_views(old(out)@) + notices(
            texts(players@),
            frame@,
            character_views(active_characters@),
        ),
{
    let ghost each = notice(frame@, character_views(active_characters@));
    let ghost names = texts(players@);
    let mut i: usize = 0;
    assert(action_views(out@) =~= action_views(old(out)@) + gather(names.subrange(0, 0), each));
    while i < players.len()
        invariant
            i <= players@.len(),
            names == texts(players@),
            each == notice(frame@, character_views(active_characters@)),
            action_views(out@) == action_views(old(out)@) + gather(names.subrange(0, i as int), each),
        decreases players@.len() - i,
    {
        let ghost before = action_views(out@);
        proof {
            lemma_gather_step(names, i as int, each);
        }
        let at = find_by_name(active_characters, &players[i]);
        if at < active_characters.len() && active_characters[at].active {
            send(out, active_characters[at].conn, copy_bytes(frame));
            assert(action_views(out@) =~= before + each(names[i as int]));
        } else {
            assert(action_views(out@) =~= before + each(names[i as int]));
        }
        i += 1;
        assert(action_views(out@) =~= action_views(old(out)@) + gather(
            names.subrange(0, i as int),
            each,
        ));
    }
    assert(names.subrange(0, i as int) =~= names);
}

/// Queues the character's CHARACTER frame for every active character that
/// `players` names. A name that no character bears is passed over.
pub fn send_player_update_to_room(
    out: &mut Vec<Action>,
    players: &Vec<String>,
    character: &Character,
    active_characters: &Vec<Character>,
)
    ensures
        action_views(final(out)@) == action_views(old(out)@) + notices(
            texts(players@),
            character@.frame(),
            character_views(active_characters@),
        ),
{
    let frame = character.to_frame();
    send_update_to_room(out, players, &frame, active_characters);
}

/// Queues the monster's CHARACTER frame for every active character that
/// `players` names. A name that no character bears is passed over.
pub fn send_monster_update_to_room(
    out: &mut Vec<Action>,
    players: &Vec<String>,
    monster: &Monster,
    active_characters: &Vec<Character>,
)
    ensures
        action_views(final(out)@) == action_views(old(out)@) + notices(
            texts(players@),
            monster@.frame(),
            character_views(active_characters@),
        ),
{
    let frame = monster.to_frame();
    send_update_to_room(out, players, &frame, active_characters);
}

/// Tells the other characters of a room, and of the room that the character
/// came from, that it has moved. Fails, and queues nothing, where one of the
/// two rooms does not exist.
pub fn alert_room(
    out: &mut Vec<Action>,
    map: &Vec<Room>,
    character: &Character,
    active_characters: &Vec<Character>,
    room_num: usize,
    old_room_num: usize,
) -> (res: Result<(), ()>)
    ensures
        res is Ok <==> room_num < map@.len() && old_room_num < map@.len(),
        res is Ok ==> action_views(final(out)@) == action_views(old(out)@) + alerts(
            room_views(map@),
            character@,
            character_views(active_characters@),
            room_num as int,
            old_room_num as int,
        ),
        res is Err ==> action_views(final(out)@) == action_views(old(out)@),
{
    if room_num >= map.len() || old_room_num >= map.len() {
        return Err(());
    }
    let frame = character.to_frame();
    let players = without_name(&map[room_num].characters, &character.name);
    send_update_to_room(out, &players, &frame, active_characters);
    let ghost first_part = notices(
        without(room_views(map@)[room_num as int].characters, character@.name),
        character@.frame(),
        character_views(active_characters@),
    );
    if old_room_num != room_num {
        let old_players = without_name(&map[old_room_num].characters, &character.name);
        send_update_to_room(out, &old_players, &frame, active_characters);
        let ghost second_part = notices(
            without(room_views(map@)[old_room_num as int].characters, character@.name),
            character@.frame(),
            character_views(active_characters@),
        );
        assert(action_views(out@) =~= action_views(old(out)@) + (first_part + second_part));
    } else {
        assert(action_views(out@) =~= action_views(old(out)@) + (first_part + Seq::<
            ActionView,
        >::empty()));
    }
    Ok(())
}

/// Queues the ACCEPT of a CHARACTER message for `author`.
pub fn send_accept(out: &mut Vec<Action>, author: u64)
    ensures
        action_views(final(out)@) == action_views(old(out)@).push(
            ActionView::Send { to: author, bytes: accept_frame(10) },
        ),
{
    send(out, author, build_accept(10));
}

/// Queues an ERROR frame for `author`.
pub fn send_error(out: &mut Vec<Action>, author: u64, code: ErrorCode, text: &str)
    ensures
        action_views(final(out)@) == action_views(old(out)@).push(
            ActionView::Send { to: author, bytes: error_frame(code.spec_code(), encode_utf8(text@)) },
        ),
{
    send(out, author, build_error(code.code(), text.as_bytes()));
}

/// Queues the character's CHARACTER frame for `author`.
pub fn send_character(out: &mut Vec<Action>, author: u64, character: &Character)
    ensures
        action_views(final(out)@) == action_views(old(out)@).push(
            ActionView::Send { to: author, bytes: character@.frame() },
        ),
{
    send(out, author, character.to_frame());
}

/// Queues the monster's CHARACTER frame for `author`.
pub fn send_monster(out: &mut Vec<Action>, author: u64, monster: &Monster)
    ensures
        action_views(final(out)@) == action_views(old(out)@).push(
            ActionView::Send { to: author, bytes: monster@.frame() },
        ),
{
    send(out, author, monster.to_frame());
}

/// Queues, for `to`, the CHARACTER frame of each character that `names` names.
fn send_roster(out: &mut Vec<Action>, to: u64, names: &Vec<String>, characters: &Vec<Character>)
    ensures
        action_views(final(out)@) == action_views(old(out)@) + gather(
            texts(names@),
            shown_character(character_views(characters@), to),
        ),
{
    let ghost each = shown_character(character_views(characters@), to);
    let ghost list = texts(names@);
    let mut i: usize = 0;
    assert(action_views(out@) =~= action_views(old(out)@) + gather(list.subrange(0, 0), each));
    while i < names.len()
        invariant
            i <= names@.len(),
            list == texts(names@),
            each == shown_character(character_views(characters@), to),
            action_views(out@) == action_views(old(out)@) + gather(list.subrange(0, i as int), each),
        decreases names@.len() - i,
    {
        let ghost before = action_views(out@);
        proof {
            lemma_gather_step(list, i as int, each);
        }
        let at = find_by_name(characters, &names[i]);
        if at < characters.len() {
            send_character(out, to, &characters[at]);
            assert(action_views(out@) =~= before + each(list[i as int]));
        } else {
            assert(action_views(out@) =~= before + each(list[i as int]));
        }
        i += 1;
        assert(action_views(out@) =~= action_views(old(out)@) + gather(
            list.subrange(0, i as int),
            each,
        ));
    }
    assert(list.subrange(0, i as int) =~= list);
}

/// Queues, for `to`, the CHARACTER frame of each monster that `names` names.
fn send_bestiary(out: &mut Vec<Action>, to: u64, names: &Vec<String>, monsters: &Vec<Monster>)
    ensures
        action_views(final(out)@) == action_views(old(out)@) + gather(
            texts(names@),
            shown_monster(monster_views(monsters@), to),
        ),
{
    let ghost each = shown_monster(monster_views(monsters@), to);
    let ghost list = texts(names@);
    let mut i: usize = 0;
    assert(action_views(out@) =~= action_views(old(out)@) + gather(list.subrange(0, 0), each));
    while i < names.len()
        invariant
            i <= names@.len(),
            list == texts(names@),
            each == shown_monster(monster_views(monsters@), to),
            action_views(out@) == action_views(old(out)@) + gather(list.subrange(0, i as int), each),
        decreases names@.len() - i,
    {
        let ghost before = action_views(out@);
        proof {
            lemma_gather_step(list, i as int, each);
        }
        let at = find_monster(monsters, &names[i]);
        if at < monsters.len() {
            send_monster(out, to, &monsters[at]);
            assert(action_views(out@) =~= before + each(list[i as int]));
        } else {
            assert(action_views(out@) =~= before + each(list[i as int]));
        }
        i += 1;
        assert(action_views(out@) =~= action_views(old(out)@) + gather(
            list.subrange(0, i as int),
            each,
        ));
    }
    assert(list.subrange(0, i as int) =~= list);
}

/// Shows a room to the character of `author` on entering, and tells the
/// others of the move. Where the room exists, its ROOM frame is queued first,
/// under the number that was asked for. The call fails where one of the two
/// rooms does not exist or no character is bound to `author`; then nothing
/// but that ROOM frame, if any, is queued.
pub fn send_room(
    out: &mut Vec<Action>,
    author: u64,
    map: &Vec<Room>,
    active_characters: &Vec<Character>,
    active_monsters: &Vec<Monster>,
    room_num: usize,
    old_room_num: usize,
) -> (res: Result<(), ()>)
    ensures
        res is Ok <==> can_show_room(
            room_views(map@),
            character_views(active_characters@),
            author,
            room_num as int,
            old_room_num as int,
        ),
        action_views(final(out)@) == action_views(old(out)@) + room_sent(
            room_views(map@),
            character_views(active_characters@),
            monster_views(active_monsters@),
            author,
            room_num as int,
            old_room_num as int,
        ),
        res is Ok ==> action_views(final(out)@) == action_views(old(out)@) + room_shown(
            room_views(map@),
            character_views(active_characters@),
            monster_views(active_monsters@),
            author,
            room_num as int,
            old_room_num as int,
        ),
        room_num < map@.len() ==> action_views(final(out)@).len() > action_views(old(out)@).len()
            && action_views(final(out)@)[action_views(old(out)@).len() as int] == (
            ActionView::Send { to: author, bytes: room_sign(room_views(map@), room_num as int) })
            && well_framed(room_sign(room_views(map@), room_num as int)),
{
    let ghost rooms = room_views(map@);
    let ghost characters = character_views(active_characters@);
    let ghost monsters = monster_views(active_monsters@);
    let ghost start = action_views(old(out)@);
    if room_num >= map.len() {
        assert(action_views(out@) =~= start + Seq::<ActionView>::empty());
        return Err(());
    }
    let frame = build_place(
        ROOM,
        (room_num % 65536) as u16,
        map[room_num].name.as_str().as_bytes(),
        map[room_num].description.as_str().as_bytes(),
    );
    assert(frame@ =~= room_sign(rooms, room_num as int));
    proof {
        lemma_room_framed(
            (room_num % 65536) as u16,
            encode_utf8(rooms[room_num as int].name),
            encode_utf8(rooms[room_num as int].description),
        );
    }
    send(out, author, frame);
    let ghost a1 = seq![ActionView::Send { to: author, bytes: room_sign(rooms, room_num as int) }];
    assert(action_views(out@) =~= start + a1);
    let at = find_by_conn(active_characters, author);
    if old_room_num >= map.len() || at >= active_characters.len() {
        return Err(());
    }
    let ghost mover = characters[at as int];
    let current_character = &active_characters[at];
    let _ = alert_room(out, map, current_character, active_characters, room_num, old_room_num);
    let ghost a2 = alerts(rooms, mover, characters, room_num as int, old_room_num as int);
    let others = without_name(&map[room_num].characters, &current_character.name);
    send_roster(out, author, &others, active_characters);
    let ghost a3 = gather(
        without(rooms[room_num as int].characters, mover.name),
        shown_character(characters, author),
    );
    send_bestiary(out, author, &map[room_num].monsters, active_monsters);
    let ghost a4 = gather(rooms[room_num as int].monsters, shown_monster(monsters, author));
    assert(action_views(out@) =~= start + (a1 + a2 + a3 + a4));
    assert((start + (a1 + a2 + a3 + a4))[start.len() as int] == a1[0]);
    Ok(())
}

/// Shows the exits of a room to `author`. Fails, and queues nothing, where
/// the room does not exist.
pub fn send_connections(out: &mut Vec<Action>, author: u64, map: &Vec<Room>, room_num: usize) -> (res:
    Result<(), ()>)
    ensures
        res is Ok <==> room_num < map@.len(),
        res is Ok ==> action_views(final(out)@) == action_views(old(out)@) + connections_shown(
            room_views(map@),
            room_num as int,
            author,
        ),
        res is Err ==> action_views(final(out)@) == action_views(old(out)@),
{
    if room_num >= map.len() {
        return Err(());
    }
    let rooms = find_rooms(map, &map[room_num].exits);
    let ghost each = shown_exit(author);
    let ghost list = room_views(rooms@);
    let mut i: usize = 0;
    assert(action_views(out@) =~= action_views(old(out)@) + gather(list.subrange(0, 0), each));
    while i < rooms.len()
        invariant
            i <= rooms@.len(),
            list == room_views(rooms@),
            each == shown_exit(author),
            action_views(out@) == action_views(old(out)@) + gather(list.subrange(0, i as int), each),
        decreases rooms@.len() - i,
    {
        let ghost before = action_views(out@);
        proof {
            lemma_gather_step(list, i as int, each);
        }
        send(out, author, rooms[i].to_connection());
        assert(action_views(out@) =~= before + each(list[i as int]));
        i += 1;
        assert(action_views(out@) =~= action_views(old(out)@) + gather(
            list.subrange(0, i as int),
            each,
        ));
    }
    assert(list.subrange(0, i as int) =~= list);
    Ok(())
}

} // verus!
