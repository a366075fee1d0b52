use lurk::action::Action;
use lurk::character::{find_by_conn, find_by_name, Character};
use lurk::combat::strike;
use lurk::dispatch::{
    alert_room, send_accept, send_character, send_connections, send_error, send_monster,
    send_monster_update_to_room, send_player_update_to_room, send_room,
};
use lurk::error_code::ErrorCode;
use lurk::flags::{is_alive, is_monster, is_ready, is_started, joins_battle};
use lurk::game::Game;
use lurk::load::{find_room, WorldError};
use lurk::monster::{find_monster, Monster};
use lurk::names::{clone_names, contains_name, without_name};
use lurk::wire::{from_bits, read_field32, read_le16, to_bits};
use lurk::world::{find_rooms, move_character, Room};

fn list(items: &[&str]) -> Vec<String> {
    items.iter().map(|s| s.to_string()).collect()
}

fn place(id: u16, name: &str, exits: &[&str], monsters: &[&str]) -> Room {
    Room {
        id,
        name: name.to_string(),
        description: format!("This is {}.", name),
        exits: list(exits),
        characters: Vec::new(),
        monsters: list(monsters),
    }
}

fn beast(name: &str, at: u16) -> Monster {
    let mut monster = Monster::new(name.to_string(), "Grr.".to_string());
    monster.current_room = at;
    monster
}

fn player(conn: u64, name: &str, at: u16) -> Character {
    let mut character = Character::new(conn, name.to_string(), "hero".to_string());
    character.current_room = at;
    character
}

fn map() -> Vec<Room> {
    vec![
        place(0, "Entrance", &["Hall", "Cellar"], &["Keese"]),
        place(1, "Hall", &["Entrance"], &[]),
        place(2, "Cellar", &["Entrance", "Hall"], &["Rat", "Bat"]),
    ]
}

fn beasts() -> Vec<Monster> {
    vec![beast("Keese", 0), beast("Rat", 2), beast("Bat", 2)]
}

#[test]
fn a_new_monster_has_the_default_stats() {
    let monster = Monster::new("Keese".to_string(), "A bat.".to_string());
    assert_eq!(
        monster,
        Monster {
            name: "Keese".to_string(),
            flags: 0xF8,
            attack: 5,
            defense: 10,
            regen: 5,
            health: 20,
            gold: 0,
            current_room: 0,
            description: "A bat.".to_string(),
        }
    );
    assert!(monster.fights());
}

#[test]
fn a_new_character_has_the_default_stats() {
    let mut character = Character::new(3, "Link".to_string(), "hero".to_string());
    assert_eq!(
        character,
        Character {
            conn: 3,
            active: true,
            name: "Link".to_string(),
            flags: 0xFF,
            attack: 5,
            defense: 10,
            regen: 5,
            health: 20,
            gold: 0,
            current_room: 0,
            description: "hero".to_string(),
        }
    );
    character.update_room(4);
    character.update_connection(9);
    assert_eq!((character.current_room, character.conn), (4, 9));
    assert!(!character.is_dead());
    character.health = 0;
    assert!(character.is_dead());
}

#[test]
fn a_monster_from_a_map() {
    let monster = Monster::from_map(
        Some("Keese".to_string()),
        Some("A bat.".to_string()),
        Some(5),
        Some(65536 + 2),
        Some(10),
        Some(65535),
        Some(7),
        Some(3),
    );
    assert_eq!(
        monster,
        Monster {
            name: "Keese".to_string(),
            flags: 0xF8,
            attack: 5,
            defense: 2,
            regen: 10,
            health: -1,
            gold: 7,
            current_room: 3,
            description: "A bat.".to_string(),
        }
    );
    let blank = Monster::from_map(None, None, None, None, None, None, None, None);
    assert_eq!(
        blank,
        Monster {
            name: "ERROR".to_string(),
            flags: 0xF8,
            attack: 0,
            defense: 0,
            regen: 0,
            health: 0,
            gold: 0,
            current_room: 0,
            description: "SOMETHING WENT WRONG".to_string(),
        }
    );
}

#[test]
fn a_room_from_a_map() {
    let room = Room::from_map(
        Some(65536 + 4),
        Some("Hall".to_string()),
        Some("Long.".to_string()),
        list(&["Entrance"]),
        list(&["Rat"]),
    );
    assert_eq!(
        room,
        Some(Room {
            id: 4,
            name: "Hall".to_string(),
            description: "Long.".to_string(),
            exits: list(&["Entrance"]),
            characters: Vec::new(),
            monsters: list(&["Rat"]),
        })
    );
    let unnumbered = Room::from_map(None, Some("a".to_string()), Some("b".to_string()), list(&[]), list(&[]));
    assert_eq!(unnumbered.map(|r| r.id), Some(99));
    assert_eq!(Room::from_map(Some(0), None, Some("b".to_string()), list(&[]), list(&[])), None);
    assert_eq!(Room::from_map(Some(0), Some("a".to_string()), None, list(&[]), list(&[])), None);
}

#[test]
fn a_sound_map_makes_a_world() {
    let mut rooms = map();
    rooms[1].characters = list(&["Ghost"]);
    let game = Game::new(rooms, beasts()).unwrap();
    assert_eq!(game.rooms.len(), 3);
    assert!(game.rooms.iter().all(|r| r.characters.is_empty()));
    assert_eq!(game.rooms[2].monsters, list(&["Rat", "Bat"]));
    assert_eq!(game.monsters, beasts());
    assert!(game.characters.is_empty());
}

#[test]
fn a_map_without_rooms_is_refused() {
    assert_eq!(Game::new(Vec::new(), Vec::new()), Err(WorldError::NoRooms));
    assert_eq!(Game::new(Vec::new(), beasts()), Err(WorldError::NoRooms));
}

#[test]
fn a_room_out_of_its_place_is_refused() {
    let mut rooms = map();
    rooms[1].id = 2;
    rooms[2].id = 1;
    assert_eq!(Game::new(rooms, beasts()), Err(WorldError::BadRoomNumber));
    let mut rooms = map();
    rooms[0].id = 1;
    rooms[0].name = "Hall".to_string();
    assert_eq!(Game::new(rooms, beasts()), Err(WorldError::BadRoomNumber));
}

#[test]
fn two_rooms_of_one_name_are_refused() {
    let mut rooms = map();
    rooms[2].name = "Entrance".to_string();
    assert_eq!(Game::new(rooms, beasts()), Err(WorldError::DuplicateRoom));
}

#[test]
fn an_exit_to_nowhere_is_refused() {
    let mut rooms = map();
    rooms[1].exits.push("Attic".to_string());
    assert_eq!(Game::new(rooms, beasts()), Err(WorldError::UnknownExit));
}

#[test]
fn two_monsters_of_one_name_are_refused() {
    let mut monsters = beasts();
    monsters.push(beast("Rat", 2));
    assert_eq!(Game::new(map(), monsters), Err(WorldError::DuplicateMonster));
}

#[test]
fn a_stray_monster_is_refused() {
    let mut rooms = map();
    rooms[1].monsters.push("Dragon".to_string());
    assert_eq!(Game::new(rooms, beasts()), Err(WorldError::StrayMonster));
    let mut monsters = beasts();
    monsters[1].current_room = 1;
    assert_eq!(Game::new(map(), monsters), Err(WorldError::StrayMonster));
}

#[test]
fn a_monster_that_no_room_lists_is_no_fault() {
    let mut monsters = beasts();
    monsters.push(beast("Hermit", 9));
    assert!(Game::new(map(), monsters).is_ok());
}

#[test]
fn too_many_rooms_are_refused() {
    let rooms: Vec<Room> = (0..65537u32).map(|i| place(i as u16, &i.to_string(), &[], &[])).collect();
    assert_eq!(Game::new(rooms, Vec::new()), Err(WorldError::TooManyRooms));
}

#[test]
fn rooms_are_found_in_map_order() {
    let rooms = map();
    let found = find_rooms(&rooms, &list(&["Cellar", "Nowhere", "Entrance", "Cellar"]));
    assert_eq!(found.iter().map(|r| r.id).collect::<Vec<u16>>(), vec![0, 2]);
    assert_eq!(found[1], rooms[2]);
    assert!(find_rooms(&rooms, &list(&[])).is_empty());
    assert_eq!(find_room(&rooms, &"Hall".to_string()), 1);
    assert_eq!(find_room(&rooms, &"Attic".to_string()), 3);
}

#[test]
fn moving_takes_a_name_off_one_list_and_onto_another() {
    let mut rooms = map();
    rooms[0].characters = list(&["Navi", "Link", "Zelda", "Link"]);
    rooms[1].characters = list(&["Epona"]);
    let link = player(1, "Link", 0);
    move_character(&mut rooms, &link, 1, 0);
    assert_eq!(rooms[0].characters, list(&["Navi", "Zelda"]));
    assert_eq!(rooms[1].characters, list(&["Epona", "Link"]));
    move_character(&mut rooms, &link, 1, 1);
    assert_eq!(rooms[1].characters, list(&["Epona", "Link"]));
    move_character(&mut rooms, &link, 7, 1);
    assert_eq!(rooms[1].characters, list(&["Epona"]));
    move_character(&mut rooms, &link, 0, 7);
    assert_eq!(rooms[0].characters, list(&["Navi", "Zelda"]));
}

#[test]
fn lists_of_names() {
    let names = list(&["a", "b", "a", "c"]);
    assert!(contains_name(&names, &"c".to_string()));
    assert!(!contains_name(&names, &"d".to_string()));
    assert_eq!(without_name(&names, &"a".to_string()), list(&["b", "c"]));
    assert_eq!(without_name(&names, &"d".to_string()), names);
    assert_eq!(clone_names(&names), names);
}

#[test]
fn characters_and_monsters_are_found_by_their_first_match() {
    let cast = vec![player(1, "Link", 0), player(2, "Zelda", 0), player(1, "Navi", 1)];
    assert_eq!(find_by_name(&cast, &"Zelda".to_string()), 1);
    assert_eq!(find_by_name(&cast, &"Ganon".to_string()), 3);
    assert_eq!(find_by_conn(&cast, 1), 0);
    assert_eq!(find_by_conn(&cast, 5), 3);
    assert_eq!(find_monster(&beasts(), &"Bat".to_string()), 2);
    assert_eq!(find_monster(&beasts(), &"Cat".to_string()), 3);
}

#[test]
fn the_flag_bits() {
    assert!(is_alive(0x80) && !is_alive(0x7F));
    assert!(joins_battle(0x40) && !joins_battle(0xBF));
    assert!(is_monster(0x20) && !is_monster(0xDF));
    assert!(is_started(0x10) && !is_started(0xEF));
    assert!(is_ready(0x08) && !is_ready(0xF7));
    for flags in 0..=255u8 {
        assert_eq!(is_alive(flags), flags & 0x80 != 0);
        assert_eq!(joins_battle(flags), flags & 0x40 != 0);
        assert_eq!(is_monster(flags), flags & 0x20 != 0);
        assert_eq!(is_started(flags), flags & 0x10 != 0);
        assert_eq!(is_ready(flags), flags & 0x08 != 0);
    }
    assert!(is_alive(0xC8) && joins_battle(0xC8) && is_ready(0xC8) && !is_started(0xC8));
    assert!(is_started(0xD8));
    assert!(!is_alive(0x38) && !joins_battle(0x38) && is_monster(0x38));
    assert!(!is_alive(0x18) && !joins_battle(0x18) && !is_monster(0x18));
}

#[test]
fn a_blow_takes_the_damage_and_gives_a_tenth_of_the_regen() {
    assert_eq!(strike(20, 2, 10, 8), 15);
    assert_eq!(strike(20, 3, 10, 5), 19);
    assert_eq!(strike(20, 10, 19, 10), 21);
    assert_eq!(strike(20, 10, 9, 3), 20);
    assert_eq!(strike(1, 0, 0, 1), 0);
    assert_eq!(strike(5, 0, 65535, 0), 6558);
    assert_eq!(strike(32767, 0, 10, 0), 32767);
    assert_eq!(strike(-32768, 0, 0, 1), -32768);
    assert_eq!(strike(100, 0, 0, i128::MAX), -32768);
    assert_eq!(strike(100, 65535, 0, -5), 100);
}

#[test]
fn integers_on_the_wire() {
    assert_eq!(read_le16(&[9, 0x34, 0x12], 1), 0x1234);
    assert_eq!(to_bits(-1), 0xFFFF);
    assert_eq!(to_bits(-32768), 0x8000);
    assert_eq!(to_bits(32767), 0x7FFF);
    for bits in [0u16, 1, 0x7FFF, 0x8000, 0xFFFF, 0x1234] {
        assert_eq!(from_bits(bits), bits as i16);
        assert_eq!(to_bits(from_bits(bits)), bits);
    }
    let mut field = vec![b'A'; 40];
    field[5] = 0;
    assert_eq!(read_field32(&field, 2), b"AAA".to_vec());
    assert_eq!(read_field32(&field, 6), vec![b'A'; 32]);
}

#[test]
fn single_frames_are_queued_for_their_author() {
    let mut out = Vec::new();
    send_accept(&mut out, 4);
    send_error(&mut out, 4, ErrorCode::NoTarget, "gone");
    let link = player(1, "Link", 0);
    send_character(&mut out, 5, &link);
    let keese = beast("Keese", 0);
    send_monster(&mut out, 6, &keese);
    assert_eq!(out.len(), 4);
    assert_eq!(out[0], Action::Send { to: 4, bytes: vec![8, 10] });
    assert_eq!(out[1], Action::Send { to: 4, bytes: vec![7, 6, 4, 0, b'g', b'o', b'n', b'e'] });
    assert_eq!(out[2], Action::Send { to: 5, bytes: link.to_frame() });
    assert_eq!(out[3], Action::Send { to: 6, bytes: keese.to_frame() });
    assert_eq!(link.to_frame()[0], 10);
    assert_eq!(&link.to_frame()[1..5], b"Link");
    assert_eq!(link.to_frame()[33], 0xFF);
    assert_eq!(keese.to_frame()[33], 0xF8);
}

#[test]
fn an_update_goes_to_the_active_characters_that_are_named() {
    let mut cast = vec![player(1, "Link", 0), player(2, "Zelda", 0), player(3, "Navi", 0)];
    cast[1].active = false;
    let keese = beast("Keese", 0);
    let mut out = Vec::new();
    send_monster_update_to_room(&mut out, &list(&["Navi", "Ghost", "Zelda", "Link"]), &keese, &cast);
    assert_eq!(
        out,
        vec![
            Action::Send { to: 3, bytes: keese.to_frame() },
            Action::Send { to: 1, bytes: keese.to_frame() },
        ]
    );
    let mut out = Vec::new();
    send_player_update_to_room(&mut out, &list(&["Link", "Link"]), &cast[2], &cast);
    assert_eq!(
        out,
        vec![
            Action::Send { to: 1, bytes: cast[2].to_frame() },
            Action::Send { to: 1, bytes: cast[2].to_frame() },
        ]
    );
}

#[test]
fn a_move_is_told_to_both_rooms_but_not_to_the_mover() {
    let mut rooms = map();
    rooms[0].characters = list(&["Zelda"]);
    rooms[1].characters = list(&["Navi", "Link"]);
    let cast = vec![player(1, "Link", 1), player(2, "Zelda", 0), player(3, "Navi", 1)];
    let mut out = Vec::new();
    assert_eq!(alert_room(&mut out, &rooms, &cast[0], &cast, 1, 0), Ok(()));
    assert_eq!(
        out,
        vec![
            Action::Send { to: 3, bytes: cast[0].to_frame() },
            Action::Send { to: 2, bytes: cast[0].to_frame() },
        ]
    );
    let mut out = Vec::new();
    assert_eq!(alert_room(&mut out, &rooms, &cast[0], &cast, 1, 1), Ok(()));
    assert_eq!(out, vec![Action::Send { to: 3, bytes: cast[0].to_frame() }]);
    assert_eq!(alert_room(&mut out, &rooms, &cast[0], &cast, 3, 1), Err(()));
    assert_eq!(alert_room(&mut out, &rooms, &cast[0], &cast, 1, 3), Err(()));
    assert_eq!(out.len(), 1);
}

#[test]
fn a_room_is_shown_with_those_in_it() {
    let mut rooms = map();
    rooms[2].characters = list(&["Navi", "Link"]);
    let cast = vec![player(1, "Link", 2), player(3, "Navi", 2)];
    let monsters = beasts();
    let mut out = Vec::new();
    assert_eq!(send_room(&mut out, 1, &rooms, &cast, &monsters, 2, 2), Ok(()));
    assert_eq!(
        out,
        vec![
            Action::Send { to: 1, bytes: rooms[2].to_frame() },
            Action::Send { to: 3, bytes: cast[0].to_frame() },
            Action::Send { to: 1, bytes: cast[1].to_frame() },
            Action::Send { to: 1, bytes: monsters[1].to_frame() },
            Action::Send { to: 1, bytes: monsters[2].to_frame() },
        ]
    );
    assert_eq!(rooms[2].to_frame()[..3], [9, 2, 0]);
    assert_eq!(send_room(&mut out, 1, &rooms, &cast, &monsters, 3, 2), Err(()));
    assert_eq!(out.len(), 5);
}

#[test]
fn the_room_frame_comes_first_and_bears_the_number_asked_for() {
    let mut rooms = map();
    rooms[1].id = 7;
    let cast = vec![player(1, "Link", 1)];
    let monsters = beasts();
    let mut sign = vec![9u8, 1, 0];
    let mut name = b"Hall".to_vec();
    name.resize(32, 0);
    sign.extend(name);
    sign.extend([13, 0]);
    sign.extend(b"This is Hall.");

    let mut out = Vec::new();
    assert_eq!(send_room(&mut out, 1, &rooms, &cast, &monsters, 1, 1), Ok(()));
    assert_eq!(out, vec![Action::Send { to: 1, bytes: sign.clone() }]);

    let mut out = Vec::new();
    assert_eq!(send_room(&mut out, 9, &rooms, &cast, &monsters, 1, 1), Err(()));
    assert_eq!(out, vec![Action::Send { to: 9, bytes: sign.clone() }]);

    let mut out = Vec::new();
    assert_eq!(send_room(&mut out, 1, &rooms, &cast, &monsters, 1, 5), Err(()));
    assert_eq!(out, vec![Action::Send { to: 1, bytes: sign }]);

    let mut out = Vec::new();
    assert_eq!(send_room(&mut out, 1, &rooms, &cast, &monsters, 3, 1), Err(()));
    assert!(out.is_empty());
}

#[test]
fn exits_are_shown_in_map_order() {
    let rooms = map();
    let mut out = Vec::new();
    assert_eq!(send_connections(&mut out, 1, &rooms, 2), Ok(()));
    assert_eq!(
        out,
        vec![
            Action::Send { to: 1, bytes: rooms[0].to_connection() },
            Action::Send { to: 1, bytes: rooms[1].to_connection() },
        ]
    );
    assert_eq!(rooms[1].to_connection()[..3], [13, 1, 0]);
    assert_eq!(send_connections(&mut out, 1, &rooms, 3), Err(()));
    assert_eq!(out.len(), 2);
}
