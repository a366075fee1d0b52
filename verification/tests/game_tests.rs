use lurk::action::Action;
use lurk::character::Character;
use lurk::codec::encode;
use lurk::error_code::ErrorCode;
use lurk::game::Game;
use lurk::message::Message;
use lurk::monster::Monster;
use lurk::server::{handle_server, try_handle_server, write_failed};
use lurk::session::{handle_client, send_info, Phase, Session};
use lurk::world::Room;

fn names(list: &[&str]) -> Vec<String> {
    list.iter().map(|s| s.to_string()).collect()
}

fn room(id: u16, name: &str, description: &str, exits: &[&str], monsters: &[&str]) -> Room {
    Room {
        id,
        name: name.to_string(),
        description: description.to_string(),
        exits: names(exits),
        characters: Vec::new(),
        monsters: names(monsters),
    }
}

fn monster(name: &str, attack: u16, defense: u16, regen: u16, health: i16, gold: u16, at: u16) -> Monster {
    Monster {
        name: name.to_string(),
        flags: 0xF8,
        attack,
        defense,
        regen,
        health,
        gold,
        current_room: at,
        description: format!("A {}.", name),
    }
}

fn temple() -> Game {
    Game::new(
        vec![
            room(0, "Temple Entrance", "A dark entrance.", &["Hall"], &["Keese"]),
            room(1, "Hall", "A long hall.", &["Temple Entrance", "Vault"], &[]),
            room(2, "Vault", "Gold!", &["Hall"], &["Stalfos"]),
        ],
        vec![monster("Keese", 5, 2, 10, 20, 7, 0), monster("Stalfos", 9, 4, 0, 30, 100, 2)],
    )
    .unwrap()
}

fn offer(name: &str, attack: u16, defense: u16, regen: u16) -> Message {
    Message::Character {
        name: name.to_string(),
        flags: 0xFF,
        attack,
        defense,
        regen,
        health: 0,
        gold: 50,
        current_room: 0,
        description: "hero".to_string(),
    }
}

fn sheet(name: &str, flags: u8, attack: u16, defense: u16, regen: u16, health: i16, gold: u16, at: u16, description: &str) -> Vec<u8> {
    encode(&Message::Character {
        name: name.to_string(),
        flags,
        attack,
        defense,
        regen,
        health,
        gold,
        current_room: at,
        description: description.to_string(),
    })
}

fn refusal(to: u64, code: ErrorCode, text: &str) -> Action {
    Action::Send { to, bytes: encode(&Message::Error { error: code, message: text.to_string() }) }
}

fn told(to: u64, target: &str, text: &str) -> Action {
    Action::Send {
        to,
        bytes: encode(&Message::Message {
            recipient: target.to_string(),
            sender: "Server".to_string(),
            message: text.to_string(),
        }),
    }
}

fn room_frame(game: &Game, at: usize) -> Vec<u8> {
    encode(&Message::Room {
        room_number: game.rooms[at].id,
        room_name: game.rooms[at].name.clone(),
        description: game.rooms[at].description.clone(),
    })
}

fn exit_frame(game: &Game, at: usize) -> Vec<u8> {
    encode(&Message::Connection {
        room_number: game.rooms[at].id,
        room_name: game.rooms[at].name.clone(),
        description: game.rooms[at].description.clone(),
    })
}

/// A world with Link (connection 1) and Zelda (connection 2) started in room 0.
fn with_players() -> Game {
    let mut game = temple();
    handle_server(&mut game, 1, offer("Link", 8, 3, 10));
    handle_server(&mut game, 1, Message::Start);
    handle_server(&mut game, 2, offer("Zelda", 1, 30, 0));
    handle_server(&mut game, 2, Message::Start);
    game
}

fn check_places(game: &Game) {
    assert!(game.is_sound());
    for character in &game.characters {
        let home = character.current_room as usize;
        assert!(home < game.rooms.len());
        for (at, room) in game.rooms.iter().enumerate() {
            let listed = room.characters.iter().filter(|n| **n == character.name).count();
            assert_eq!(listed, if at == home { 1 } else { 0 });
        }
    }
    for (a, one) in game.characters.iter().enumerate() {
        for other in &game.characters[a + 1..] {
            assert_ne!(one.name, other.name);
        }
    }
    let listed: usize = game.rooms.iter().map(|r| r.characters.len()).sum();
    assert_eq!(listed, game.characters.len());
}

#[test]
fn handshake_goes_out_as_version_then_game() {
    let mut game = temple();
    let mut queue = Vec::new();
    send_info(&mut queue, 40, 500, "Welcome".to_string());
    let mut out = Vec::new();
    for message in queue {
        out.extend(handle_server(&mut game, 9, message));
    }
    let mut rules = vec![0x0B, 0x28, 0x00, 0xF4, 0x01, 7, 0];
    rules.extend(b"Welcome");
    assert_eq!(
        out,
        vec![
            Action::Send { to: 9, bytes: vec![0x0E, 0x02, 0x03, 0x00, 0x00] },
            Action::Send { to: 9, bytes: rules },
        ]
    );
}

#[test]
fn a_new_character_is_accepted_and_echoed() {
    let mut game = temple();
    let out = handle_server(&mut game, 1, offer("Link", 10, 10, 10));
    assert_eq!(
        out,
        vec![
            Action::Send { to: 1, bytes: vec![0x08, 0x0A] },
            Action::Send { to: 1, bytes: sheet("Link", 0xC8, 10, 10, 10, 20, 0, 0, "hero") },
        ]
    );
    assert_eq!(game.characters.len(), 1);
    assert_eq!(
        game.characters[0],
        Character {
            conn: 1,
            active: true,
            name: "Link".to_string(),
            flags: 0xC8,
            attack: 10,
            defense: 10,
            regen: 10,
            health: 20,
            gold: 0,
            current_room: 0,
            description: "hero".to_string(),
        }
    );
    assert_eq!(game.rooms[0].characters, names(&["Link"]));
    check_places(&game);
}

#[test]
fn a_character_over_the_points_is_refused() {
    let mut game = temple();
    let out = handle_server(&mut game, 1, offer("Link", 20, 20, 1));
    assert_eq!(out, vec![refusal(1, ErrorCode::StatError, "Total points exceeds initial points")]);
    assert!(game.characters.is_empty());
    assert!(game.rooms[0].characters.is_empty());
}

#[test]
fn a_nameless_character_is_called_default_by_its_session() {
    let mut game = temple();
    let (mut session, _) = Session::open(String::new());
    let mut frame = vec![10u8];
    frame.extend([0u8; 32]);
    frame.extend([0xFF, 1, 0, 1, 0, 1, 0, 0, 0, 0, 0, 0, 0, 0, 0]);
    let event = handle_client(&mut session, &frame).event.unwrap();
    handle_server(&mut game, 1, event);
    assert_eq!(game.characters[0].name, "Default");
    assert_eq!(game.rooms[0].characters, names(&["Default"]));
}

#[test]
fn the_game_loop_takes_a_name_as_the_event_gives_it() {
    let mut game = temple();
    handle_server(&mut game, 1, offer("", 1, 1, 1));
    assert_eq!(game.characters[0].name, "");
    assert_eq!(game.rooms[0].characters, names(&[""]));
    assert!(game.is_sound());

    let before = format!("{:?}", game);
    let out = handle_server(&mut game, 2, offer("", 2, 2, 2));
    assert_eq!(out, vec![refusal(2, ErrorCode::PlayerExists, "Character already exists!")]);
    assert_eq!(
        out[0],
        Action::Send { to: 2, bytes: [&[7u8, 2, 25, 0][..], b"Character already exists!"].concat() }
    );
    assert_eq!(format!("{:?}", game), before);

    let out = handle_server(&mut game, 3, offer("Default", 2, 2, 2));
    assert_eq!(out.len(), 2);
    assert_eq!(game.characters.len(), 2);
    assert_eq!(game.characters[1].name, "Default");
}

#[test]
fn the_name_of_an_active_character_is_taken() {
    let mut game = with_players();
    let before = format!("{:?}", game);
    let out = handle_server(&mut game, 3, offer("Link", 1, 1, 1));
    assert_eq!(out, vec![refusal(3, ErrorCode::PlayerExists, "Character already exists!")]);
    assert_eq!(format!("{:?}", game), before);
}

#[test]
fn start_shows_the_first_room() {
    let mut game = temple();
    handle_server(&mut game, 1, offer("Link", 8, 3, 10));
    let out = handle_server(&mut game, 1, Message::Start);
    assert_eq!(
        out,
        vec![
            Action::Send { to: 1, bytes: room_frame(&game, 0) },
            Action::Send { to: 1, bytes: sheet("Keese", 0xF8, 5, 2, 10, 20, 7, 0, "A Keese.") },
            Action::Send { to: 1, bytes: exit_frame(&game, 1) },
        ]
    );
    assert_eq!(game.characters[0].flags, 0xD8);
    check_places(&game);
}

#[test]
fn start_tells_the_others_in_the_first_room() {
    let mut game = temple();
    handle_server(&mut game, 1, offer("Link", 8, 3, 10));
    handle_server(&mut game, 1, Message::Start);
    handle_server(&mut game, 2, offer("Zelda", 1, 30, 0));
    let out = handle_server(&mut game, 2, Message::Start);
    assert_eq!(
        out,
        vec![
            Action::Send { to: 2, bytes: room_frame(&game, 0) },
            Action::Send { to: 1, bytes: sheet("Zelda", 0xC8, 1, 30, 0, 20, 0, 0, "hero") },
            Action::Send { to: 2, bytes: sheet("Link", 0xD8, 8, 3, 10, 20, 0, 0, "hero") },
            Action::Send { to: 2, bytes: sheet("Keese", 0xF8, 5, 2, 10, 20, 7, 0, "A Keese.") },
            Action::Send { to: 2, bytes: exit_frame(&game, 1) },
        ]
    );
}

#[test]
fn start_without_a_character_does_nothing() {
    let mut game = temple();
    let out = handle_server(&mut game, 5, Message::Start);
    assert!(out.is_empty());
    assert!(game.characters.is_empty());
}

#[test]
fn a_room_that_is_no_exit_is_a_bad_room() {
    let mut game = with_players();
    let before = format!("{:?}", game);
    for target in [2u16, 0, 3, 65535] {
        let out = handle_server(&mut game, 1, Message::ChangeRoom { room_num: target });
        assert_eq!(out, vec![refusal(1, ErrorCode::BadRoom, "Not a valid room or connection!")]);
        assert_eq!(
            out[0],
            Action::Send {
                to: 1,
                bytes: [&[7u8, 1, 31, 0][..], b"Not a valid room or connection!"].concat(),
            }
        );
    }
    assert_eq!(format!("{:?}", game), before);
}

#[test]
fn changing_rooms_moves_shows_and_tells() {
    let mut game = with_players();
    let out = handle_server(&mut game, 1, Message::ChangeRoom { room_num: 1 });
    assert_eq!(game.characters[0].current_room, 1);
    assert_eq!(game.rooms[0].characters, names(&["Zelda"]));
    assert_eq!(game.rooms[1].characters, names(&["Link"]));
    let link = sheet("Link", 0xD8, 8, 3, 10, 20, 0, 1, "hero");
    assert_eq!(
        out,
        vec![
            Action::Send { to: 1, bytes: room_frame(&game, 1) },
            Action::Send { to: 2, bytes: link },
            Action::Send { to: 1, bytes: exit_frame(&game, 0) },
            Action::Send { to: 1, bytes: exit_frame(&game, 2) },
        ]
    );
    check_places(&game);

    let out = handle_server(&mut game, 2, Message::ChangeRoom { room_num: 1 });
    assert_eq!(game.rooms[0].characters, names(&[]));
    assert_eq!(game.rooms[1].characters, names(&["Link", "Zelda"]));
    assert_eq!(
        out,
        vec![
            Action::Send { to: 2, bytes: room_frame(&game, 1) },
            Action::Send { to: 1, bytes: sheet("Zelda", 0xD8, 1, 30, 0, 20, 0, 1, "hero") },
            Action::Send { to: 2, bytes: sheet("Link", 0xD8, 8, 3, 10, 20, 0, 1, "hero") },
            Action::Send { to: 2, bytes: exit_frame(&game, 0) },
            Action::Send { to: 2, bytes: exit_frame(&game, 2) },
        ]
    );
    check_places(&game);
}

#[test]
fn the_dead_do_not_change_rooms() {
    let mut game = with_players();
    game.characters[0].health = 0;
    let out = handle_server(&mut game, 1, Message::ChangeRoom { room_num: 1 });
    assert_eq!(out, vec![refusal(1, ErrorCode::Other, "Player is dead and cannot change rooms!")]);
    game.characters[0].health = 20;
    game.characters[0].flags = 0x58;
    let out = handle_server(&mut game, 1, Message::ChangeRoom { room_num: 1 });
    assert_eq!(out, vec![refusal(1, ErrorCode::Other, "Player is dead and cannot change rooms!")]);
    assert_eq!(game.characters[0].current_room, 0);
}

#[test]
fn one_round_of_battle() {
    let mut game = temple();
    handle_server(&mut game, 1, offer("Link", 8, 3, 10));
    handle_server(&mut game, 1, Message::Start);
    let out = handle_server(&mut game, 1, Message::Fight);
    assert_eq!(game.monsters[0].health, 15);
    assert_eq!(game.monsters[0].flags, 0xF8);
    assert_eq!(game.characters[0].health, 19);
    assert_eq!(game.characters[0].flags, 0xD8);
    assert_eq!(
        out,
        vec![
            told(1, "Keese", "The players are attacking Keese!"),
            Action::Send { to: 1, bytes: sheet("Keese", 0xF8, 5, 2, 10, 15, 7, 0, "A Keese.") },
            told(1, "Link", "The monsters are attacking Link!"),
            Action::Send { to: 1, bytes: sheet("Link", 0xD8, 8, 3, 10, 19, 0, 0, "hero") },
        ]
    );
    assert_eq!(game.monsters[1], monster("Stalfos", 9, 4, 0, 30, 100, 2));
}

#[test]
fn everyone_in_the_room_fights_and_is_told() {
    let mut game = with_players();
    let out = handle_server(&mut game, 2, Message::Fight);
    // Pool of the players 8 + 1, of the monsters 5.
    assert_eq!(game.monsters[0].health, 20 - (9 - 2) + 1);
    assert_eq!(game.characters[0].health, 20 - (5 - 3) + 1);
    assert_eq!(game.characters[1].health, 20);
    let keese = sheet("Keese", 0xF8, 5, 2, 10, 14, 7, 0, "A Keese.");
    let link = sheet("Link", 0xD8, 8, 3, 10, 19, 0, 0, "hero");
    let zelda = sheet("Zelda", 0xD8, 1, 30, 0, 20, 0, 0, "hero");
    assert_eq!(
        out,
        vec![
            told(2, "Keese", "The players are attacking Keese!"),
            Action::Send { to: 1, bytes: keese.clone() },
            Action::Send { to: 2, bytes: keese },
            told(2, "Link", "The monsters are attacking Link!"),
            Action::Send { to: 1, bytes: link.clone() },
            Action::Send { to: 2, bytes: link },
            told(2, "Zelda", "The monsters are attacking Zelda!"),
            Action::Send { to: 1, bytes: zelda.clone() },
            Action::Send { to: 2, bytes: zelda },
        ]
    );
}

#[test]
fn a_monster_that_dies_does_not_strike_back() {
    let mut game = temple();
    handle_server(&mut game, 1, offer("Link", 30, 0, 10));
    handle_server(&mut game, 1, Message::Start);
    handle_server(&mut game, 1, Message::Fight);
    assert_eq!(game.monsters[0].health, 20 - 28 + 1);
    assert_eq!(game.monsters[0].flags, 0x38);
    assert_eq!(game.characters[0].health, 21);
    let out = handle_server(&mut game, 1, Message::Fight);
    assert_eq!(out, vec![refusal(1, ErrorCode::Other, "No monsters in the room to fight!")]);
    assert_eq!(game.monsters[0].health, -7);
    assert_eq!(game.monsters[0].flags, 0x38);
}

#[test]
fn a_character_that_dies_gets_the_flags_of_the_dead() {
    let mut game = temple();
    game.monsters[0].attack = 500;
    handle_server(&mut game, 1, offer("Link", 1, 0, 10));
    handle_server(&mut game, 1, Message::Start);
    handle_server(&mut game, 1, Message::Fight);
    assert_eq!(game.characters[0].health, 20 - 500 + 1);
    assert_eq!(game.characters[0].flags, 0x18);
    let out = handle_server(&mut game, 1, Message::Fight);
    assert_eq!(out, vec![refusal(1, ErrorCode::Other, "Dead players cannot start battles!")]);
}

#[test]
fn health_stops_at_the_ends_of_its_range() {
    let mut game = temple();
    game.monsters[0].attack = 65535;
    game.monsters[0].defense = 65535;
    game.monsters[0].health = 32767;
    game.monsters[0].regen = 65535;
    handle_server(&mut game, 1, offer("Link", 1, 0, 10));
    handle_server(&mut game, 1, Message::Start);
    handle_server(&mut game, 2, offer("Zelda", 0, 0, 0));
    game.characters[1].health = -32000;
    handle_server(&mut game, 1, Message::Fight);
    assert_eq!(game.monsters[0].health, 32767);
    assert_eq!(game.characters[0].health, -32768);
    assert_eq!(game.characters[0].flags, 0x18);
    assert_eq!(game.characters[1].health, -32768);
    assert_eq!(game.characters[1].flags, 0x18);
}

#[test]
fn no_battle_in_a_room_without_monsters() {
    let mut game = with_players();
    handle_server(&mut game, 1, Message::ChangeRoom { room_num: 1 });
    let out = handle_server(&mut game, 1, Message::Fight);
    assert_eq!(out, vec![refusal(1, ErrorCode::Other, "No monsters in the room to fight!")]);
}

#[test]
fn looting_takes_all_the_gold_once() {
    let mut game = temple();
    handle_server(&mut game, 1, offer("Link", 8, 3, 10));
    handle_server(&mut game, 1, Message::Start);

    let out = handle_server(&mut game, 1, Message::Loot { target_name: "Keese".to_string() });
    assert_eq!(
        out,
        vec![refusal(1, ErrorCode::BadMonster, "Monster is not dead and cannot be looted!")]
    );
    assert_eq!(out[0], Action::Send {
        to: 1,
        bytes: [&[7u8, 3, 41, 0][..], b"Monster is not dead and cannot be looted!"].concat(),
    });

    let mut healths = Vec::new();
    let mut golds = Vec::new();
    while game.monsters[0].health > 0 {
        handle_server(&mut game, 1, Message::Fight);
        healths.push((game.monsters[0].health, game.characters[0].health));
        golds.push(game.monsters[0].gold);
    }
    assert_eq!(healths, vec![(15, 19), (10, 18), (5, 17), (0, 18)]);
    assert_eq!(golds, vec![7, 7, 7, 7]);
    assert_eq!(game.monsters[0].flags, 0x38);

    let out = handle_server(&mut game, 1, Message::Loot { target_name: "Keese".to_string() });
    assert_eq!(game.characters[0].gold, 7);
    assert_eq!(game.monsters[0].gold, 0);
    assert_eq!(
        out,
        vec![
            Action::Send { to: 1, bytes: sheet("Link", 0xD8, 8, 3, 10, 18, 7, 0, "hero") },
            Action::Send { to: 1, bytes: sheet("Keese", 0x38, 5, 2, 10, 0, 0, 0, "A Keese.") },
        ]
    );

    let out = handle_server(&mut game, 1, Message::Loot { target_name: "Keese".to_string() });
    assert_eq!(out, vec![refusal(1, ErrorCode::BadMonster, "Monster has already been looted!")]);
    assert_eq!(game.characters[0].gold, 7);
    assert_eq!(game.monsters[0].gold, 0);
}

#[test]
fn looting_reaches_monsters_of_other_rooms() {
    let mut game = temple();
    handle_server(&mut game, 1, offer("Link", 8, 3, 10));
    game.monsters[1].health = -3;
    game.characters[0].gold = 65500;
    let out = handle_server(&mut game, 1, Message::Loot { target_name: "Stalfos".to_string() });
    assert_eq!(out.len(), 2);
    assert_eq!(game.characters[0].gold, 65535);
    assert_eq!(game.monsters[1].gold, 0);
}

#[test]
fn looting_is_refused_in_order() {
    let mut game = temple();
    let out = handle_server(&mut game, 1, Message::Loot { target_name: "Nobody".to_string() });
    assert!(out.is_empty());
    handle_server(&mut game, 1, offer("Link", 8, 3, 10));
    let out = handle_server(&mut game, 1, Message::Loot { target_name: "Nobody".to_string() });
    assert_eq!(out, vec![refusal(1, ErrorCode::BadMonster, "Not a valid monster to loot!")]);
    game.characters[0].health = -1;
    let out = handle_server(&mut game, 1, Message::Loot { target_name: "Nobody".to_string() });
    assert_eq!(out, vec![refusal(1, ErrorCode::Other, "Player is dead and cannot loot!")]);
}

#[test]
fn a_message_goes_to_the_connection_of_its_recipient() {
    let mut game = with_players();
    let message = Message::Message {
        recipient: "Zelda".to_string(),
        sender: "Link".to_string(),
        message: "hello".to_string(),
    };
    let out = handle_server(&mut game, 1, message.clone());
    assert_eq!(out, vec![Action::Send { to: 2, bytes: encode(&message) }]);
    let out = handle_server(
        &mut game,
        1,
        Message::Message {
            recipient: "Ganon".to_string(),
            sender: "Link".to_string(),
            message: "hello".to_string(),
        },
    );
    assert!(out.is_empty());
}

#[test]
fn an_error_event_is_written_to_its_author() {
    let mut game = temple();
    let error = Message::Error {
        error: ErrorCode::NotReady,
        message: "You haven't started the game yet!".to_string(),
    };
    let out = handle_server(&mut game, 4, error);
    let mut expected = vec![7u8, 5, 33, 0];
    expected.extend(b"You haven't started the game yet!");
    assert_eq!(out, vec![Action::Send { to: 4, bytes: expected }]);
}

#[test]
fn frames_of_the_server_change_nothing_as_events() {
    let mut game = with_players();
    let before = format!("{:?}", game);
    for message in [
        Message::Accept { accept_type: 10 },
        Message::PVPFight { target_name: "Zelda".to_string() },
        Message::Room { room_number: 0, room_name: "x".to_string(), description: "y".to_string() },
        Message::Connection {
            room_number: 0,
            room_name: "x".to_string(),
            description: "y".to_string(),
        },
    ] {
        assert!(handle_server(&mut game, 1, message).is_empty());
    }
    assert_eq!(format!("{:?}", game), before);
}

#[test]
fn leaving_retires_the_character_and_closes_the_connection() {
    let mut game = with_players();
    let out = handle_server(&mut game, 1, Message::Leave);
    assert_eq!(out, vec![Action::Close { conn: 1 }]);
    assert!(!game.characters[0].active);
    assert_eq!(game.characters[0].flags, 0x00);
    assert_eq!(game.characters[0].name, "Link");
    assert_eq!(game.rooms[0].characters, names(&["Link", "Zelda"]));
    assert!(game.characters[1].active);
    let out = handle_server(&mut game, 77, Message::Leave);
    assert_eq!(out, vec![Action::Close { conn: 77 }]);
    check_places(&game);
}

#[test]
fn the_gone_are_not_written_to() {
    let mut game = with_players();
    handle_server(&mut game, 1, Message::Leave);
    let out = handle_server(&mut game, 2, Message::ChangeRoom { room_num: 1 });
    assert!(out.iter().all(|a| matches!(a, Action::Send { to: 2, .. })));
    assert_eq!(out.len(), 3);
}

#[test]
fn a_name_that_comes_back_revives_its_character() {
    let mut game = with_players();
    handle_server(&mut game, 1, Message::ChangeRoom { room_num: 1 });
    handle_server(&mut game, 1, Message::Fight);
    game.characters[0].gold = 12;
    handle_server(&mut game, 1, Message::Leave);

    let out = handle_server(&mut game, 8, offer("Link", 40, 40, 40));
    let link = &game.characters[0];
    assert_eq!((link.conn, link.active, link.flags, link.current_room), (8, true, 0xC8, 0));
    assert_eq!((link.attack, link.defense, link.regen, link.gold), (8, 3, 10, 12));
    assert_eq!(game.rooms[1].characters, names(&[]));
    assert_eq!(game.rooms[0].characters, names(&["Zelda", "Link"]));
    let mut sender = b"Narrator".to_vec();
    sender.resize(32, 0);
    sender[31] = 1;
    let text = "As you regain conciousness, you see a Wallmaster retreating into the darkness above.";
    let mut narration = vec![1u8, 84, 0];
    let mut recipient = b"Link".to_vec();
    recipient.resize(32, 0);
    narration.extend(recipient);
    narration.extend(sender);
    narration.extend(text.as_bytes());
    assert_eq!(
        out,
        vec![
            Action::Send { to: 8, bytes: vec![8, 10] },
            Action::Send { to: 8, bytes: sheet("Link", 0xC8, 8, 3, 10, 20, 12, 0, "hero") },
            Action::Send { to: 8, bytes: narration },
        ]
    );
    assert_eq!(game.characters.len(), 2);
    check_places(&game);
}

#[test]
fn the_revival_text_depends_on_the_first_room() {
    let mut game = Game::new(vec![room(0, "Forest", "Trees.", &[], &[])], Vec::new()).unwrap();
    handle_server(&mut game, 1, offer("Link", 1, 1, 1));
    handle_server(&mut game, 1, Message::Leave);
    let out = handle_server(&mut game, 2, offer("Link", 1, 1, 1));
    let text = "You feel exhasted and groggy, you hear laughing and the sound of wood clacking together. A Skullkid must have dragged you back to the entrance.";
    assert_eq!(text.len(), 143);
    match &out[2] {
        Action::Send { to: 2, bytes } => {
            assert_eq!(&bytes[..3], &[1, 143, 0]);
            assert_eq!(&bytes[67..], text.as_bytes());
        },
        other => panic!("not a narration: {:?}", other),
    }
}

#[test]
fn a_revival_into_a_room_that_does_not_exist_is_refused() {
    let mut game = with_players();
    handle_server(&mut game, 1, Message::Leave);
    let before = format!("{:?}", game);
    let mut back = offer("Link", 1, 1, 1);
    if let Message::Character { current_room, .. } = &mut back {
        *current_room = 3;
    }
    let out = handle_server(&mut game, 8, back);
    assert_eq!(out, vec![refusal(8, ErrorCode::BadRoom, "Not a valid room or connection!")]);
    assert_eq!(format!("{:?}", game), before);
}

#[test]
fn shutting_down_closes_every_live_connection() {
    let mut game = with_players();
    handle_server(&mut game, 3, offer("Navi", 0, 0, 0));
    handle_server(&mut game, 2, Message::Leave);
    let out = game.shut_down();
    assert_eq!(out, vec![Action::Close { conn: 1 }, Action::Close { conn: 3 }]);
    assert!(game.characters.iter().all(|c| !c.active));
    assert!(game.shut_down().is_empty());
    check_places(&game);
}

#[test]
fn characters_stay_where_the_rooms_say() {
    let mut game = temple();
    let events: Vec<(u64, Message)> = vec![
        (1, offer("Link", 8, 3, 10)),
        (2, offer("Zelda", 1, 30, 0)),
        (3, offer("Link", 1, 1, 1)),
        (1, Message::Start),
        (2, Message::Start),
        (1, Message::ChangeRoom { room_num: 1 }),
        (1, Message::ChangeRoom { room_num: 2 }),
        (2, Message::ChangeRoom { room_num: 2 }),
        (2, Message::ChangeRoom { room_num: 1 }),
        (1, Message::Fight),
        (1, Message::Leave),
        (4, offer("Link", 1, 1, 1)),
        (4, Message::Start),
        (4, Message::ChangeRoom { room_num: 1 }),
        (2, Message::ChangeRoom { room_num: 0 }),
        (5, offer("Navi", 0, 0, 0)),
        (2, Message::Leave),
        (6, offer("Zelda", 0, 0, 0)),
    ];
    for (author, message) in events {
        handle_server(&mut game, author, message);
        check_places(&game);
    }
    assert_eq!(game.characters.len(), 3);
    assert_eq!(game.rooms[1].characters, names(&["Link"]));
    assert_eq!(game.rooms[0].characters, names(&["Navi", "Zelda"]));
}

#[test]
fn bytes_in_and_bytes_out() {
    let mut game = temple();
    let (mut session, greeting) = Session::open("Welcome".to_string());
    let mut written: Vec<u8> = Vec::new();
    for event in greeting {
        for action in handle_server(&mut game, 1, event) {
            if let Action::Send { bytes, .. } = action {
                written.extend(bytes);
            }
        }
    }
    assert_eq!(&written[..5], &[0x0E, 0x02, 0x03, 0x00, 0x00]);
    assert_eq!(&written[5..12], &[0x0B, 0x28, 0x00, 0xF4, 0x01, 7, 0]);
    assert_eq!(&written[12..], b"Welcome");
    written.clear();

    let mut offered = vec![10u8];
    let mut name = b"Link".to_vec();
    name.resize(32, 0);
    offered.extend(name.clone());
    offered.extend([0xFF, 10, 0, 10, 0, 10, 0, 0, 0, 0, 0, 0, 0, 4, 0]);
    offered.extend(b"hero");

    for frame in [offered, vec![6u8], vec![2, 1, 0], vec![2, 0, 0], vec![2, 2, 0], vec![12]] {
        let reaction = handle_client(&mut session, &frame);
        if let Some(event) = reaction.event {
            for action in handle_server(&mut game, 1, event) {
                match action {
                    Action::Send { to, bytes } => {
                        assert_eq!(to, 1);
                        written.extend(bytes);
                    }
                    Action::Close { conn } => assert_eq!(conn, 1),
                }
            }
        }
    }
    assert_eq!(session.phase(), Phase::Closed);

    let mut expected = vec![0x08u8, 0x0A];
    expected.push(10);
    expected.extend(name);
    expected.extend([0xC8, 10, 0, 10, 0, 10, 0, 20, 0, 0, 0, 0, 0, 4, 0]);
    expected.extend(b"hero");
    assert_eq!(&written[..expected.len()], &expected[..]);

    let mut kinds = Vec::new();
    let mut rest = &written[..];
    while !rest.is_empty() {
        let (message, used) = lurk::codec::decode(rest).unwrap();
        kinds.push(message.message_type());
        rest = &rest[used..];
    }
    assert_eq!(kinds, vec![8, 10, 9, 10, 13, 9, 13, 13, 9, 10, 13, 7]);
    assert!(!game.characters[0].active);
    assert_eq!(game.rooms[0].characters, names(&["Link"]));
}

#[test]
fn an_unsound_world_is_left_alone() {
    let mut game = with_players();
    let out = try_handle_server(&mut game, 1, Message::ChangeRoom { room_num: 1 }).unwrap();
    assert_eq!(out.len(), 4);
    assert_eq!(game.characters[0].current_room, 1);

    game.rooms[2].characters.push("Link".to_string());
    let before = format!("{:?}", game);
    assert_eq!(try_handle_server(&mut game, 1, Message::ChangeRoom { room_num: 0 }), None);
    assert_eq!(format!("{:?}", game), before);
}

#[test]
fn a_connection_that_cannot_be_written_to_has_left() {
    let mut game = with_players();
    let out = write_failed(&mut game, 2);
    assert_eq!(out, vec![Action::Close { conn: 2 }]);
    assert!(!game.characters[1].active);
    assert_eq!(game.characters[1].flags, 0x00);
    assert!(game.characters[0].active);
    assert!(game.is_sound());
    assert_eq!(write_failed(&mut game, 31), vec![Action::Close { conn: 31 }]);
}

#[test]
fn a_world_changed_by_hand_may_be_unsound() {
    let game = with_players();
    assert!(game.is_sound());

    let mut moved = with_players();
    moved.characters[0].current_room = 1;
    assert!(!moved.is_sound());

    let mut doubled = with_players();
    doubled.rooms[1].characters.push("Link".to_string());
    assert!(!doubled.is_sound());

    let mut twice = with_players();
    twice.rooms[0].characters.push("Zelda".to_string());
    assert!(!twice.is_sound());

    let mut ghost = with_players();
    ghost.rooms[2].characters.push("Ghost".to_string());
    assert!(!ghost.is_sound());

    let mut twins = with_players();
    twins.characters[1].name = "Link".to_string();
    assert!(!twins.is_sound());

    let mut lost = with_players();
    lost.characters[0].current_room = 9;
    assert!(!lost.is_sound());

    let mut renamed = with_players();
    renamed.rooms[1].name = "Vault".to_string();
    assert!(!renamed.is_sound());

    let mut healthy = with_players();
    healthy.monsters[0].health = -5;
    healthy.characters[0].gold = 9;
    assert!(healthy.is_sound());
}

#[test]
fn every_frame_sent_announces_its_length() {
    let mut game = with_players();
    let mut frames = Vec::new();
    for (author, message) in [
        (1u64, Message::ChangeRoom { room_num: 1 }),
        (1, Message::ChangeRoom { room_num: 0 }),
        (1, Message::Fight),
        (2, Message::Loot { target_name: "Keese".to_string() }),
        (1, Message::Leave),
        (3, offer("Link", 1, 1, 1)),
    ] {
        for action in handle_server(&mut game, author, message) {
            if let Action::Send { bytes, .. } = action {
                frames.push(bytes);
            }
        }
    }
    assert!(frames.len() > 10);
    for frame in frames {
        let (_, used) = lurk::codec::decode(&frame).unwrap();
        assert_eq!(used, frame.len());
    }
}
