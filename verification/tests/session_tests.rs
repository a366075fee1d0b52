use lurk::codec::encode;
use lurk::error_code::ErrorCode;
use lurk::message::Message;
use lurk::session::{handle_client, send_info, server_only, Next, Phase, Reaction, Session};

fn complaint(code: ErrorCode, text: &str, next: Next) -> Reaction {
    Reaction { event: Some(Message::Error { error: code, message: text.to_string() }), next }
}

fn offer(name: &str, flags: u8, attack: u16, defense: u16, regen: u16, health: i16) -> Vec<u8> {
    encode(&Message::Character {
        name: name.to_string(),
        flags,
        attack,
        defense,
        regen,
        health,
        gold: 999,
        current_room: 5,
        description: "hero".to_string(),
    })
}

/// A session that has come to `phase` by the frames of a client.
fn session_in(phase: Phase) -> Session {
    let (mut session, _) = Session::open("Welcome".to_string());
    if phase != Phase::AwaitingCharacter {
        handle_client(&mut session, &offer("Link", 0xFF, 1, 1, 1, 0));
    }
    if phase == Phase::Started {
        handle_client(&mut session, &[6]);
    }
    if phase == Phase::Closed {
        handle_client(&mut session, &[12]);
    }
    assert_eq!(session.phase(), phase);
    session
}

fn in_game() -> Vec<Message> {
    vec![
        Message::Message {
            recipient: "Zelda".to_string(),
            sender: "Link".to_string(),
            message: "hello".to_string(),
        },
        Message::ChangeRoom { room_num: 1 },
        Message::Fight,
        Message::Loot { target_name: "Keese".to_string() },
    ]
}

#[test]
fn a_character_is_normalised_and_passed_on() {
    let mut session = session_in(Phase::AwaitingCharacter);
    let reaction = handle_client(&mut session, &offer("Link", 0xFF, 10, 10, 10, 0));
    assert_eq!(session.phase(), Phase::Accepted);
    assert_eq!(
        reaction,
        Reaction {
            event: Some(Message::Character {
                name: "Link".to_string(),
                flags: 0xC8,
                attack: 10,
                defense: 10,
                regen: 10,
                health: 20,
                gold: 0,
                current_room: 0,
                description: "hero".to_string(),
            }),
            next: Next::Continue,
        }
    );
}

#[test]
fn a_character_keeps_flags_and_health_that_say_something() {
    let mut session = session_in(Phase::AwaitingCharacter);
    let reaction = handle_client(&mut session, &offer("", 0x48, 1, 2, 3, -7));
    assert_eq!(
        reaction.event,
        Some(Message::Character {
            name: "Default".to_string(),
            flags: 0x48,
            attack: 1,
            defense: 2,
            regen: 3,
            health: -7,
            gold: 0,
            current_room: 0,
            description: "hero".to_string(),
        })
    );
    let mut session = session_in(Phase::AwaitingCharacter);
    let reaction = handle_client(&mut session, &offer("Link", 0x00, 0, 0, 0, 5));
    assert!(matches!(reaction.event, Some(Message::Character { flags: 0xC8, health: 5, .. })));
}

#[test]
fn forty_points_pass_and_forty_one_do_not() {
    let mut session = session_in(Phase::AwaitingCharacter);
    let reaction = handle_client(&mut session, &offer("Link", 0xFF, 20, 10, 10, 0));
    assert!(matches!(reaction.event, Some(Message::Character { .. })));
    assert_eq!(session.phase(), Phase::Accepted);

    let mut session = session_in(Phase::AwaitingCharacter);
    let reaction = handle_client(&mut session, &offer("Link", 0xFF, 20, 11, 10, 0));
    assert_eq!(
        reaction,
        complaint(ErrorCode::StatError, "Total points exceeds initial points", Next::Continue)
    );
    assert_eq!(session.phase(), Phase::AwaitingCharacter);

    let mut session = session_in(Phase::Started);
    let reaction = handle_client(&mut session, &offer("Link", 0xFF, 65535, 65535, 65535, 0));
    assert_eq!(
        reaction,
        complaint(ErrorCode::StatError, "Total points exceeds initial points", Next::Continue)
    );
    assert_eq!(session.phase(), Phase::Started);
}

#[test]
fn a_character_may_be_offered_in_every_open_phase() {
    for (before, after) in [
        (Phase::AwaitingCharacter, Phase::Accepted),
        (Phase::Accepted, Phase::Accepted),
        (Phase::Started, Phase::Started),
    ] {
        let mut session = session_in(before);
        let reaction = handle_client(&mut session, &offer("Link", 0xFF, 1, 1, 1, 0));
        assert!(matches!(reaction.event, Some(Message::Character { .. })));
        assert_eq!(reaction.next, Next::Continue);
        assert_eq!(session.phase(), after);
    }
}

#[test]
fn start_passes_once_a_character_was_offered() {
    let mut session = session_in(Phase::Accepted);
    let reaction = handle_client(&mut session, &[6]);
    assert_eq!(reaction, Reaction { event: Some(Message::Start), next: Next::Continue });
    assert_eq!(session.phase(), Phase::Started);
}

#[test]
fn start_without_a_character_is_not_ready() {
    let mut session = session_in(Phase::AwaitingCharacter);
    let reaction = handle_client(&mut session, &[6]);
    assert_eq!(
        reaction,
        complaint(ErrorCode::NotReady, "You must create a character first!", Next::Continue)
    );
    assert_eq!(session.phase(), Phase::AwaitingCharacter);
}

#[test]
fn a_second_start_is_not_ready() {
    let mut session = session_in(Phase::Started);
    let reaction = handle_client(&mut session, &[6]);
    assert_eq!(
        reaction,
        complaint(ErrorCode::NotReady, "Character is already started!", Next::Continue)
    );
    assert_eq!(session.phase(), Phase::Started);
}

#[test]
fn game_frames_pass_only_once_started() {
    for message in in_game() {
        let frame = encode(&message);
        for before in [Phase::AwaitingCharacter, Phase::Accepted] {
            let mut session = session_in(before);
            let reaction = handle_client(&mut session, &frame);
            assert_eq!(
                reaction,
                complaint(ErrorCode::NotReady, "You haven't started the game yet!", Next::Continue)
            );
            assert_eq!(session.phase(), before);
        }
        let mut session = session_in(Phase::Started);
        let reaction = handle_client(&mut session, &frame);
        assert_eq!(reaction, Reaction { event: Some(message), next: Next::Continue });
        assert_eq!(session.phase(), Phase::Started);
    }
}

#[test]
fn player_combat_is_refused_in_every_phase() {
    let frame = encode(&Message::PVPFight { target_name: "Ganon".to_string() });
    for before in [Phase::AwaitingCharacter, Phase::Accepted, Phase::Started] {
        let mut session = session_in(before);
        let reaction = handle_client(&mut session, &frame);
        assert_eq!(
            reaction,
            complaint(ErrorCode::NoPlayerCombat, "Player PVP is not allowed!", Next::Continue)
        );
        assert_eq!(session.phase(), before);
    }
}

#[test]
fn leave_passes_in_every_phase_and_stops_the_handler() {
    for before in [Phase::AwaitingCharacter, Phase::Accepted, Phase::Started] {
        let mut session = session_in(before);
        let reaction = handle_client(&mut session, &[12]);
        assert_eq!(reaction, Reaction { event: Some(Message::Leave), next: Next::Stop });
        assert_eq!(session.phase(), Phase::Closed);
    }
}

#[test]
fn server_frames_end_the_connection() {
    let rebukes = [
        (7u8, "I am the one who knocks, dont't try me!"),
        (8, "Accept this disconnect you heathen."),
        (9, "There isn't enough room here for the both of us pal."),
        (11, "Hey! That's my job!"),
        (13, "Connect these hands, nice try!"),
        (14, "Sorry no time traveling allowed!"),
    ];
    for (ty, text) in rebukes {
        for before in [Phase::AwaitingCharacter, Phase::Accepted, Phase::Started] {
            let mut session = session_in(before);
            let reaction = handle_client(&mut session, &[ty]);
            assert_eq!(reaction, complaint(ErrorCode::Other, text, Next::HalfClose));
            assert_eq!(session.phase(), Phase::Closed);
        }
    }
    let mut session = session_in(Phase::Started);
    let whole = encode(&Message::Accept { accept_type: 10 });
    let reaction = handle_client(&mut session, &whole);
    assert_eq!(
        reaction,
        complaint(ErrorCode::Other, "Accept this disconnect you heathen.", Next::HalfClose)
    );
}

#[test]
fn which_types_only_the_server_sends() {
    for ty in 0..=255u8 {
        assert_eq!(server_only(ty), [7, 8, 9, 11, 13, 14].contains(&ty));
    }
}

#[test]
fn a_type_above_fourteen_ends_the_connection() {
    let mut session = session_in(Phase::Started);
    let reaction = handle_client(&mut session, &[15]);
    assert_eq!(reaction, complaint(ErrorCode::Other, "Unknown Message Type", Next::HalfClose));
    assert_eq!(session.phase(), Phase::Closed);
}

#[test]
fn type_zero_is_answered_and_read_over() {
    let mut session = session_in(Phase::Accepted);
    let reaction = handle_client(&mut session, &[0]);
    assert_eq!(reaction, complaint(ErrorCode::Other, "Unknown Message Type", Next::Continue));
    assert_eq!(session.phase(), Phase::Accepted);
}

#[test]
fn a_broken_read_becomes_a_leave() {
    let mut session = session_in(Phase::Started);
    let reaction = handle_client(&mut session, &[]);
    assert_eq!(reaction, Reaction { event: Some(Message::Leave), next: Next::Stop });
    assert_eq!(session.phase(), Phase::Closed);

    let mut session = session_in(Phase::AwaitingCharacter);
    let frame = offer("Link", 0xFF, 1, 1, 1, 0);
    let reaction = handle_client(&mut session, &frame[..20]);
    assert_eq!(reaction, Reaction { event: Some(Message::Leave), next: Next::Stop });
    assert_eq!(session.phase(), Phase::Closed);
}

#[test]
fn text_that_is_not_utf8_ends_the_connection() {
    let mut frame = offer("Link", 0xFF, 1, 1, 1, 0);
    frame[2] = 0xFF;
    let mut session = session_in(Phase::AwaitingCharacter);
    let reaction = handle_client(&mut session, &frame);
    assert_eq!(
        reaction,
        complaint(ErrorCode::Other, "Message text is not valid UTF-8!", Next::HalfClose)
    );
    assert_eq!(session.phase(), Phase::Closed);
}

#[test]
fn a_closed_handler_does_nothing() {
    let mut session = session_in(Phase::Closed);
    for frame in [vec![6u8], vec![12], vec![7], vec![], offer("Link", 0xFF, 1, 1, 1, 0)] {
        let reaction = handle_client(&mut session, &frame);
        assert_eq!(reaction, Reaction { event: None, next: Next::Stop });
        assert_eq!(session.phase(), Phase::Closed);
    }
}

#[test]
fn a_session_from_character_to_leave() {
    let mut session = session_in(Phase::AwaitingCharacter);
    handle_client(&mut session, &offer("Link", 0xFF, 10, 10, 10, 0));
    assert_eq!(session.phase(), Phase::Accepted);
    handle_client(&mut session, &[6]);
    assert_eq!(session.phase(), Phase::Started);
    let reaction = handle_client(&mut session, &[3]);
    assert_eq!(reaction.event, Some(Message::Fight));
    handle_client(&mut session, &[12]);
    assert_eq!(session.phase(), Phase::Closed);
}

#[test]
fn a_new_connection_is_told_version_then_game() {
    let mut queue = vec![Message::Fight];
    send_info(&mut queue, 40, 500, "Welcome to the temple.".to_string());
    assert_eq!(
        queue,
        vec![
            Message::Fight,
            Message::Version { major_rev: 2, minor_rev: 3, extensions: Vec::new() },
            Message::Game {
                initial_points: 40,
                stat_limit: 500,
                description: "Welcome to the temple.".to_string(),
            },
        ]
    );
}

#[test]
fn a_session_opens_with_the_greeting() {
    let (session, greeting) = Session::open("Welcome to the temple.".to_string());
    assert_eq!(session.phase(), Phase::AwaitingCharacter);
    assert_eq!(
        greeting,
        vec![
            Message::Version { major_rev: 2, minor_rev: 3, extensions: Vec::new() },
            Message::Game {
                initial_points: 40,
                stat_limit: 500,
                description: "Welcome to the temple.".to_string(),
            },
        ]
    );
    let frames: Vec<Vec<u8>> = greeting.iter().map(encode).collect();
    assert_eq!(frames[0], vec![0x0E, 0x02, 0x03, 0x00, 0x00]);
    assert_eq!(&frames[1][..7], &[0x0B, 0x28, 0x00, 0xF4, 0x01, 22, 0]);
    assert_eq!(&frames[1][7..], b"Welcome to the temple.");
}
