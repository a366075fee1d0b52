use lurk::codec::{decode, encode, DecodeError};
use lurk::error_code::ErrorCode;
use lurk::frame::{frame_len, header_len};
use lurk::message::Message;

fn padded(name: &str) -> Vec<u8> {
    let mut field = name.as_bytes().to_vec();
    field.resize(32, 0);
    field
}

fn link() -> Message {
    Message::Character {
        name: "Link".to_string(),
        flags: 0xC8,
        attack: 10,
        defense: 10,
        regen: 10,
        health: 20,
        gold: 0,
        current_room: 0,
        description: "hero".to_string(),
    }
}

fn every_kind() -> Vec<Message> {
    vec![
        Message::Message {
            recipient: "Zelda".to_string(),
            sender: "Link".to_string(),
            message: "It's dangerous to go alone!".to_string(),
        },
        Message::ChangeRoom { room_num: 513 },
        Message::Fight,
        Message::PVPFight { target_name: "Ganon".to_string() },
        Message::Loot { target_name: "Keese".to_string() },
        Message::Start,
        Message::Error { error: ErrorCode::BadMonster, message: "Not a valid monster to loot!".to_string() },
        Message::Accept { accept_type: 10 },
        Message::Room {
            room_number: 7,
            room_name: "Temple Entrance".to_string(),
            description: "Cold air drifts out.".to_string(),
        },
        link(),
        Message::Game { initial_points: 40, stat_limit: 500, description: "Welcome".to_string() },
        Message::Leave,
        Message::Connection {
            room_number: 2,
            room_name: "Hall".to_string(),
            description: "A long hall.".to_string(),
        },
        Message::Version { major_rev: 2, minor_rev: 3, extensions: vec![1, 2, 3] },
    ]
}

#[test]
fn version_frame_is_five_bytes() {
    let frame = encode(&Message::Version { major_rev: 2, minor_rev: 3, extensions: Vec::new() });
    assert_eq!(frame, vec![0x0E, 0x02, 0x03, 0x00, 0x00]);
}

#[test]
fn game_frame_is_little_endian() {
    let frame = encode(&Message::Game {
        initial_points: 40,
        stat_limit: 500,
        description: "hi".to_string(),
    });
    assert_eq!(frame, vec![0x0B, 0x28, 0x00, 0xF4, 0x01, 0x02, 0x00, b'h', b'i']);
}

#[test]
fn character_frame_layout() {
    let frame = encode(&link());
    let mut expected = vec![10u8];
    expected.extend(padded("Link"));
    expected.push(0xC8);
    expected.extend([10, 0, 10, 0, 10, 0, 20, 0, 0, 0, 0, 0, 4, 0]);
    expected.extend(b"hero");
    assert_eq!(frame.len(), 52);
    assert_eq!(frame, expected);
}

#[test]
fn negative_health_is_twos_complement() {
    let frame = encode(&Message::Character {
        name: "Link".to_string(),
        flags: 0x18,
        attack: 0x0102,
        defense: 0,
        regen: 0,
        health: -2,
        gold: 0xFFFF,
        current_room: 0x0304,
        description: String::new(),
    });
    assert_eq!(&frame[34..36], &[0x02, 0x01]);
    assert_eq!(&frame[40..42], &[0xFE, 0xFF]);
    assert_eq!(&frame[42..44], &[0xFF, 0xFF]);
    assert_eq!(&frame[44..46], &[0x04, 0x03]);
    let (back, used) = decode(&frame).unwrap();
    assert_eq!(used, 48);
    assert!(matches!(back, Message::Character { health: -2, gold: 0xFFFF, .. }));
}

#[test]
fn message_frame_layout() {
    let frame = encode(&Message::Message {
        recipient: "Zelda".to_string(),
        sender: "Link".to_string(),
        message: "hey".to_string(),
    });
    let mut expected = vec![1u8, 3, 0];
    expected.extend(padded("Zelda"));
    expected.extend(padded("Link"));
    expected.extend(b"hey");
    assert_eq!(frame, expected);
}

#[test]
fn error_frame_layout() {
    let frame = encode(&Message::Error {
        error: ErrorCode::BadRoom,
        message: "Not a valid room or connection!".to_string(),
    });
    let mut expected = vec![7u8, 1, 31, 0];
    expected.extend(b"Not a valid room or connection!");
    assert_eq!(frame, expected);
}

#[test]
fn room_and_connection_share_a_layout() {
    let room = encode(&Message::Room {
        room_number: 258,
        room_name: "Hall".to_string(),
        description: "long".to_string(),
    });
    let connection = encode(&Message::Connection {
        room_number: 258,
        room_name: "Hall".to_string(),
        description: "long".to_string(),
    });
    let mut expected = vec![9u8, 2, 1];
    expected.extend(padded("Hall"));
    expected.extend([4, 0]);
    expected.extend(b"long");
    assert_eq!(room, expected);
    expected[0] = 13;
    assert_eq!(connection, expected);
}

#[test]
fn short_frames() {
    assert_eq!(encode(&Message::Fight), vec![3]);
    assert_eq!(encode(&Message::Start), vec![6]);
    assert_eq!(encode(&Message::Leave), vec![12]);
    assert_eq!(encode(&Message::Accept { accept_type: 10 }), vec![8, 10]);
    assert_eq!(encode(&Message::ChangeRoom { room_num: 0x1234 }), vec![2, 0x34, 0x12]);
    let mut loot = vec![5u8];
    loot.extend(padded("Keese"));
    assert_eq!(encode(&Message::Loot { target_name: "Keese".to_string() }), loot);
    loot[0] = 4;
    assert_eq!(encode(&Message::PVPFight { target_name: "Keese".to_string() }), loot);
}

#[test]
fn every_kind_survives_the_round_trip() {
    for message in every_kind() {
        let frame = encode(&message);
        let (back, used) = decode(&frame).unwrap();
        assert_eq!(used, frame.len());
        assert_eq!(back, message);
    }
}

#[test]
fn every_frame_announces_its_length() {
    for message in every_kind() {
        let frame = encode(&message);
        assert_eq!(frame[0], message.message_type());
        assert!(frame.len() >= header_len(frame[0]));
        assert_eq!(frame_len(&frame[..header_len(frame[0])]), frame.len());
    }
}

#[test]
fn decoding_stops_at_the_end_of_the_frame() {
    let mut bytes = encode(&link());
    let length = bytes.len();
    bytes.extend([0xFF, 0xFE, 0x00, 0x07]);
    let (back, used) = decode(&bytes).unwrap();
    assert_eq!(used, length);
    assert_eq!(back, link());
}

#[test]
fn empty_input_is_a_short_read() {
    assert_eq!(decode(&[]), Err(DecodeError::ShortRead));
}

#[test]
fn truncated_frames_are_short_reads() {
    let frame = encode(&link());
    for cut in 1..frame.len() {
        assert_eq!(decode(&frame[..cut]), Err(DecodeError::ShortRead));
    }
    assert_eq!(decode(&[2, 1]), Err(DecodeError::ShortRead));
    assert_eq!(decode(&[8]), Err(DecodeError::ShortRead));
}

#[test]
fn unknown_type_bytes_are_bad_types() {
    assert_eq!(decode(&[0]), Err(DecodeError::BadType));
    assert_eq!(decode(&[15]), Err(DecodeError::BadType));
    assert_eq!(decode(&[255, 1, 2, 3]), Err(DecodeError::BadType));
    assert_eq!(decode(&[0, 1, 2, 3]), Err(DecodeError::BadType));
}

#[test]
fn bad_text_is_bad_utf8() {
    let mut frame = encode(&link());
    frame[1] = 0xFF;
    assert_eq!(decode(&frame), Err(DecodeError::BadUtf8));
    let mut frame = encode(&link());
    let last = frame.len() - 1;
    frame[last] = 0xC3;
    assert_eq!(decode(&frame), Err(DecodeError::BadUtf8));
    assert_eq!(decode(&[7, 0, 1, 0, 0x80]), Err(DecodeError::BadUtf8));
}

#[test]
fn extensions_are_bytes_not_text() {
    let (back, used) = decode(&[14, 2, 3, 2, 0, 0xFF, 0x80]).unwrap();
    assert_eq!(used, 7);
    assert_eq!(back, Message::Version { major_rev: 2, minor_rev: 3, extensions: vec![0xFF, 0x80] });
}

#[test]
fn a_name_ends_at_its_first_zero_byte() {
    let mut frame = vec![5u8];
    let mut field = b"Keese".to_vec();
    field.push(0);
    field.extend(b"junk");
    field.resize(32, 0xFF);
    frame.extend(field);
    let (back, used) = decode(&frame).unwrap();
    assert_eq!(used, 33);
    assert_eq!(back, Message::Loot { target_name: "Keese".to_string() });
}

#[test]
fn a_name_may_fill_its_field() {
    let name = "abcdefghijklmnopqrstuvwxyz012345";
    assert_eq!(name.len(), 32);
    let message = Message::Loot { target_name: name.to_string() };
    let frame = encode(&message);
    assert_eq!(&frame[1..], name.as_bytes());
    assert_eq!(decode(&frame).unwrap().0, message);
}

#[test]
fn a_long_name_is_cut_at_32_bytes() {
    let name = "abcdefghijklmnopqrstuvwxyz0123456789";
    let frame = encode(&Message::Loot { target_name: name.to_string() });
    assert_eq!(frame.len(), 33);
    assert_eq!(&frame[1..], &name.as_bytes()[..32]);
}

#[test]
fn text_with_many_bytes_per_character() {
    let message = Message::Message {
        recipient: "Zélda".to_string(),
        sender: "リンク".to_string(),
        message: "héllo → wörld ✓".to_string(),
    };
    let frame = encode(&message);
    assert_eq!(frame[1] as usize + 256 * frame[2] as usize, "héllo → wörld ✓".len());
    assert_eq!(&frame[3..9], "Zélda".as_bytes());
    assert_eq!(decode(&frame).unwrap().0, message);
}

#[test]
fn a_payload_too_long_for_its_length_field_is_cut() {
    let text = "x".repeat(70000);
    let frame = encode(&Message::Error { error: ErrorCode::Other, message: text });
    assert_eq!(frame.len(), 4 + 65535);
    assert_eq!(&frame[..4], &[7, 0, 0xFF, 0xFF]);
    let (back, used) = decode(&frame).unwrap();
    assert_eq!(used, frame.len());
    assert_eq!(back, Message::Error { error: ErrorCode::Other, message: "x".repeat(65535) });
}

#[test]
fn header_lengths() {
    let expected = [1usize, 67, 3, 1, 33, 33, 1, 4, 2, 37, 48, 7, 1, 37, 5, 1];
    for ty in 0..16u8 {
        assert_eq!(header_len(ty), expected[ty as usize]);
    }
    assert_eq!(header_len(200), 1);
}

#[test]
fn frame_length_adds_the_announced_payload() {
    assert_eq!(frame_len(&[3]), 1);
    assert_eq!(frame_len(&[2, 9, 9]), 3);
    assert_eq!(frame_len(&[7, 0, 0x10, 0x01]), 4 + 0x110);
    assert_eq!(frame_len(&[14, 2, 3, 0xFF, 0xFF]), 5 + 65535);
    let mut header = vec![1u8, 5, 0];
    header.extend([0u8; 64]);
    assert_eq!(frame_len(&header), 72);
}

#[test]
fn error_codes_and_their_bytes() {
    let all = [
        (ErrorCode::Other, 0u8, "Other"),
        (ErrorCode::BadRoom, 1, "BadRoom"),
        (ErrorCode::PlayerExists, 2, "PlayerExists"),
        (ErrorCode::BadMonster, 3, "BadMonster"),
        (ErrorCode::StatError, 4, "StatError"),
        (ErrorCode::NotReady, 5, "NotReady"),
        (ErrorCode::NoTarget, 6, "NoTarget"),
        (ErrorCode::NoFight, 7, "NoFight"),
        (ErrorCode::NoPlayerCombat, 8, "NoPlayerCombat"),
    ];
    for (code, byte, name) in all {
        assert_eq!(code.code(), byte);
        assert_eq!(ErrorCode::from_code(byte), code);
        assert_eq!(code.name(), name);
    }
    assert_eq!(ErrorCode::from_code(9), ErrorCode::Other);
    assert_eq!(ErrorCode::from_code(255), ErrorCode::Other);
}

#[test]
fn an_unknown_error_code_reads_as_other() {
    let (back, _) = decode(&[7, 77, 2, 0, b'n', b'o']).unwrap();
    assert_eq!(back, Message::Error { error: ErrorCode::Other, message: "no".to_string() });
}
