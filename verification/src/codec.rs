//! Encoding messages to frames and decoding frames to messages.

use vstd::prelude::*;
use vstd::utf8::{decode_utf8, encode_utf8, valid_utf8};
use crate::codec_laws::lemma_encode_well_framed;
use crate::error_code::ErrorCode;
use crate::frame::{
    CONNECTION,
    FIGHT,
    LEAVE,
    LOOT,
    PVPFIGHT,
    ROOM,
    START,
    accept_frame,
    build_accept,
    build_bare,
    build_changeroom,
    build_character,
    build_error,
    build_game,
    build_message,
    build_place,
    build_targeted,
    build_version,
    changeroom_frame,
    character_frame,
    connection_frame,
    error_frame,
    fight_frame,
    frame_len,
    game_frame,
    header_len,
    leave_frame,
    loot_frame,
    message_frame,
    pvpfight_frame,
    room_frame,
    spec_frame_len,
    spec_header_len,
    start_frame,
    version_frame,
    well_framed,
};
use crate::message::{Message, MessageView};
use crate::wire::{bits_i16, from_bits, from_le16, read_field32, read_le16, string_of, until_nul};

verus! {

/// Why a frame could not be decoded.
#[derive(Clone, Copy, Debug, PartialEq, Eq, Structural)]
pub enum DecodeError {
    /// The bytes end before the frame does.
    ShortRead,
    /// The type byte names none of the fourteen frame types.
    BadType,
    /// A name, a text or a description is not well-formed UTF-8.
    BadUtf8,
}

/// The frame of a message.
pub open spec fn spec_encode(m: MessageView) -> Seq<u8> {
    match m {
        MessageView::Message { recipient, sender, message } => message_frame(
            encode_utf8(recipient),
            encode_utf8(sender),
            encode_utf8(message),
        ),
        MessageView::ChangeRoom { room_num } => changeroom_frame(room_num),
        MessageView::Fight => fight_frame(),
        MessageView::PVPFight { target_name } => pvpfight_frame(encode_utf8(target_name)),
        MessageView::Loot { target_name } => loot_frame(encode_utf8(target_name)),
        MessageView::Start => start_frame(),
        MessageView::Error { error, message } => error_frame(
            error.spec_code(),
            encode_utf8(message),
        ),
        MessageView::Accept { accept_type } => accept_frame(accept_type),
        MessageView::Room { room_number, room_name, description } => room_frame(
            room_number,
            encode_utf8(room_name),
            encode_utf8(description),
        ),
        MessageView::Character {
            name,
            flags,
            attack,
            defense,
            regen,
            health,
            gold,
            current_room,
            description,
        } => character_frame(
            encode_utf8(name),
            flags,
            attack,
            defense,
            regen,
            health,
            gold,
            current_room,
            encode_utf8(description),
        ),
        MessageView::Game { initial_points, stat_limit, description } => game_frame(
            initial_points,
            stat_limit,
            encode_utf8(description),
        ),
        MessageView::Leave => leave_frame(),
        MessageView::Connection { room_number, room_name, description } => connection_frame(
            room_number,
            encode_utf8(room_name),
            encode_utf8(description),
        ),
        MessageView::Version { major_rev, minor_rev, extensions } => version_frame(
            major_rev,
            minor_rev,
            extensions,
        ),
    }
}

/// The 16-bit integer at `at`.
pub open spec fn u16_at(bytes: Seq<u8>, at: int) -> u16 {
    from_le16(bytes[at], bytes[at + 1])
}

/// The logical string of the 32-byte field at `at`.
pub open spec fn name_at(bytes: Seq<u8>, at: int) -> Seq<u8> {
    until_nul(bytes.subrange(at, at + 32))
}

/// The variable part of a frame whose header has `fixed` bytes.
pub open spec fn tail(bytes: Seq<u8>, fixed: int) -> Seq<u8> {
    bytes.subrange(fixed, spec_frame_len(bytes) as int)
}

/// Whether every name, text and description of a complete frame is
/// well-formed UTF-8.
pub open spec fn texts_valid(bytes: Seq<u8>) -> bool {
    let ty = bytes[0];
    if ty == 1 {
        valid_utf8(name_at(bytes, 3)) && valid_utf8(name_at(bytes, 35)) && valid_utf8(
            tail(bytes, 67),
        )
    } else if ty == 4 || ty == 5 {
        valid_utf8(name_at(bytes, 1))
    } else if ty == 7 {
        valid_utf8(tail(bytes, 4))
    } else if ty == 9 || ty == 13 {
        valid_utf8(name_at(bytes, 3)) && valid_utf8(tail(bytes, 37))
    } else if ty == 10 {
        valid_utf8(name_at(bytes, 1)) && valid_utf8(tail(bytes, 48))
    } else if ty == 11 {
        valid_utf8(tail(bytes, 7))
    } else {
        true
    }
}

/// The message that a complete frame with well-formed texts holds.
pub open spec fn parsed(bytes: Seq<u8>) -> MessageView {
    let ty = bytes[0];
    if ty == 1 {
        MessageView::Message {
            recipient: decode_utf8(name_at(bytes, 3)),
            sender: decode_utf8(name_at(bytes, 35)),
            message: decode_utf8(tail(bytes, 67)),
        }
    } else if ty == 2 {
        MessageView::ChangeRoom { room_num: u16_at(bytes, 1) }
    } else if ty == 3 {
        MessageView::Fight
    } else if ty == 4 {
        MessageView::PVPFight { target_name: decode_utf8(name_at(bytes, 1)) }
    } else if ty == 5 {
        MessageView::Loot { target_name: decode_utf8(name_at(bytes, 1)) }
    } else if ty == 6 {
        MessageView::Start
    } else if ty == 7 {
        MessageView::Error {
            error: ErrorCode::spec_from_code(bytes[1]),
            message: decode_utf8(tail(bytes, 4)),
        }
    } else if ty == 8 {
        MessageView::Accept { accept_type: bytes[1] }
    } else if ty == 9 {
        MessageView::Room {
            room_number: u16_at(bytes, 1),
            room_name: decode_utf8(name_at(bytes, 3)),
            description: decode_utf8(tail(bytes, 37)),
        }
    } else if ty == 10 {
        MessageView::Character {
            name: decode_utf8(name_at(bytes, 1)),
            flags: bytes[33],
            attack: u16_at(bytes, 34),
            defense: u16_at(bytes, 36),
            regen: u16_at(bytes, 38),
            health: bits_i16(u16_at(bytes, 40)),
            gold: u16_at(bytes, 42),
            current_room: u16_at(bytes, 44),
            description: decode_utf8(tail(bytes, 48)),
        }
    } else if ty == 11 {
        MessageView::Game {
            initial_points: u16_at(bytes, 1),
            stat_limit: u16_at(bytes, 3),
            description: decode_utf8(tail(bytes, 7)),
        }
    } else if ty == 12 {
        MessageView::Leave
    } else if ty == 13 {
        MessageView::Connection {
            room_number: u16_at(bytes, 1),
            room_name: decode_utf8(name_at(bytes, 3)),
            description: decode_utf8(tail(bytes, 37)),
        }
    } else {
        MessageView::Version { major_rev: bytes[1], minor_rev: bytes[2], extensions: tail(bytes, 5) }
    }
}

/// What decoding the start of `bytes` gives: the message of the first frame
/// and the length of that frame, or the reason why there is none. The type
/// byte is judged first, then the length, then the texts.
pub open spec fn spec_decode(bytes: Seq<u8>) -> Result<(MessageView, nat), DecodeError> {
    if bytes.len() == 0 {
        Err(DecodeError::ShortRead)
    } else if bytes[0] == 0 || bytes[0] > 14 {
        Err(DecodeError::BadType)
    } else if bytes.len() < spec_header_len(bytes[0]) || bytes.len() < spec_frame_len(bytes) {
        Err(DecodeError::ShortRead)
    } else if !texts_valid(bytes) {
        Err(DecodeError::BadUtf8)
    } else {
        Ok((parsed(bytes), spec_frame_len(bytes)))
    }
}

/// The frame of a message: one whole frame, whose header announces the
/// length that its payload has.
pub fn encode(m: &Message) -> (out: Vec<u8>)
    ensures
        out@ == spec_encode(m@),
        well_framed(out@),
{
    proof {
        lemma_encode_well_framed(m@);
    }
    match m {
        Message::Message { recipient, sender, message } => build_message(
            recipient.as_str().as_bytes(),
            sender.as_str().as_bytes(),
            message.as_str().as_bytes(),
        ),
        Message::ChangeRoom { room_num } => build_changeroom(*room_num),
        Message::Fight => build_bare(FIGHT),
        Message::PVPFight { target_name } => build_targeted(PVPFIGHT, target_name.as_str().as_bytes()),
        Message::Loot { target_name } => build_targeted(LOOT, target_name.as_str().as_bytes()),
        Message::Start => build_bare(START),
        Message::Error { error, message } => build_error(error.code(), message.as_str().as_bytes()),
        Message::Accept { accept_type } => build_accept(*accept_type),
        Message::Room { room_number, room_name, description } => {
            let out = build_place(
                ROOM,
                *room_number,
                room_name.as_str().as_bytes(),
                description.as_str().as_bytes(),
            );
            assert(out@ =~= spec_encode(m@));
            out
        },
        Message::Character {
            name,
            flags,
            attack,
            defense,
            regen,
            health,
            gold,
            current_room,
            description,
        } => build_character(
            name.as_str().as_bytes(),
            *flags,
            *attack,
            *defense,
            *regen,
            *health,
            *gold,
            *current_room,
            description.as_str().as_bytes(),
        ),
        Message::Game { initial_points, stat_limit, description } => build_game(
            *initial_points,
            *stat_limit,
            description.as_str().as_bytes(),
        ),
        Message::Leave => build_bare(LEAVE),
        Message::Connection { room_number, room_name, description } => {
            let out = build_place(
                CONNECTION,
                *room_number,
                room_name.as_str().as_bytes(),
                description.as_str().as_bytes(),
            );
            assert(out@ =~= spec_encode(m@));
            out
        },
        Message::Version { major_rev, minor_rev, extensions } => build_version(
            *major_rev,
            *minor_rev,
            extensions.as_slice(),
        ),
    }
}

/// The text of the 32-byte field at `at`, if it is well-formed UTF-8.
fn read_name(bytes: &[u8], at: usize) -> (res: Option<String>)
    requires
        at + 32 <= bytes@.len(),
    ensures
        res is Some <==> valid_utf8(name_at(bytes@, at as int)),
        res matches Some(s) ==> s@ == decode_utf8(name_at(bytes@, at as int)),
{
    let raw = read_field32(bytes, at);
    string_of(raw.as_slice())
}

/// The text of the bytes from `from` to `to`, if it is well-formed UTF-8.
fn read_text(bytes: &[u8], from: usize, to: usize) -> (res: Option<String>)
    requires
        from <= to <= bytes@.len(),
    ensures
        res is Some <==> valid_utf8(bytes@.subrange(from as int, to as int)),
        res matches Some(s) ==> s@ == decode_utf8(bytes@.subrange(from as int, to as int)),
{
    string_of(vstd::slice::slice_subrange(bytes, from, to))
}

/// A copy of the bytes from `from` to `to`.
fn read_bytes(bytes: &[u8], from: usize, to: usize) -> (out: Vec<u8>)
    requires
        from <= to <= bytes@.len(),
    ensures
        out@ == bytes@.subrange(from as int, to as int),
{
    let mut out: Vec<u8> = Vec::new();
    crate::wire::push_all(&mut out, vstd::slice::slice_subrange(bytes, from, to));
    assert(out@ =~= bytes@.subrange(from as int, to as int));
    out
}

/// Decodes the frame that `bytes` starts with, and says how long it is.
/// Bytes behind the frame are not looked at.
pub fn decode(bytes: &[u8]) -> (res: Result<(Message, usize), DecodeError>)
    ensures
        match res {
            Ok((m, n)) => spec_decode(bytes@) == Ok::<(MessageView, nat), DecodeError>((m@, n as nat)),
            Err(e) => spec_decode(bytes@) == Err::<(MessageView, nat), DecodeError>(e),
        },
{
    if bytes.len() == 0 {
        return Err(DecodeError::ShortRead);
    }
    let ty = bytes[0];
    if ty == 0 || ty > 14 {
        return Err(DecodeError::BadType);
    }
    if bytes.len() < header_len(ty) {
        return Err(DecodeError::ShortRead);
    }
    let n = frame_len(bytes);
    if bytes.len() < n {
        return Err(DecodeError::ShortRead);
    }
    match ty {
        1 => {
            let recipient = read_name(bytes, 3);
            let sender = read_name(bytes, 35);
            let message = read_text(bytes, 67, n);
            match (recipient, sender, message) {
                (Some(recipient), Some(sender), Some(message)) => Ok(
                    (Message::Message { recipient, sender, message }, n),
                ),
                _ => Err(DecodeError::BadUtf8),
            }
        },
        2 => Ok((Message::ChangeRoom { room_num: read_le16(bytes, 1) }, n)),
        3 => Ok((Message::Fight, n)),
        4 => match read_name(bytes, 1) {
            Some(target_name) => Ok((Message::PVPFight { target_name }, n)),
            None => Err(DecodeError::BadUtf8),
        },
        5 => match read_name(bytes, 1) {
            Some(target_name) => Ok((Message::Loot { target_name }, n)),
            None => Err(DecodeError::BadUtf8),
        },
        6 => Ok((Message::Start, n)),
        7 => match read_text(bytes, 4, n) {
            Some(message) => Ok(
                (Message::Error { error: ErrorCode::from_code(bytes[1]), message }, n),
            ),
            None => Err(DecodeError::BadUtf8),
        },
        8 => Ok((Message::Accept { accept_type: bytes[1] }, n)),
        9 => {
            let room_name = read_name(bytes, 3);
            let description = read_text(bytes, 37, n);
            match (room_name, description) {
                (Some(room_name), Some(description)) => Ok(
                    (Message::Room { room_number: read_le16(bytes, 1), room_name, description }, n),
                ),
                _ => Err(DecodeError::BadUtf8),
            }
        },
        10 => {
            let name = read_name(bytes, 1);
            let description = read_text(bytes, 48, n);
            match (name, description) {
                (Some(name), Some(description)) => Ok(
                    (
                        Message::Character {
                            name,
                            flags: bytes[33],
                            attack: read_le16(bytes, 34),
                            defense: read_le16(bytes, 36),
                            regen: read_le16(bytes, 38),
                            health: from_bits(read_le16(bytes, 40)),
                            gold: read_le16(bytes, 42),
                            current_room: read_le16(bytes, 44),
                            description,
                        },
                        n,
                    ),
                ),
                _ => Err(DecodeError::BadUtf8),
            }
        },
        11 => match read_text(bytes, 7, n) {
            Some(description) => Ok(
                (
                    Message::Game {
                        initial_points: read_le16(bytes, 1),
                        stat_limit: read_le16(bytes, 3),
                        description,
                    },
                    n,
                ),
            ),
            None => Err(DecodeError::BadUtf8),
        },
        12 => Ok((Message::Leave, n)),
        13 => {
            let room_name = read_name(bytes, 3);
            let description = read_text(bytes, 37, n);
            match (room_name, description) {
                (Some(room_name), Some(description)) => Ok(
                    (
                        Message::Connection {
                            room_number: read_le16(bytes, 1),
                            room_name,
                            description,
                        },
                        n,
                    ),
                ),
                _ => Err(DecodeError::BadUtf8),
            }
        },
        _ => Ok(
            (
                Message::Version {
                    major_rev: bytes[1],
                    minor_rev: bytes[2],
                    extensions: read_bytes(bytes, 5, n),
                },
                n,
            ),
        ),
    }
}

} // verus!
