//! The layout of each of the fourteen frame types, as a sequence of bytes,
//! and the functions that build them.

use vstd::prelude::*;
use crate::wire::{field32, from_le16, i16_bits, le16, push_all, push_field32, push_le16, read_le16, to_bits};

verus! {

/// Type bytes of the fourteen frames.
pub const MESSAGE: u8 = 1;
pub const CHANGEROOM: u8 = 2;
pub const FIGHT: u8 = 3;
pub const PVPFIGHT: u8 = 4;
pub const LOOT: u8 = 5;
pub const START: u8 = 6;
pub const ERROR: u8 = 7;
pub const ACCEPT: u8 = 8;
pub const ROOM: u8 = 9;
pub const CHARACTER: u8 = 10;
pub const GAME: u8 = 11;
pub const LEAVE: u8 = 12;
pub const CONNECTION: u8 = 13;
pub const VERSION: u8 = 14;

/// Whether a 16-bit length field can announce `payload`.
pub open spec fn fits(payload: Seq<u8>) -> bool {
    payload.len() <= 65535
}

/// The part of a payload that a frame carries: all of it if a 16-bit length
/// can announce it, else its first 65535 bytes.
pub open spec fn clip(payload: Seq<u8>) -> Seq<u8> {
    if payload.len() > 65535 {
        payload.subrange(0, 65535)
    } else {
        payload
    }
}

/// A payload behind its 16-bit length.
pub open spec fn counted(payload: Seq<u8>) -> Seq<u8> {
    le16(clip(payload).len() as u16) + clip(payload)
}

/// MESSAGE: the length of the text, the recipient, the sender, the text.
pub open spec fn message_frame(recipient: Seq<u8>, sender: Seq<u8>, text: Seq<u8>) -> Seq<u8> {
    seq![1u8] + le16(clip(text).len() as u16) + field32(recipient) + field32(sender) + clip(text)
}

/// CHANGEROOM: the number of the room.
pub open spec fn changeroom_frame(room: u16) -> Seq<u8> {
    seq![2u8] + le16(room)
}

/// FIGHT: the type byte alone.
pub open spec fn fight_frame() -> Seq<u8> {
    seq![3u8]
}

/// PVPFIGHT: the name of the target.
pub open spec fn pvpfight_frame(target: Seq<u8>) -> Seq<u8> {
    seq![4u8] + field32(target)
}

/// LOOT: the name of the target.
pub open spec fn loot_frame(target: Seq<u8>) -> Seq<u8> {
    seq![5u8] + field32(target)
}

/// START: the type byte alone.
pub open spec fn start_frame() -> Seq<u8> {
    seq![6u8]
}

/// ERROR: the code, then the text behind its length.
pub open spec fn error_frame(code: u8, text: Seq<u8>) -> Seq<u8> {
    seq![7u8, code] + counted(text)
}

/// ACCEPT: the type of the message that is accepted.
pub open spec fn accept_frame(accepted: u8) -> Seq<u8> {
    seq![8u8, accepted]
}

/// ROOM: the number, the name, then the description behind its length.
pub open spec fn room_frame(number: u16, name: Seq<u8>, description: Seq<u8>) -> Seq<u8> {
    seq![9u8] + le16(number) + field32(name) + counted(description)
}

/// CHARACTER: the name, the flags, attack, defense, regen, health, gold
/// and room, then the description behind its length.
pub open spec fn character_frame(
    name: Seq<u8>,
    flags: u8,
    attack: u16,
    defense: u16,
    regen: u16,
    health: i16,
    gold: u16,
    room: u16,
    description: Seq<u8>,
) -> Seq<u8> {
    seq![10u8] + field32(name) + seq![flags] + le16(attack) + le16(defense) + le16(regen) + le16(
        i16_bits(health),
    ) + le16(gold) + le16(room) + counted(description)
}

/// GAME: the points to spend, the cap on a stat, then the description
/// behind its length.
pub open spec fn game_frame(initial_points: u16, stat_limit: u16, description: Seq<u8>) -> Seq<u8> {
    seq![11u8] + le16(initial_points) + le16(stat_limit) + counted(description)
}

/// LEAVE: the type byte alone.
pub open spec fn leave_frame() -> Seq<u8> {
    seq![12u8]
}

/// CONNECTION: the number, the name, then the description behind its length.
pub open spec fn connection_frame(number: u16, name: Seq<u8>, description: Seq<u8>) -> Seq<u8> {
    seq![13u8] + le16(number) + field32(name) + counted(description)
}

/// VERSION: major and minor revision, then the extensions behind their length.
pub open spec fn version_frame(major: u8, minor: u8, extensions: Seq<u8>) -> Seq<u8> {
    seq![14u8, major, minor] + counted(extensions)
}

/// Number of bytes, type byte included, that a frame of type `ty` has before
/// its variable part; 1 for a byte that names no frame type.
pub open spec fn spec_header_len(ty: u8) -> nat {
    if ty == 1 {
        67
    } else if ty == 2 {
        3
    } else if ty == 4 || ty == 5 {
        33
    } else if ty == 7 {
        4
    } else if ty == 8 {
        2
    } else if ty == 9 || ty == 13 {
        37
    } else if ty == 10 {
        48
    } else if ty == 11 {
        7
    } else if ty == 14 {
        5
    } else {
        1
    }
}

/// Where, in a frame of type `ty`, the 16-bit length of the variable part
/// stands; `None` for the types that have no variable part.
pub open spec fn spec_length_at(ty: u8) -> Option<int> {
    if ty == 1 {
        Some(1)
    } else if ty == 7 {
        Some(2)
    } else if ty == 9 || ty == 13 {
        Some(35)
    } else if ty == 10 {
        Some(46)
    } else if ty == 11 {
        Some(5)
    } else if ty == 14 {
        Some(3)
    } else {
        None
    }
}

/// The length that the header of a frame announces for its variable part.
pub open spec fn announced(bytes: Seq<u8>) -> nat
    recommends
        bytes.len() >= 1,
        bytes.len() >= spec_header_len(bytes[0]),
{
    match spec_length_at(bytes[0]) {
        Some(at) => from_le16(bytes[at], bytes[at + 1]) as nat,
        None => 0,
    }
}

/// The full length of the frame that starts `bytes`, as its header states it.
pub open spec fn spec_frame_len(bytes: Seq<u8>) -> nat
    recommends
        bytes.len() >= 1,
        bytes.len() >= spec_header_len(bytes[0]),
{
    spec_header_len(bytes[0]) + announced(bytes)
}

/// `bytes` is exactly one frame: a known type, a complete header, and a
/// variable part as long as the header says.
pub open spec fn well_framed(bytes: Seq<u8>) -> bool {
    &&& bytes.len() >= 1
    &&& 1 <= bytes[0] <= 14
    &&& bytes.len() >= spec_header_len(bytes[0])
    &&& bytes.len() == spec_frame_len(bytes)
}

/// Fixed length of a frame of type `ty`, type byte included, before its variable part.
pub fn header_len(ty: u8) -> (n: usize)
    ensures
        n == spec_header_len(ty),
        1 <= n <= 67,
{
    match ty {
        1 => 67,
        2 => 3,
        4 | 5 => 33,
        7 => 4,
        8 => 2,
        9 | 13 => 37,
        10 => 48,
        11 => 7,
        14 => 5,
        _ => 1,
    }
}

/// Full length of the frame whose header is `header`.
pub fn frame_len(header: &[u8]) -> (n: usize)
    requires
        header@.len() >= 1,
        header@.len() >= spec_header_len(header@[0]),
    ensures
        n == spec_frame_len(header@),
        n >= spec_header_len(header@[0]),
        n <= 67 + 65535,
{
    let ty = header[0];
    let fixed = header_len(ty);
    let at: usize = match ty {
        1 => 1,
        7 => 2,
        9 | 13 => 35,
        10 => 46,
        11 => 5,
        14 => 3,
        _ => { return fixed; },
    };
    let announced = read_le16(header, at);
    fixed + announced as usize
}

/// The part of a payload that a frame carries.
pub fn clipped(payload: &[u8]) -> (part: &[u8])
    ensures
        part@ == clip(payload@),
{
    if payload.len() > 65535 {
        vstd::slice::slice_subrange(payload, 0, 65535)
    } else {
        payload
    }
}

/// Appends a payload behind its 16-bit length.
pub fn push_counted(out: &mut Vec<u8>, payload: &[u8])
    ensures
        final(out)@ == old(out)@ + counted(payload@),
{
    let part = clipped(payload);
    push_le16(out, part.len() as u16);
    push_all(out, part);
    assert(out@ =~= old(out)@ + counted(payload@));
}

/// Builds a MESSAGE frame.
pub fn build_message(recipient: &[u8], sender: &[u8], text: &[u8]) -> (out: Vec<u8>)
    ensures
        out@ == message_frame(recipient@, sender@, text@),
{
    let part = clipped(text);
    let mut out: Vec<u8> = Vec::new();
    out.push(MESSAGE);
    push_le16(&mut out, part.len() as u16);
    push_field32(&mut out, recipient);
    push_field32(&mut out, sender);
    push_all(&mut out, part);
    assert(out@ =~= message_frame(recipient@, sender@, text@));
    out
}

/// Builds a CHANGEROOM frame.
pub fn build_changeroom(room: u16) -> (out: Vec<u8>)
    ensures
        out@ == changeroom_frame(room),
{
    let mut out: Vec<u8> = Vec::new();
    out.push(CHANGEROOM);
    push_le16(&mut out, room);
    assert(out@ =~= changeroom_frame(room));
    out
}

/// Builds a frame that is its type byte alone.
pub fn build_bare(ty: u8) -> (out: Vec<u8>)
    ensures
        out@ == seq![ty],
{
    let mut out: Vec<u8> = Vec::new();
    out.push(ty);
    assert(out@ =~= seq![ty]);
    out
}

/// Builds a frame that names a target: PVPFIGHT or LOOT.
pub fn build_targeted(ty: u8, target: &[u8]) -> (out: Vec<u8>)
    ensures
        out@ == seq![ty] + field32(target@),
{
    let mut out: Vec<u8> = Vec::new();
    out.push(ty);
    push_field32(&mut out, target);
    assert(out@ =~= seq![ty] + field32(target@));
    out
}

/// Builds an ERROR frame.
pub fn build_error(code: u8, text: &[u8]) -> (out: Vec<u8>)
    ensures
        out@ == error_frame(code, text@),
{
    let mut out: Vec<u8> = Vec::new();
    out.push(ERROR);
    out.push(code);
    push_counted(&mut out, text);
    assert(out@ =~= error_frame(code, text@));
    out
}

/// Builds an ACCEPT frame.
pub fn build_accept(accepted: u8) -> (out: Vec<u8>)
    ensures
        out@ == accept_frame(accepted),
{
    let mut out: Vec<u8> = Vec::new();
    out.push(ACCEPT);
    out.push(accepted);
    assert(out@ =~= accept_frame(accepted));
    out
}

/// A ROOM frame, or with `ty` 13 the CONNECTION frame of the same layout.
pub fn build_place(ty: u8, number: u16, name: &[u8], description: &[u8]) -> (out: Vec<u8>)
    ensures
        out@ == seq![ty] + le16(number) + field32(name@) + counted(description@),
{
    let mut out: Vec<u8> = Vec::new();
    out.push(ty);
    push_le16(&mut out, number);
    push_field32(&mut out, name);
    push_counted(&mut out, description);
    assert(out@ =~= seq![ty] + le16(number) + field32(name@) + counted(description@));
    out
}

/// Builds a CHARACTER frame.
pub fn build_character(
    name: &[u8],
    flags: u8,
    attack: u16,
    defense: u16,
    regen: u16,
    health: i16,
    gold: u16,
    room: u16,
    description: &[u8],
) -> (out: Vec<u8>)
    ensures
        out@ == character_frame(
            name@,
            flags,
            attack,
            defense,
            regen,
            health,
            gold,
            room,
            description@,
        ),
{
    let mut out: Vec<u8> = Vec::new();
    out.push(CHARACTER);
    push_field32(&mut out, name);
    out.push(flags);
    push_le16(&mut out, attack);
    push_le16(&mut out, defense);
    push_le16(&mut out, regen);
    push_le16(&mut out, to_bits(health));
    push_le16(&mut out, gold);
    push_le16(&mut out, room);
    push_counted(&mut out, description);
    assert(out@ =~= character_frame(
        name@,
        flags,
        attack,
        defense,
        regen,
        health,
        gold,
        room,
        description@,
    ));
    out
}

/// Builds a GAME frame.
pub fn build_game(initial_points: u16, stat_limit: u16, description: &[u8]) -> (out: Vec<u8>)
    ensures
        out@ == game_frame(initial_points, stat_limit, description@),
{
    let mut out: Vec<u8> = Vec::new();
    out.push(GAME);
    push_le16(&mut out, initial_points);
    push_le16(&mut out, stat_limit);
    push_counted(&mut out, description);
    assert(out@ =~= game_frame(initial_points, stat_limit, description@));
    out
}

/// Builds a VERSION frame.
pub fn build_version(major: u8, minor: u8, extensions: &[u8]) -> (out: Vec<u8>)
    ensures
        out@ == version_frame(major, minor, extensions@),
{
    let mut out: Vec<u8> = Vec::new();
    out.push(VERSION);
    out.push(major);
    out.push(minor);
    push_counted(&mut out, extensions);
    assert(out@ =~= version_frame(major, minor, extensions@));
    out
}

} // verus!
