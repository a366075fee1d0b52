//! The fourteen messages of the protocol.

use vstd::prelude::*;
use crate::error_code::ErrorCode;

verus! {

/// One message of the protocol, as the server holds it once it is decoded.
/// Names are logical strings: what a 32-byte field holds before its first
/// zero byte. Lengths are not kept: a frame announces the length that its
/// payload has.
#[derive(Debug, PartialEq, Eq)]
pub enum Message {
    /// Type 1: text for another player, or narration from the server.
    Message { recipient: String, sender: String, message: String },
    /// Type 2: the player asks to enter another room.
    ChangeRoom { room_num: u16 },
    /// Type 3: the player starts a fight against the monsters of the room.
    Fight,
    /// Type 4: the player attacks another player.
    PVPFight { target_name: String },
    /// Type 5: the player loots a dead monster.
    Loot { target_name: String },
    /// Type 6: the player enters the game.
    Start,
    /// Type 7: the server refuses an action.
    Error { error: ErrorCode, message: String },
    /// Type 8: the server accepts an action that has no other answer.
    Accept { accept_type: u8 },
    /// Type 9: the room that the player is in.
    Room { room_number: u16, room_name: String, description: String },
    /// Type 10: a character or a monster with its stats.
    Character {
        name: String,
        flags: u8,
        attack: u16,
        defense: u16,
        regen: u16,
        health: i16,
        gold: u16,
        current_room: u16,
        description: String,
    },
    /// Type 11: the rules of the game.
    Game { initial_points: u16, stat_limit: u16, description: String },
    /// Type 12: the player leaves.
    Leave,
    /// Type 13: a room that the player's room leads to.
    Connection { room_number: u16, room_name: String, description: String },
    /// Type 14: the version of the protocol.
    Version { major_rev: u8, minor_rev: u8, extensions: Vec<u8> },
}

/// What a message is, as plain values.
pub enum MessageView {
    Message { recipient: Seq<char>, sender: Seq<char>, message: Seq<char> },
    ChangeRoom { room_num: u16 },
    Fight,
    PVPFight { target_name: Seq<char> },
    Loot { target_name: Seq<char> },
    Start,
    Error { error: ErrorCode, message: Seq<char> },
    Accept { accept_type: u8 },
    Room { room_number: u16, room_name: Seq<char>, description: Seq<char> },
    Character {
        name: Seq<char>,
        flags: u8,
        attack: u16,
        defense: u16,
        regen: u16,
        health: i16,
        gold: u16,
        current_room: u16,
        description: Seq<char>,
    },
    Game { initial_points: u16, stat_limit: u16, description: Seq<char> },
    Leave,
    Connection { room_number: u16, room_name: Seq<char>, description: Seq<char> },
    Version { major_rev: u8, minor_rev: u8, extensions: Seq<u8> },
}

impl View for Message {
    type V = MessageView;

    open spec fn view(&self) -> MessageView {
        match *self {
            Message::Message { recipient, sender, message } => MessageView::Message {
                recipient: recipient@,
                sender: sender@,
                message: message@,
            },
            Message::ChangeRoom { room_num } => MessageView::ChangeRoom { room_num },
            Message::Fight => MessageView::Fight,
            Message::PVPFight { target_name } => MessageView::PVPFight { target_name: target_name@ },
            Message::Loot { target_name } => MessageView::Loot { target_name: target_name@ },
            Message::Start => MessageView::Start,
            Message::Error { error, message } => MessageView::Error { error, message: message@ },
            Message::Accept { accept_type } => MessageView::Accept { accept_type },
            Message::Room { room_number, room_name, description } => MessageView::Room {
                room_number,
                room_name: room_name@,
                description: description@,
            },
            Message::Character {
                name,
                flags,
                attack,
                defense,
                regen,
                health,
                gold,
                current_room,
                description,
            } => MessageView::Character {
                name: name@,
                flags,
                attack,
                defense,
                regen,
                health,
                gold,
                current_room,
                description: description@,
            },
            Message::Game { initial_points, stat_limit, description } => MessageView::Game {
                initial_points,
                stat_limit,
                description: description@,
            },
            Message::Leave => MessageView::Leave,
            Message::Connection { room_number, room_name, description } => MessageView::Connection {
                room_number,
                room_name: room_name@,
                description: description@,
            },
            Message::Version { major_rev, minor_rev, extensions } => MessageView::Version {
                major_rev,
                minor_rev,
                extensions: extensions@,
            },
        }
    }
}

/// What a list of messages is, as plain values.
pub open spec fn message_views(v: Seq<Message>) -> Seq<MessageView> {
    v.map_values(|m: Message| m@)
}

impl MessageView {
    /// The type byte of the message.
    pub open spec fn type_byte(self) -> u8 {
        match self {
            MessageView::Message { .. } => 1,
            MessageView::ChangeRoom { .. } => 2,
            MessageView::Fight => 3,
            MessageView::PVPFight { .. } => 4,
            MessageView::Loot { .. } => 5,
            MessageView::Start => 6,
            MessageView::Error { .. } => 7,
            MessageView::Accept { .. } => 8,
            MessageView::Room { .. } => 9,
            MessageView::Character { .. } => 10,
            MessageView::Game { .. } => 11,
            MessageView::Leave => 12,
            MessageView::Connection { .. } => 13,
            MessageView::Version { .. } => 14,
        }
    }
}

impl Clone for Message {
    fn clone(&self) -> (res: Self)
        ensures
            res@ == self@,
    {
        match self {
            Message::Message { recipient, sender, message } => Message::Message {
                recipient: recipient.clone(),
                sender: sender.clone(),
                message: message.clone(),
            },
            Message::ChangeRoom { room_num } => Message::ChangeRoom { room_num: *room_num },
            Message::Fight => Message::Fight,
            Message::PVPFight { target_name } => Message::PVPFight {
                target_name: target_name.clone(),
            },
            Message::Loot { target_name } => Message::Loot { target_name: target_name.clone() },
            Message::Start => Message::Start,
            Message::Error { error, message } => Message::Error {
                error: *error,
                message: message.clone(),
            },
            Message::Accept { accept_type } => Message::Accept { accept_type: *accept_type },
            Message::Room { room_number, room_name, description } => Message::Room {
                room_number: *room_number,
                room_name: room_name.clone(),
                description: description.clone(),
            },
            Message::Character {
                name,
                flags,
                attack,
                defense,
                regen,
                health,
                gold,
                current_room,
                description,
            } => Message::Character {
                name: name.clone(),
                flags: *flags,
                attack: *attack,
                defense: *defense,
                regen: *regen,
                health: *health,
                gold: *gold,
                current_room: *current_room,
                description: description.clone(),
            },
            Message::Game { initial_points, stat_limit, description } => Message::Game {
                initial_points: *initial_points,
                stat_limit: *stat_limit,
                description: description.clone(),
            },
            Message::Leave => Message::Leave,
            Message::Connection { room_number, room_name, description } => Message::Connection {
                room_number: *room_number,
                room_name: room_name.clone(),
                description: description.clone(),
            },
            Message::Version { major_rev, minor_rev, extensions } => Message::Version {
                major_rev: *major_rev,
                minor_rev: *minor_rev,
                extensions: crate::wire::copy_bytes(extensions),
            },
        }
    }
}

impl Message {
    /// The type byte of the message.
    pub fn message_type(&self) -> (ty: u8)
        ensures
            ty == self@.type_byte(),
            1 <= ty <= 14,
    {
        match self {
            Message::Message { .. } => 1,
            Message::ChangeRoom { .. } => 2,
            Message::Fight => 3,
            Message::PVPFight { .. } => 4,
            Message::Loot { .. } => 5,
            Message::Start => 6,
            Message::Error { .. } => 7,
            Message::Accept { .. } => 8,
            Message::Room { .. } => 9,
            Message::Character { .. } => 10,
            Message::Game { .. } => 11,
            Message::Leave => 12,
            Message::Connection { .. } => 13,
            Message::Version { .. } => 14,
        }
    }
}

} // verus!
