//! What holds of the codec: a message survives the trip through its frame,
//! every frame announces the length it has, and decoding looks at no byte
//! behind the frame.

use vstd::prelude::*;
use vstd::utf8::{decode_utf8, encode_utf8, encode_utf8_decode_utf8, encode_utf8_valid_utf8, valid_utf8};
use crate::codec::{name_at, parsed, spec_decode, spec_encode, tail, texts_valid, u16_at, DecodeError};
use crate::error_code::lemma_code_round_trip;
use crate::frame::{
    announced,
    character_frame,
    clip,
    connection_frame,
    counted,
    error_frame,
    fits,
    game_frame,
    message_frame,
    room_frame,
    spec_frame_len,
    spec_header_len,
    spec_length_at,
    version_frame,
    well_framed,
};
use crate::message::MessageView;
use crate::wire::{
    bits_i16,
    field32,
    from_le16,
    i16_bits,
    le16,
    lemma_field32_round_trip,
    nul_free,
};

verus! {

/// A name that a 32-byte field holds as it is: at most 32 bytes long, none of them zero.
pub open spec fn plain_name(name: Seq<char>) -> bool {
    encode_utf8(name).len() <= 32 && nul_free(encode_utf8(name))
}

/// A text that a frame holds as it is: at most 65535 bytes long.
pub open spec fn plain_text(text: Seq<char>) -> bool {
    fits(encode_utf8(text))
}

/// A message that its frame holds as it is: every name is plain, and every
/// text, description and list of extensions is short enough.
pub open spec fn canonical(m: MessageView) -> bool {
    match m {
        MessageView::Message { recipient, sender, message } => plain_name(recipient) && plain_name(
            sender,
        ) && plain_text(message),
        MessageView::PVPFight { target_name } => plain_name(target_name),
        MessageView::Loot { target_name } => plain_name(target_name),
        MessageView::Error { error, message } => plain_text(message),
        MessageView::Room { room_number, room_name, description } => plain_name(room_name)
            && plain_text(description),
        MessageView::Character { name, description, .. } => plain_name(name) && plain_text(
            description,
        ),
        MessageView::Game { description, .. } => plain_text(description),
        MessageView::Connection { room_number, room_name, description } => plain_name(room_name)
            && plain_text(description),
        MessageView::Version { extensions, .. } => fits(extensions),
        _ => true,
    }
}

/// A plain name comes back out of the field that it was written to.
pub proof fn lemma_name_back(frame: Seq<u8>, at: int, name: Seq<char>)
    requires
        plain_name(name),
        0 <= at,
        at + 32 <= frame.len(),
        frame.subrange(at, at + 32) == field32(encode_utf8(name)),
    ensures
        name_at(frame, at) == encode_utf8(name),
        valid_utf8(name_at(frame, at)),
        decode_utf8(name_at(frame, at)) == name,
{
    lemma_field32_round_trip(encode_utf8(name));
    encode_utf8_valid_utf8(name);
    encode_utf8_decode_utf8(name);
}

/// A text comes back out of the bytes that it was written to.
pub proof fn lemma_text_back(bytes: Seq<u8>, text: Seq<char>)
    requires
        bytes == encode_utf8(text),
    ensures
        valid_utf8(bytes),
        decode_utf8(bytes) == text,
{
    encode_utf8_valid_utf8(text);
    encode_utf8_decode_utf8(text);
}

/// The length field of a counted payload says how long the carried part is.
pub proof fn lemma_counted(payload: Seq<u8>)
    ensures
        counted(payload).len() == 2 + clip(payload).len(),
        clip(payload).len() <= 65535,
        from_le16(counted(payload)[0], counted(payload)[1]) == clip(payload).len(),
        counted(payload).subrange(2, counted(payload).len() as int) == clip(payload),
        fits(payload) ==> clip(payload) == payload,
{
    let n = clip(payload).len() as u16;
    assert(counted(payload)[0] == le16(n)[0]);
    assert(counted(payload)[1] == le16(n)[1]);
    assert(counted(payload).subrange(2, counted(payload).len() as int) =~= clip(payload));
}

/// Every frame that `spec_encode` gives is one whole frame of the type of
/// its message: the length that its header announces is the length that
/// its variable part has.
pub proof fn lemma_encode_well_framed(m: MessageView)
    ensures
        well_framed(spec_encode(m)),
        spec_encode(m)[0] == m.type_byte(),
        announced(spec_encode(m)) == spec_encode(m).len() - spec_header_len(m.type_byte()),
{
    match m {
        MessageView::Message { recipient, sender, message } => {
            lemma_message_framed(encode_utf8(recipient), encode_utf8(sender), encode_utf8(message));
        },
        MessageView::Error { error, message } => {
            lemma_error_framed(error.spec_code(), encode_utf8(message));
        },
        MessageView::Room { room_number, room_name, description } => {
            lemma_room_framed(room_number, encode_utf8(room_name), encode_utf8(description));
        },
        MessageView::Character {
            name,
            flags,
            attack,
            defense,
            regen,
            health,
            gold,
            current_room,
            description,
        } => {
            lemma_character_framed(
                encode_utf8(name),
                flags,
                attack,
                defense,
                regen,
                health,
                gold,
                current_room,
                encode_utf8(description),
            );
        },
        MessageView::Game { initial_points, stat_limit, description } => {
            lemma_game_framed(initial_points, stat_limit, encode_utf8(description));
        },
        MessageView::Connection { room_number, room_name, description } => {
            lemma_connection_framed(room_number, encode_utf8(room_name), encode_utf8(description));
        },
        MessageView::Version { major_rev, minor_rev, extensions } => {
            lemma_version_framed(major_rev, minor_rev, extensions);
        },
        _ => {},
    }
}

/// A MESSAGE frame is one whole frame.
pub proof fn lemma_message_framed(recipient: Seq<u8>, sender: Seq<u8>, text: Seq<u8>)
    ensures
        well_framed(message_frame(recipient, sender, text)),
        message_frame(recipient, sender, text)[0] == 1,
        message_frame(recipient, sender, text).len() == 67 + clip(text).len(),
        announced(message_frame(recipient, sender, text)) == clip(text).len(),
{
    let f = message_frame(recipient, sender, text);
    let n = clip(text).len() as u16;
    assert(f[1] == le16(n)[0]);
    assert(f[2] == le16(n)[1]);
}

/// An ERROR frame is one whole frame.
pub proof fn lemma_error_framed(code: u8, text: Seq<u8>)
    ensures
        well_framed(error_frame(code, text)),
        error_frame(code, text)[0] == 7,
        error_frame(code, text).len() == 4 + clip(text).len(),
        announced(error_frame(code, text)) == clip(text).len(),
{
    let f = error_frame(code, text);
    lemma_counted(text);
    assert(f[2] == counted(text)[0]);
    assert(f[3] == counted(text)[1]);
}

/// A ROOM frame is one whole frame.
pub proof fn lemma_room_framed(number: u16, name: Seq<u8>, description: Seq<u8>)
    ensures
        well_framed(room_frame(number, name, description)),
        room_frame(number, name, description)[0] == 9,
        room_frame(number, name, description).len() == 37 + clip(description).len(),
        announced(room_frame(number, name, description)) == clip(description).len(),
{
    let f = room_frame(number, name, description);
    lemma_counted(description);
    assert(f[35] == counted(description)[0]);
    assert(f[36] == counted(description)[1]);
}

/// A CONNECTION frame is one whole frame.
pub proof fn lemma_connection_framed(number: u16, name: Seq<u8>, description: Seq<u8>)
    ensures
        well_framed(connection_frame(number, name, description)),
        connection_frame(number, name, description)[0] == 13,
        connection_frame(number, name, description).len() == 37 + clip(description).len(),
        announced(connection_frame(number, name, description)) == clip(description).len(),
{
    let f = connection_frame(number, name, description);
    lemma_counted(description);
    assert(f[35] == counted(description)[0]);
    assert(f[36] == counted(description)[1]);
}

/// Where the fields of a CHARACTER frame stand.
pub proof fn lemma_character_fields(
    name: Seq<u8>,
    flags: u8,
    attack: u16,
    defense: u16,
    regen: u16,
    health: i16,
    gold: u16,
    room: u16,
    description: Seq<u8>,
)
    ensures
        ({
            let f = character_frame(
                name,
                flags,
                attack,
                defense,
                regen,
                health,
                gold,
                room,
                description,
            );
            &&& f.len() == 48 + clip(description).len()
            &&& f[0] == 10
            &&& f.subrange(1, 33) == field32(name)
            &&& f[33] == flags
            &&& u16_at(f, 34) == attack
            &&& u16_at(f, 36) == defense
            &&& u16_at(f, 38) == regen
            &&& bits_i16(u16_at(f, 40)) == health
            &&& u16_at(f, 42) == gold
            &&& u16_at(f, 44) == room
            &&& u16_at(f, 46) == clip(description).len()
            &&& f.subrange(48, f.len() as int) == clip(description)
        }),
{
    let f = character_frame(name, flags, attack, defense, regen, health, gold, room, description);
    let head = seq![10u8] + field32(name) + seq![flags];
    let stats = le16(attack) + le16(defense) + le16(regen) + le16(i16_bits(health)) + le16(gold)
        + le16(room);
    let rest = counted(description);
    lemma_counted(description);
    assert(head.len() == 34);
    assert(stats.len() == 12);
    assert(f =~= head + stats + rest);
    assert(f.subrange(0, 34) =~= head);
    assert(f.subrange(34, 46) =~= stats);
    assert(f.subrange(46, f.len() as int) =~= rest);
    assert(f.subrange(1, 33) =~= field32(name)) by {
        assert(head.subrange(1, 33) =~= field32(name));
        assert(f.subrange(1, 33) =~= head.subrange(1, 33));
    }
    assert(f[33] == head[33]);
    assert forall|i: int| 0 <= i < 12 implies f[34 + i] == #[trigger] stats[i] by {
        assert(f.subrange(34, 46)[i] == f[34 + i]);
    }
    assert(stats[0] == le16(attack)[0] && stats[1] == le16(attack)[1]);
    assert(stats[2] == le16(defense)[0] && stats[3] == le16(defense)[1]);
    assert(stats[4] == le16(regen)[0] && stats[5] == le16(regen)[1]);
    assert(stats[6] == le16(i16_bits(health))[0] && stats[7] == le16(i16_bits(health))[1]);
    assert(stats[8] == le16(gold)[0] && stats[9] == le16(gold)[1]);
    assert(stats[10] == le16(room)[0] && stats[11] == le16(room)[1]);
    assert(f[46] == rest[0] && f[47] == rest[1]) by {
        assert(f.subrange(46, f.len() as int)[0] == f[46]);
        assert(f.subrange(46, f.len() as int)[1] == f[47]);
    }
    assert(f.subrange(48, f.len() as int) =~= rest.subrange(2, rest.len() as int));
}

/// A CHARACTER frame is one whole frame.
pub proof fn lemma_character_framed(
    name: Seq<u8>,
    flags: u8,
    attack: u16,
    defense: u16,
    regen: u16,
    health: i16,
    gold: u16,
    room: u16,
    description: Seq<u8>,
)
    ensures
        well_framed(
            character_frame(name, flags, attack, defense, regen, health, gold, room, description),
        ),
        character_frame(name, flags, attack, defense, regen, health, gold, room, description)[0]
            == 10,
        character_frame(name, flags, attack, defense, regen, health, gold, room, description).len()
            == 48 + clip(description).len(),
        announced(
            character_frame(name, flags, attack, defense, regen, health, gold, room, description),
        ) == clip(description).len(),
{
    lemma_character_fields(name, flags, attack, defense, regen, health, gold, room, description);
}

/// A GAME frame is one whole frame.
pub proof fn lemma_game_framed(initial_points: u16, stat_limit: u16, description: Seq<u8>)
    ensures
        well_framed(game_frame(initial_points, stat_limit, description)),
        game_frame(initial_points, stat_limit, description)[0] == 11,
        game_frame(initial_points, stat_limit, description).len() == 7 + clip(description).len(),
        announced(game_frame(initial_points, stat_limit, description)) == clip(description).len(),
{
    let f = game_frame(initial_points, stat_limit, description);
    lemma_counted(description);
    assert(f[5] == counted(description)[0]);
    assert(f[6] == counted(description)[1]);
}

/// A VERSION frame is one whole frame.
pub proof fn lemma_version_framed(major: u8, minor: u8, extensions: Seq<u8>)
    ensures
        well_framed(version_frame(major, minor, extensions)),
        version_frame(major, minor, extensions)[0] == 14,
        version_frame(major, minor, extensions).len() == 5 + clip(extensions).len(),
        announced(version_frame(major, minor, extensions)) == clip(extensions).len(),
{
    let f = version_frame(major, minor, extensions);
    lemma_counted(extensions);
    assert(f[3] == counted(extensions)[0]);
    assert(f[4] == counted(extensions)[1]);
}

/// A MESSAGE survives the trip.
proof fn lemma_round_trip_message(m: MessageView)
    requires
        canonical(m),
        m matches MessageView::Message { recipient, sender, message },
    ensures
        spec_decode(spec_encode(m)) == Ok::<(MessageView, nat), DecodeError>(
            (m, spec_encode(m).len()),
        ),
{
    let f = spec_encode(m);
    lemma_encode_well_framed(m);
    match m {
        MessageView::Message { recipient, sender, message } => {
            let text = encode_utf8(message);
            assert(f.subrange(3, 35) =~= field32(encode_utf8(recipient)));
            assert(f.subrange(35, 67) =~= field32(encode_utf8(sender)));
            assert(tail(f, 67) =~= text);
            lemma_name_back(f, 3, recipient);
            lemma_name_back(f, 35, sender);
            lemma_text_back(tail(f, 67), message);
        },
        _ => {},
    }
}

/// A PVPFIGHT survives the trip.
proof fn lemma_round_trip_pvpfight(m: MessageView)
    requires
        canonical(m),
        m matches MessageView::PVPFight { target_name },
    ensures
        spec_decode(spec_encode(m)) == Ok::<(MessageView, nat), DecodeError>(
            (m, spec_encode(m).len()),
        ),
{
    let f = spec_encode(m);
    lemma_encode_well_framed(m);
    match m {
        MessageView::PVPFight { target_name } => {
            assert(f.subrange(1, 33) =~= field32(encode_utf8(target_name)));
            lemma_name_back(f, 1, target_name);
        },
        _ => {},
    }
}

/// A LOOT survives the trip.
proof fn lemma_round_trip_loot(m: MessageView)
    requires
        canonical(m),
        m matches MessageView::Loot { target_name },
    ensures
        spec_decode(spec_encode(m)) == Ok::<(MessageView, nat), DecodeError>(
            (m, spec_encode(m).len()),
        ),
{
    let f = spec_encode(m);
    lemma_encode_well_framed(m);
    match m {
        MessageView::Loot { target_name } => {
            assert(f.subrange(1, 33) =~= field32(encode_utf8(target_name)));
            lemma_name_back(f, 1, target_name);
        },
        _ => {},
    }
}

/// An ERROR survives the trip.
proof fn lemma_round_trip_error(m: MessageView)
    requires
        canonical(m),
        m matches MessageView::Error { error, message },
    ensures
        spec_decode(spec_encode(m)) == Ok::<(MessageView, nat), DecodeError>(
            (m, spec_encode(m).len()),
        ),
{
    let f = spec_encode(m);
    lemma_encode_well_framed(m);
    match m {
        MessageView::Error { error, message } => {
            lemma_counted(encode_utf8(message));
            assert(tail(f, 4) =~= encode_utf8(message));
            lemma_text_back(tail(f, 4), message);
            lemma_code_round_trip(error);
        },
        _ => {},
    }
}

/// A ROOM survives the trip.
proof fn lemma_round_trip_room(m: MessageView)
    requires
        canonical(m),
        m matches MessageView::Room { room_number, room_name, description },
    ensures
        spec_decode(spec_encode(m)) == Ok::<(MessageView, nat), DecodeError>(
            (m, spec_encode(m).len()),
        ),
{
    let f = spec_encode(m);
    lemma_encode_well_framed(m);
    match m {
        MessageView::Room { room_number, room_name, description } => {
            lemma_counted(encode_utf8(description));
            assert(f[1] == le16(room_number)[0] && f[2] == le16(room_number)[1]);
            assert(f.subrange(3, 35) =~= field32(encode_utf8(room_name)));
            assert(tail(f, 37) =~= encode_utf8(description));
            lemma_name_back(f, 3, room_name);
            lemma_text_back(tail(f, 37), description);
        },
        _ => {},
    }
}

/// A CHARACTER survives the trip.
proof fn lemma_round_trip_character(m: MessageView)
    requires
        canonical(m),
        m matches MessageView::Character { .. },
    ensures
        spec_decode(spec_encode(m)) == Ok::<(MessageView, nat), DecodeError>(
            (m, spec_encode(m).len()),
        ),
{
    let f = spec_encode(m);
    lemma_encode_well_framed(m);
    match m {
        MessageView::Character {
            name,
            flags,
            attack,
            defense,
            regen,
            health,
            gold,
            current_room,
            description,
        } => {
            lemma_character_fields(
                encode_utf8(name),
                flags,
                attack,
                defense,
                regen,
                health,
                gold,
                current_room,
                encode_utf8(description),
            );
            lemma_counted(encode_utf8(description));
            assert(tail(f, 48) == encode_utf8(description));
            lemma_name_back(f, 1, name);
            lemma_text_back(tail(f, 48), description);
        },
        _ => {},
    }
}

/// A GAME survives the trip.
proof fn lemma_round_trip_game(m: MessageView)
    requires
        canonical(m),
        m matches MessageView::Game { initial_points, stat_limit, description },
    ensures
        spec_decode(spec_encode(m)) == Ok::<(MessageView, nat), DecodeError>(
            (m, spec_encode(m).len()),
        ),
{
    let f = spec_encode(m);
    lemma_encode_well_framed(m);
    match m {
        MessageView::Game { initial_points, stat_limit, description } => {
            lemma_counted(encode_utf8(description));
            assert(f[1] == le16(initial_points)[0] && f[2] == le16(initial_points)[1]);
            assert(f[3] == le16(stat_limit)[0] && f[4] == le16(stat_limit)[1]);
            assert(tail(f, 7) =~= encode_utf8(description));
            lemma_text_back(tail(f, 7), description);
        },
        _ => {},
    }
}

/// A CONNECTION survives the trip.
proof fn lemma_round_trip_connection(m: MessageView)
    requires
        canonical(m),
        m matches MessageView::Connection { room_number, room_name, description },
    ensures
        spec_decode(spec_encode(m)) == Ok::<(MessageView, nat), DecodeError>(
            (m, spec_encode(m).len()),
        ),
{
    let f = spec_encode(m);
    lemma_encode_well_framed(m);
    match m {
        MessageView::Connection { room_number, room_name, description } => {
            lemma_counted(encode_utf8(description));
            assert(f[1] == le16(room_number)[0] && f[2] == le16(room_number)[1]);
            assert(f.subrange(3, 35) =~= field32(encode_utf8(room_name)));
            assert(tail(f, 37) =~= encode_utf8(description));
            lemma_name_back(f, 3, room_name);
            lemma_text_back(tail(f, 37), description);
        },
        _ => {},
    }
}

/// A VERSION survives the trip.
proof fn lemma_round_trip_version(m: MessageView)
    requires
        canonical(m),
        m matches MessageView::Version { major_rev, minor_rev, extensions },
    ensures
        spec_decode(spec_encode(m)) == Ok::<(MessageView, nat), DecodeError>(
            (m, spec_encode(m).len()),
        ),
{
    let f = spec_encode(m);
    lemma_encode_well_framed(m);
    match m {
        MessageView::Version { major_rev, minor_rev, extensions } => {
            lemma_counted(extensions);
            assert(tail(f, 5) =~= extensions);
        },
        _ => {},
    }
}

/// Decoding gives back every message whose frame holds it as it is, and
/// takes the whole frame for it.
pub proof fn lemma_round_trip(m: MessageView)
    requires
        canonical(m),
    ensures
        spec_decode(spec_encode(m)) == Ok::<(MessageView, nat), DecodeError>(
            (m, spec_encode(m).len()),
        ),
{
    match m {
        MessageView::Message { .. } => lemma_round_trip_message(m),
        MessageView::ChangeRoom { room_num } => {
            let f = spec_encode(m);
            assert(f[1] == le16(room_num)[0] && f[2] == le16(room_num)[1]);
        },
        MessageView::PVPFight { .. } => lemma_round_trip_pvpfight(m),
        MessageView::Loot { .. } => lemma_round_trip_loot(m),
        MessageView::Error { .. } => lemma_round_trip_error(m),
        MessageView::Room { .. } => lemma_round_trip_room(m),
        MessageView::Character { .. } => lemma_round_trip_character(m),
        MessageView::Game { .. } => lemma_round_trip_game(m),
        MessageView::Connection { .. } => lemma_round_trip_connection(m),
        MessageView::Version { .. } => lemma_round_trip_version(m),
        _ => {},
    }
}

/// Decoding looks at no byte behind the frame: whatever follows a frame,
/// the frame decodes to the same message and the same length.
pub proof fn lemma_decode_stops(bytes: Seq<u8>, more: Seq<u8>)
    requires
        spec_decode(bytes) is Ok,
    ensures
        spec_decode(bytes + more) == spec_decode(bytes),
        spec_decode(bytes.subrange(0, spec_frame_len(bytes) as int)) == spec_decode(bytes),
{
    let n = spec_frame_len(bytes) as int;
    lemma_same_frame(bytes, bytes + more);
    lemma_same_frame(bytes, bytes.subrange(0, n));
}

/// Two byte strings that start with the same whole frame decode alike.
pub proof fn lemma_same_frame(a: Seq<u8>, b: Seq<u8>)
    requires
        spec_decode(a) is Ok,
        b.len() >= spec_frame_len(a),
        forall|i: int| 0 <= i < spec_frame_len(a) ==> a[i] == b[i],
    ensures
        spec_decode(b) == spec_decode(a),
{
    let n = spec_frame_len(a) as int;
    assert(b[0] == a[0]);
    let ty = a[0];
    assert(spec_frame_len(b) == n) by {
        if spec_length_at(ty) is Some {
            let at = spec_length_at(ty)->0;
            assert(a[at] == b[at] && a[at + 1] == b[at + 1]);
        }
    }
    assert forall|from: int, to: int| 0 <= from <= to <= n implies #[trigger] a.subrange(from, to)
        == b.subrange(from, to) by {
        assert(a.subrange(from, to) =~= b.subrange(from, to));
    }
    assert(a.subrange(1, 33) == b.subrange(1, 33) || n < 33);
    assert(a.subrange(3, 35) == b.subrange(3, 35) || n < 35);
    assert(a.subrange(35, 67) == b.subrange(35, 67) || n < 67);
    assert(a.subrange(67, n) == b.subrange(67, n) || n < 67);
    assert(a.subrange(4, n) == b.subrange(4, n) || n < 4);
    assert(a.subrange(37, n) == b.subrange(37, n) || n < 37);
    assert(a.subrange(48, n) == b.subrange(48, n) || n < 48);
    assert(a.subrange(7, n) == b.subrange(7, n) || n < 7);
    assert(a.subrange(5, n) == b.subrange(5, n) || n < 5);
    assert(forall|i: int| 0 <= i < n ==> a[i] == b[i]);
    assert(texts_valid(b) == texts_valid(a));
    assert(parsed(b) == parsed(a));
}

} // verus!
