//! Every frame that the game loop sends is one whole frame: the length that
//! its header announces is the length that its payload has.

use vstd::prelude::*;
use vstd::utf8::encode_utf8;
use crate::action::{gather, lemma_gather_all, ActionView};
use crate::character::{has_name, on_conn, CharacterView};
use crate::codec_laws::{
    lemma_character_framed,
    lemma_connection_framed,
    lemma_error_framed,
    lemma_game_framed,
    lemma_message_framed,
    lemma_room_framed,
    lemma_version_framed,
};
use crate::combat::announcement;
use crate::dispatch::{
    alerts,
    connections_shown,
    notice,
    notices,
    room_shown,
    room_sign,
    shown_character,
    shown_exit,
    shown_monster,
};
use crate::error_code::ErrorCode;
use crate::frame::well_framed;
use crate::message::MessageView;
use crate::monster::{is_named, MonsterView};
use crate::names::without;
use crate::rules::{narrator, refusal, revival_text, GameView};
use crate::search::first;
use crate::world::{rooms_named, RoomView};

verus! {

/// The test that an action passes when what it sends is one whole frame.
pub open spec fn whole() -> spec_fn(ActionView) -> bool {
    |a: ActionView|
        match a {
            ActionView::Send { to, bytes } => well_framed(bytes),
            ActionView::Close { conn } => true,
        }
}

/// Every frame among the actions is one whole frame.
pub open spec fn all_whole(actions: Seq<ActionView>) -> bool {
    forall|k: int| 0 <= k < actions.len() ==> whole()(#[trigger] actions[k])
}

/// Whole frames followed by whole frames are whole frames.
pub proof fn lemma_whole_add(a: Seq<ActionView>, b: Seq<ActionView>)
    requires
        all_whole(a),
        all_whole(b),
    ensures
        all_whole(a + b),
{
    assert forall|k: int| 0 <= k < (a + b).len() implies whole()(#[trigger] (a + b)[k]) by {
        if k < a.len() {
            assert((a + b)[k] == a[k]);
        } else {
            assert((a + b)[k] == b[k - a.len()]);
        }
    }
}

/// Whole frames with one more whole frame are whole frames.
pub proof fn lemma_whole_push(a: Seq<ActionView>, x: ActionView)
    requires
        all_whole(a),
        whole()(x),
    ensures
        all_whole(a.push(x)),
{
    assert forall|k: int| 0 <= k < a.push(x).len() implies whole()(#[trigger] a.push(x)[k]) by {
        if k < a.len() {
            assert(a.push(x)[k] == a[k]);
        }
    }
}

/// An ERROR that the server sends is a whole frame.
pub proof fn lemma_refusal_whole(author: u64, code: ErrorCode, text: Seq<char>)
    ensures
        whole()(refusal(author, code, text)),
{
    lemma_error_framed(code.spec_code(), encode_utf8(text));
}

/// A whole frame that goes round a room stays whole.
pub proof fn lemma_notices_whole(
    names: Seq<Seq<char>>,
    frame: Seq<u8>,
    characters: Seq<CharacterView>,
)
    requires
        well_framed(frame),
    ensures
        all_whole(notices(names, frame, characters)),
{
    let each = notice(frame, characters);
    assert forall|i: int, k: int| 0 <= i < names.len() && 0 <= k < each(names[i]).len() implies whole()(
        #[trigger] each(names[i])[k],
    ) by {}
    lemma_gather_all(names, each, whole());
}

/// The characters of a room are shown in whole frames.
pub proof fn lemma_roster_whole(names: Seq<Seq<char>>, characters: Seq<CharacterView>, to: u64)
    ensures
        all_whole(gather(names, shown_character(characters, to))),
{
    let each = shown_character(characters, to);
    assert forall|i: int, k: int| 0 <= i < names.len() && 0 <= k < each(names[i]).len() implies whole()(
        #[trigger] each(names[i])[k],
    ) by {
        let c = characters[first(characters, has_name(names[i]))];
        lemma_character_framed(
            encode_utf8(c.name),
            c.flags,
            c.attack,
            c.defense,
            c.regen,
            c.health,
            c.gold,
            c.current_room,
            encode_utf8(c.description),
        );
    }
    lemma_gather_all(names, each, whole());
}

/// The monsters of a room are shown in whole frames.
pub proof fn lemma_bestiary_whole(names: Seq<Seq<char>>, monsters: Seq<MonsterView>, to: u64)
    ensures
        all_whole(gather(names, shown_monster(monsters, to))),
{
    let each = shown_monster(monsters, to);
    assert forall|i: int, k: int| 0 <= i < names.len() && 0 <= k < each(names[i]).len() implies whole()(
        #[trigger] each(names[i])[k],
    ) by {
        lemma_monster_frame_whole(monsters[first(monsters, is_named(names[i]))]);
    }
    lemma_gather_all(names, each, whole());
}

/// The CHARACTER frame of a monster is a whole frame.
pub proof fn lemma_monster_frame_whole(m: MonsterView)
    ensures
        well_framed(m.frame()),
{
    lemma_character_framed(
        encode_utf8(m.name),
        m.flags,
        m.attack,
        m.defense,
        m.regen,
        m.health,
        m.gold,
        m.current_room,
        encode_utf8(m.description),
    );
}

/// The CHARACTER frame of a character is a whole frame.
pub proof fn lemma_character_frame_whole(c: CharacterView)
    ensures
        well_framed(c.frame()),
{
    lemma_character_framed(
        encode_utf8(c.name),
        c.flags,
        c.attack,
        c.defense,
        c.regen,
        c.health,
        c.gold,
        c.current_room,
        encode_utf8(c.description),
    );
}

/// The exits of a room are shown in whole frames.
pub proof fn lemma_connections_whole(rooms: Seq<RoomView>, room: int, to: u64)
    ensures
        all_whole(connections_shown(rooms, room, to)),
{
    let each = shown_exit(to);
    let exits = rooms_named(rooms, rooms[room].exits);
    assert forall|i: int, k: int| 0 <= i < exits.len() && 0 <= k < each(exits[i]).len() implies whole()(
        #[trigger] each(exits[i])[k],
    ) by {
        lemma_connection_framed(
            exits[i].id,
            encode_utf8(exits[i].name),
            encode_utf8(exits[i].description),
        );
    }
    lemma_gather_all(exits, each, whole());
}

/// A room is shown, and a move is told, in whole frames.
pub proof fn lemma_room_shown_whole(
    rooms: Seq<RoomView>,
    characters: Seq<CharacterView>,
    monsters: Seq<MonsterView>,
    author: u64,
    room: int,
    old_room: int,
)
    ensures
        all_whole(room_shown(rooms, characters, monsters, author, room, old_room)),
{
    let mover = characters[first(characters, on_conn(author))];
    let a1 = seq![ActionView::Send { to: author, bytes: room_sign(rooms, room) }];
    lemma_room_framed(
        (room % 65536) as u16,
        encode_utf8(rooms[room].name),
        encode_utf8(rooms[room].description),
    );
    assert(all_whole(a1));
    lemma_character_frame_whole(mover);
    let n1 = notices(without(rooms[room].characters, mover.name), mover.frame(), characters);
    let n2 = if old_room != room {
        notices(without(rooms[old_room].characters, mover.name), mover.frame(), characters)
    } else {
        Seq::empty()
    };
    lemma_notices_whole(without(rooms[room].characters, mover.name), mover.frame(), characters);
    lemma_notices_whole(without(rooms[old_room].characters, mover.name), mover.frame(), characters);
    lemma_whole_add(n1, n2);
    let a2 = alerts(rooms, mover, characters, room, old_room);
    assert(a2 == n1 + n2);
    let a3 = gather(without(rooms[room].characters, mover.name), shown_character(characters, author));
    lemma_roster_whole(without(rooms[room].characters, mover.name), characters, author);
    let a4 = gather(rooms[room].monsters, shown_monster(monsters, author));
    lemma_bestiary_whole(rooms[room].monsters, monsters, author);
    lemma_whole_add(a1, a2);
    lemma_whole_add(a1 + a2, a3);
    lemma_whole_add(a1 + a2 + a3, a4);
}

/// The monsters' turns send whole frames.
pub proof fn lemma_monsters_struck_whole(g: GameView, author: u64, room: int, n: int)
    requires
        n <= g.monsters.len(),
    ensures
        all_whole(g.monsters_struck(author, room, n).actions),
    decreases n,
{
    if n > 0 {
        lemma_monsters_struck_whole(g, author, room, n - 1);
        let before = g.monsters_struck(author, room, n - 1);
        let m = g.monsters[n - 1];
        if g.monster_fights(room, m) {
            let after = GameView::monster_hit(m, before.player_pool);
            let said = announcement(author, "The players are attacking "@, m.name);
            lemma_message_framed(
                encode_utf8(m.name),
                encode_utf8("Server"@),
                encode_utf8("The players are attacking "@ + m.name + "!"@),
            );
            lemma_whole_push(before.actions, said);
            lemma_monster_frame_whole(after);
            lemma_notices_whole(g.rooms[room].characters, after.frame(), g.characters);
            lemma_whole_add(
                before.actions.push(said),
                notices(g.rooms[room].characters, after.frame(), g.characters),
            );
        }
    }
}

/// The characters' turns send whole frames.
pub proof fn lemma_players_struck_whole(g: GameView, author: u64, room: int, n: int)
    requires
        n <= g.characters.len(),
    ensures
        all_whole(g.players_struck(author, room, n).actions),
    decreases n,
{
    if n > 0 {
        lemma_players_struck_whole(g, author, room, n - 1);
        let before = g.players_struck(author, room, n - 1);
        let c = g.characters[n - 1];
        if g.player_fights(room, c) {
            let after = GameView::player_hit(c, before.monster_pool);
            let said = announcement(author, "The monsters are attacking "@, c.name);
            lemma_message_framed(
                encode_utf8(c.name),
                encode_utf8("Server"@),
                encode_utf8("The monsters are attacking "@ + c.name + "!"@),
            );
            lemma_whole_push(before.actions, said);
            lemma_character_frame_whole(after);
            lemma_notices_whole(g.rooms[room].characters, after.frame(), g.characters);
            lemma_whole_add(
                before.actions.push(said),
                notices(g.rooms[room].characters, after.frame(), g.characters),
            );
        }
    } else {
        lemma_monsters_struck_whole(g, author, room, g.monsters.len() as int);
    }
}

/// CHANGEROOM sends whole frames.
pub proof fn lemma_change_room_whole(g: GameView, author: u64, room_num: u16)
    ensures
        all_whole(g.change_room(author, room_num).actions),
{
    let i = g.speaker(author);
    lemma_refusal_whole(author, ErrorCode::Other, "Player is dead and cannot change rooms!"@);
    lemma_refusal_whole(author, ErrorCode::BadRoom, "Not a valid room or connection!"@);
    if i < g.characters.len() && !g.characters[i].is_dead() && g.is_exit(
        g.characters[i].current_room as int,
        room_num,
    ) {
        let next = g.relocated(i, room_num);
        let old_room = g.characters[i].current_room as int;
        lemma_room_shown_whole(
            next.rooms,
            next.characters,
            next.monsters,
            author,
            room_num as int,
            old_room,
        );
        lemma_connections_whole(next.rooms, room_num as int, author);
        lemma_whole_add(
            room_shown(
                next.rooms,
                next.characters,
                next.monsters,
                author,
                room_num as int,
                old_room,
            ),
            connections_shown(next.rooms, room_num as int, author),
        );
    }
}

/// START sends whole frames.
pub proof fn lemma_start_whole(g: GameView, author: u64)
    ensures
        all_whole(g.start(author).actions),
{
    lemma_room_shown_whole(g.rooms, g.characters, g.monsters, author, 0, 0);
    lemma_connections_whole(g.rooms, 0, author);
    lemma_whole_add(
        room_shown(g.rooms, g.characters, g.monsters, author, 0, 0),
        connections_shown(g.rooms, 0, author),
    );
}

/// LOOT sends whole frames.
pub proof fn lemma_loot_whole(g: GameView, author: u64, target: Seq<char>)
    ensures
        all_whole(g.loot(author, target).actions),
{
    let i = g.speaker(author);
    let j = g.beast(target);
    lemma_refusal_whole(author, ErrorCode::Other, "Player is dead and cannot loot!"@);
    lemma_refusal_whole(author, ErrorCode::BadMonster, "Not a valid monster to loot!"@);
    lemma_refusal_whole(
        author,
        ErrorCode::BadMonster,
        "Monster is not dead and cannot be looted!"@,
    );
    lemma_refusal_whole(author, ErrorCode::BadMonster, "Monster has already been looted!"@);
    let rich = CharacterView {
        gold: GameView::purse(g.characters[i].gold, g.monsters[j].gold),
        ..g.characters[i]
    };
    let poor = MonsterView { gold: 0, ..g.monsters[j] };
    lemma_character_frame_whole(rich);
    lemma_monster_frame_whole(poor);
}

/// FIGHT sends whole frames.
pub proof fn lemma_fight_whole(g: GameView, author: u64)
    ensures
        all_whole(g.fight(author).actions),
{
    let i = g.speaker(author);
    lemma_refusal_whole(author, ErrorCode::Other, "Dead players cannot start battles!"@);
    lemma_refusal_whole(author, ErrorCode::Other, "No monsters in the room to fight!"@);
    lemma_players_struck_whole(
        g,
        author,
        g.characters[i].current_room as int,
        g.characters.len() as int,
    );
}

/// CHARACTER sends whole frames.
pub proof fn lemma_join_whole(
    g: GameView,
    author: u64,
    name: Seq<char>,
    flags: u8,
    attack: u16,
    defense: u16,
    regen: u16,
    health: i16,
    current_room: u16,
    description: Seq<char>,
)
    ensures
        all_whole(
            g.join(
                author,
                name,
                flags,
                attack,
                defense,
                regen,
                health,
                current_room,
                description,
            ).actions,
        ),
{
    let out = g.join(
        author,
        name,
        flags,
        attack,
        defense,
        regen,
        health,
        current_room,
        description,
    );
    lemma_refusal_whole(author, ErrorCode::PlayerExists, "Character already exists!"@);
    lemma_refusal_whole(author, ErrorCode::BadRoom, "Not a valid room or connection!"@);
    lemma_refusal_whole(author, ErrorCode::StatError, "Total points exceeds initial points"@);
    assert forall|k: int| 0 <= k < out.actions.len() implies whole()(#[trigger] out.actions[k]) by {
        match out.actions[k] {
            ActionView::Send { to, bytes } => {
                let i = g.bearer(name);
                if i < g.characters.len() {
                    let back = CharacterView {
                        conn: author,
                        active: true,
                        flags: 0xC8,
                        current_room,
                        ..g.characters[i]
                    };
                    lemma_character_frame_whole(back);
                    lemma_message_framed(
                        encode_utf8(back.name),
                        narrator(),
                        encode_utf8(revival_text(g.rooms[0].name)),
                    );
                } else {
                    let fresh = CharacterView {
                        conn: author,
                        active: true,
                        name,
                        flags: crate::rules::given_flags(flags),
                        attack,
                        defense,
                        regen,
                        health: crate::rules::given_health(health),
                        gold: 0,
                        current_room: 0,
                        description,
                    };
                    lemma_character_frame_whole(fresh);
                }
            },
            _ => {},
        }
    }
}

/// Length self-consistency: whatever the event, every frame that the step
/// sends is one whole frame, whose announced length is that of its payload.
pub proof fn lemma_step_sends_whole_frames(g: GameView, author: u64, message: MessageView)
    ensures
        all_whole(g.step(author, message).actions),
{
    reveal(GameView::step);
    match message {
        MessageView::Message { recipient, sender, message } => {
            lemma_message_framed(
                encode_utf8(recipient),
                encode_utf8(sender),
                encode_utf8(message),
            );
        },
        MessageView::ChangeRoom { room_num } => {
            lemma_change_room_whole(g, author, room_num);
        },
        MessageView::Fight => {
            lemma_fight_whole(g, author);
        },
        MessageView::Loot { target_name } => {
            lemma_loot_whole(g, author, target_name);
        },
        MessageView::Start => {
            lemma_start_whole(g, author);
        },
        MessageView::Error { error, message } => {
            lemma_error_framed(error.spec_code(), encode_utf8(message));
        },
        MessageView::Character {
            name,
            flags,
            attack,
            defense,
            regen,
            health,
            gold,
            current_room,
            description,
        } => {
            lemma_join_whole(
                g,
                author,
                name,
                flags,
                attack,
                defense,
                regen,
                health,
                current_room,
                description,
            );
        },
        MessageView::Game { initial_points, stat_limit, description } => {
            lemma_game_framed(initial_points, stat_limit, encode_utf8(description));
        },
        MessageView::Version { major_rev, minor_rev, extensions } => {
            lemma_version_framed(major_rev, minor_rev, extensions);
        },
        _ => {},
    }
}

} // verus!
