//! What holds of the world at all times, and of every step of the game.

use vstd::prelude::*;
use vstd::utf8::{encode_utf8, is_ascii_chars, is_ascii_chars_encode_utf8};
use crate::action::ActionView;
use crate::error_code::ErrorCode;
use crate::frame::error_frame;
use crate::character::{has_name, on_conn};
use crate::combat::{lemma_monsters_struck_each, lemma_players_struck_each, lemma_players_struck_keeps};
use crate::flags::{spec_is_alive, MONSTER_DEAD};
use crate::invariants::lemma_listed_once;
use crate::message::MessageView;
use crate::monster::{is_named, MonsterView};
use crate::rules::{placed_ok, GameView};
use crate::search::lemma_first;

verus! {

/// In a sound state every character is listed in the room it is in, and in
/// no other room.
pub proof fn lemma_listed_where_it_is(g: GameView, c: int, r: int)
    requires
        g.wf(),
        0 <= c < g.characters.len(),
        0 <= r < g.rooms.len(),
    ensures
        (g.characters[c].current_room as int) < g.rooms.len(),
        g.rooms[r].characters.contains(g.characters[c].name) <==> r
            == g.characters[c].current_room,
{
    if g.rooms[r].characters.contains(g.characters[c].name) {
        lemma_listed_once(g.rooms, g.characters, c, r);
    }
    reveal(placed_ok);
}

/// In a sound state no two characters share a name; so no two active
/// characters do.
pub proof fn lemma_names_unique(g: GameView, a: int, b: int)
    requires
        g.wf(),
        0 <= a < g.characters.len(),
        0 <= b < g.characters.len(),
        a != b,
    ensures
        g.characters[a].name != g.characters[b].name,
{
    reveal(placed_ok);
    if a < b {
        assert(g.characters[a].name != g.characters[b].name);
    } else {
        assert(g.characters[b].name != g.characters[a].name);
    }
}

/// The name of an active character is taken: a CHARACTER event that asks
/// for it, whatever else it asks for, is answered to its author with the
/// ERROR `PlayerExists`, "Character already exists!", and changes nothing.
pub proof fn lemma_taken_name_is_refused(g: GameView, author: u64, message: MessageView, c: int)
    requires
        g.wf(),
        0 <= c < g.characters.len(),
        g.characters[c].active,
        message matches MessageView::Character { name, .. } && name == g.characters[c].name,
    ensures
        g.step(author, message) == g.refuse(
            author,
            ErrorCode::PlayerExists,
            "Character already exists!"@,
        ),
        g.step(author, message).game == g,
        g.step(author, message).actions == seq![
            ActionView::Send {
                to: author,
                bytes: error_frame(2, encode_utf8("Character already exists!"@)),
            },
        ],
        encode_utf8("Character already exists!"@).len() == 25,
{
    reveal(GameView::step);
    let name = g.characters[c].name;
    lemma_first(g.characters, has_name(name));
    let b = g.bearer(name);
    assert(has_name(name)(g.characters[c]));
    if b != c {
        lemma_names_unique(g, b, c);
    }
    lemma_refusal_is_25_bytes();
}

/// The text of the refusal of a taken name is 25 bytes long.
proof fn lemma_refusal_is_25_bytes()
    ensures
        encode_utf8("Character already exists!"@).len() == 25,
{
    let text = "Character already exists!"@;
    reveal_strlit("Character already exists!");
    assert(text.len() == 25);
    assert(is_ascii_chars(text));
    is_ascii_chars_encode_utf8(text);
}

/// What a step can do to the characters: it may add one at the end, and it
/// may change what a character has and where it is, but it removes none and
/// renames none. A character that is added is within the points to spend.
pub proof fn lemma_characters_stay(g: GameView, author: u64, message: MessageView, c: int)
    requires
        0 <= c < g.characters.len(),
    ensures
        g.characters.len() <= g.step(author, message).game.characters.len() <= g.characters.len()
            + 1,
        g.step(author, message).game.characters[c].name == g.characters[c].name,
        g.step(author, message).game.characters.len() > g.characters.len() ==> ({
            let fresh = g.step(author, message).game.characters[g.characters.len() as int];
            fresh.attack + fresh.defense + fresh.regen <= 40 && fresh.current_room == 0
                && fresh.gold == 0 && fresh.conn == author && fresh.active
        }),
{
    reveal(GameView::step);
    let i = g.speaker(author);
    lemma_first(g.characters, on_conn(author));
    match message {
        MessageView::Fight => {
            if i < g.characters.len() {
                let room = g.characters[i].current_room as int;
                lemma_players_struck_each(g, author, room, g.characters.len() as int);
            }
        },
        MessageView::Character { name, .. } => {
            lemma_first(g.characters, has_name(name));
        },
        _ => {},
    }
}

/// What a step can do to a monster: a round of battle strikes it, if it
/// fights in the room of the battle; a looter takes its gold; nothing else
/// touches it.
pub proof fn lemma_monster_after_step(g: GameView, author: u64, message: MessageView, j: int)
    requires
        0 <= j < g.monsters.len(),
    ensures
        g.step(author, message).game.monsters.len() == g.monsters.len(),
        ({
            let before = g.monsters[j];
            let after = g.step(author, message).game.monsters[j];
            ||| after == before
            ||| before.health <= 0 && before.gold > 0 && after == (MonsterView { gold: 0, ..before })
            ||| before.fights() && after == GameView::monster_hit(
                before,
                g.player_pool(
                    g.characters[g.speaker(author)].current_room as int,
                    g.characters.len() as int,
                ),
            )
        }),
{
    reveal(GameView::step);
    let i = g.speaker(author);
    lemma_first(g.characters, on_conn(author));
    match message {
        MessageView::Fight => {
            if i < g.characters.len() {
                let room = g.characters[i].current_room as int;
                lemma_monsters_struck_each(g, author, room, g.monsters.len() as int);
                lemma_players_struck_keeps(g, author, room, g.characters.len() as int);
            }
        },
        MessageView::Loot { target_name } => {
            lemma_first(g.monsters, is_named(target_name));
        },
        _ => {},
    }
}

/// A monster whose health is used up has its ALIVE flag clear.
pub open spec fn flagged_if_dead(m: MonsterView) -> bool {
    m.health <= 0 ==> !spec_is_alive(m.flags)
}

/// Death lasts: a monster whose health is used up has its ALIVE flag
/// cleared by the step in which it dies, is never touched again by a
/// battle, and never fights, so that its attack is in no pool.
pub proof fn lemma_death_lasts(g: GameView, author: u64, message: MessageView, j: int)
    requires
        0 <= j < g.monsters.len(),
    ensures
        g.monsters[j].health > 0 && g.step(author, message).game.monsters[j].health <= 0
            ==> g.step(author, message).game.monsters[j].flags == MONSTER_DEAD && !spec_is_alive(
            g.step(author, message).game.monsters[j].flags,
        ),
        g.monsters[j].health <= 0 ==> g.step(author, message).game.monsters[j].health
            == g.monsters[j].health && g.step(author, message).game.monsters[j].flags
            == g.monsters[j].flags,
        g.monsters[j].health <= 0 ==> forall|room: int| !g.monster_fights(room, g.monsters[j]),
        flagged_if_dead(g.monsters[j]) ==> flagged_if_dead(g.step(author, message).game.monsters[j]),
{
    lemma_monster_after_step(g, author, message, j);
}

/// Every monster whose health is used up has its ALIVE flag clear.
pub open spec fn corpses_flagged(monsters: Seq<MonsterView>) -> bool {
    forall|j: int| 0 <= j < monsters.len() ==> flagged_if_dead(#[trigger] monsters[j])
}

/// Where every monster whose health is used up has its ALIVE flag clear,
/// the same holds after every step.
pub proof fn lemma_corpses_stay_flagged(g: GameView, author: u64, message: MessageView)
    requires
        corpses_flagged(g.monsters),
    ensures
        corpses_flagged(g.step(author, message).game.monsters),
{
    let after = g.step(author, message).game.monsters;
    lemma_monster_count_kept(g, author, message);
    assert forall|j: int| 0 <= j < after.len() implies flagged_if_dead(#[trigger] after[j]) by {
        lemma_death_lasts(g, author, message, j);
        assert(flagged_if_dead(g.monsters[j]));
    }
}

/// No step adds or removes a monster.
pub proof fn lemma_monster_count_kept(g: GameView, author: u64, message: MessageView)
    ensures
        g.step(author, message).game.monsters.len() == g.monsters.len(),
{
    if g.monsters.len() > 0 {
        lemma_monster_after_step(g, author, message, 0);
    } else {
        reveal(GameView::step);
        let i = g.speaker(author);
        lemma_first(g.characters, on_conn(author));
        match message {
            MessageView::Fight => {
                if i < g.characters.len() {
                    let room = g.characters[i].current_room as int;
                    lemma_monsters_struck_each(g, author, room, 0);
                    lemma_players_struck_keeps(g, author, room, g.characters.len() as int);
                }
            },
            MessageView::Loot { target_name } => {
                lemma_first(g.monsters, is_named(target_name));
            },
            _ => {},
        }
    }
}

/// A monster that is dead adds nothing to the pool of the monsters: the
/// pool is the same whatever the attack of that monster is.
pub proof fn lemma_pool_without_dead(g: GameView, j: int, attack: u16, room: int, n: int)
    requires
        0 <= j < g.monsters.len(),
        g.monsters[j].health <= 0,
        n <= g.monsters.len(),
    ensures
        g.monster_pool(room, n) == (GameView {
            monsters: g.monsters.update(j, MonsterView { attack, ..g.monsters[j] }),
            ..g
        }).monster_pool(room, n),
    decreases n,
{
    if n > 0 {
        lemma_pool_without_dead(g, j, attack, room, n - 1);
    }
}

/// The pool of the monsters looks at the first `n` monsters and at the rooms
/// only.
pub proof fn lemma_pool_of_prefix(g: GameView, h: GameView, room: int, n: int)
    requires
        g.rooms == h.rooms,
        n <= g.monsters.len(),
        n <= h.monsters.len(),
        forall|j: int| 0 <= j < n ==> g.monsters[j] == h.monsters[j],
    ensures
        g.monster_pool(room, n) == h.monster_pool(room, n),
    decreases n,
{
    if n > 0 {
        lemma_pool_of_prefix(g, h, room, n - 1);
    }
}

/// What the monsters' turns leave of their pool, turn by turn: the attack
/// of those that fight among the monsters that have had their turn, as they
/// are now, and of those that fight among the others.
pub proof fn lemma_pool_turn_by_turn(g: GameView, author: u64, room: int, n: int)
    requires
        0 <= n <= g.monsters.len(),
    ensures
        g.monsters_struck(author, room, n).monster_pool == (GameView {
            monsters: g.monsters_struck(author, room, n).monsters,
            ..g
        }).monster_pool(room, n) + g.monster_pool(room, g.monsters.len() as int) - g.monster_pool(
            room,
            n,
        ),
    decreases n,
{
    if n > 0 {
        lemma_pool_turn_by_turn(g, author, room, n - 1);
        lemma_monsters_struck_each(g, author, room, n - 1);
        lemma_monsters_struck_each(g, author, room, n);
        let before = g.monsters_struck(author, room, n - 1);
        let after = g.monsters_struck(author, room, n);
        let h0 = GameView { monsters: before.monsters, ..g };
        let h1 = GameView { monsters: after.monsters, ..g };
        lemma_pool_of_prefix(h0, h1, room, n - 1);
        assert(h1.monster_pool(room, n) == h1.monster_pool(room, n - 1) + if h1.monster_fights(
            room,
            h1.monsters[n - 1],
        ) {
            h1.monsters[n - 1].attack as int
        } else {
            0
        });
    }
}

/// The pool that strikes the characters is the attack of the survivors:
/// after all monsters have had their turn, what is left of their pool is
/// the attack of the monsters that still fight in the room. A monster that
/// died in this round is not among them.
pub proof fn lemma_pool_is_the_survivors(g: GameView, author: u64, room: int)
    ensures
        g.monsters_struck(author, room, g.monsters.len() as int).monster_pool == (GameView {
            monsters: g.monsters_struck(author, room, g.monsters.len() as int).monsters,
            ..g
        }).monster_pool(room, g.monsters.len() as int),
{
    lemma_pool_turn_by_turn(g, author, room, g.monsters.len() as int);
}

/// Gold only leaves a monster: no step adds to it, and a step that changes
/// it takes all of it. Once it is 0 it stays 0.
pub proof fn lemma_gold_only_falls(g: GameView, author: u64, message: MessageView, j: int)
    requires
        0 <= j < g.monsters.len(),
    ensures
        g.step(author, message).game.monsters[j].gold <= g.monsters[j].gold,
        g.step(author, message).game.monsters[j].gold != g.monsters[j].gold ==> g.step(
            author,
            message,
        ).game.monsters[j].gold == 0,
        g.monsters[j].gold == 0 ==> g.step(author, message).game.monsters[j].gold == 0,
{
    lemma_monster_after_step(g, author, message, j);
}

/// A LOOT that is not refused empties the monster and fills the looter:
/// the monster's gold becomes 0, and the looter has what both had, or 65535
/// where that is more.
pub proof fn lemma_loot_moves_gold(g: GameView, author: u64, target: Seq<char>)
    requires
        g.speaker(author) < g.characters.len(),
        !g.characters[g.speaker(author)].is_dead(),
        g.beast(target) < g.monsters.len(),
        g.monsters[g.beast(target)].health <= 0,
        g.monsters[g.beast(target)].gold > 0,
    ensures
        g.loot(author, target).game.monsters[g.beast(target)].gold == 0,
        g.loot(author, target).game.characters[g.speaker(author)].gold == GameView::purse(
            g.characters[g.speaker(author)].gold,
            g.monsters[g.beast(target)].gold,
        ),
{
    lemma_first(g.characters, on_conn(author));
    lemma_first(g.monsters, is_named(target));
}

} // verus!
