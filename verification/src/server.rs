//! The game loop's single step: one event in, the next state and the
//! outbound frames out.

use vstd::prelude::*;
use vstd::utf8::encode_utf8;
use crate::action::{action_views, close, no_actions, send, Action, ActionView};
use crate::character::{on_conn, CharacterView};
use crate::combat::{lemma_monsters_struck_each, lemma_players_struck_each, lemma_players_struck_keeps};
use crate::dispatch::send_error;
use crate::frame::{build_game, build_version, error_frame, game_frame, version_frame};
use crate::game::Game;
use crate::invariants::{
    lemma_join_keeps_placed,
    lemma_map_ok_kept,
    lemma_move_keeps_placed,
    lemma_moved_same_map,
    lemma_placed_ok_kept,
    lemma_wf_bounds,
    same_map,
    same_monsters,
    same_places,
};
use crate::message::{Message, MessageView};
use crate::monster::is_named;
use crate::outbound::{all_whole, lemma_step_sends_whole_frames};
use crate::rules::{given_flags, given_health, GameView, Outcome};
use crate::search::lemma_first;

verus! {

impl GameView {
    /// What an event leads to. A frame that only the server sends changes
    /// nothing when it comes in as an event, except ERROR, GAME and VERSION,
    /// which the connection handlers hand in to have them written to their
    /// own connection.
    #[verifier::opaque]
    pub open spec fn step(self, author: u64, message: MessageView) -> Outcome {
        match message {
            MessageView::Message { recipient, sender, message } => self.relay(
                recipient,
                sender,
                message,
            ),
            MessageView::ChangeRoom { room_num } => self.change_room(author, room_num),
            MessageView::Fight => self.fight(author),
            MessageView::Loot { target_name } => self.loot(author, target_name),
            MessageView::Start => self.start(author),
            MessageView::Error { error, message } => self.answer(
                author,
                error_frame(error.spec_code(), encode_utf8(message)),
            ),
            MessageView::Character {
                name,
                flags,
                attack,
                defense,
                regen,
                health,
                gold,
                current_room,
                description,
            } => self.join(
                author,
                name,
                flags,
                attack,
                defense,
                regen,
                health,
                current_room,
                description,
            ),
            MessageView::Game { initial_points, stat_limit, description } => self.answer(
                author,
                game_frame(initial_points, stat_limit, encode_utf8(description)),
            ),
            MessageView::Leave => self.leave(author),
            MessageView::Version { major_rev, minor_rev, extensions } => self.answer(
                author,
                version_frame(major_rev, minor_rev, extensions),
            ),
            _ => self.ignore(),
        }
    }

    /// What the loss of the event queue leads to: every active character
    /// becomes inactive, and its connection is closed.
    pub open spec fn shut_down(self, n: int) -> Outcome
        decreases n,
    {
        if n <= 0 {
            self.ignore()
        } else {
            let before = self.shut_down(n - 1);
            let c = self.characters[n - 1];
            if c.active {
                Outcome {
                    game: GameView {
                        characters: before.game.characters.update(
                            n - 1,
                            CharacterView { active: false, ..c },
                        ),
                        ..before.game
                    },
                    actions: before.actions.push(ActionView::Close { conn: c.conn }),
                }
            } else {
                before
            }
        }
    }
}

/// A round of battle changes neither who anyone is nor where.
pub proof fn lemma_fight_keeps_places(g: GameView, author: u64, room: int)
    ensures
        same_monsters(
            g.monsters,
            g.players_struck(author, room, g.characters.len() as int).monsters,
        ),
        same_places(
            g.characters,
            g.players_struck(author, room, g.characters.len() as int).characters,
        ),
{
    lemma_monsters_struck_each(g, author, room, g.monsters.len() as int);
    lemma_players_struck_each(g, author, room, g.characters.len() as int);
    lemma_players_struck_keeps(g, author, room, g.characters.len() as int);
}

/// CHANGEROOM keeps the state sound.
pub proof fn lemma_change_room_keeps_wf(g: GameView, author: u64, room_num: u16)
    requires
        g.wf(),
    ensures
        g.change_room(author, room_num).game.wf(),
{
    let h = g.change_room(author, room_num).game;
    let i = g.speaker(author);
    lemma_first(g.characters, on_conn(author));
    if i < g.characters.len() && !g.characters[i].is_dead() && g.is_exit(
        g.characters[i].current_room as int,
        room_num,
    ) {
        let changed = CharacterView { current_room: room_num, ..g.characters[i] };
        lemma_move_keeps_placed(g.rooms, g.characters, i, room_num as int, changed);
        lemma_moved_same_map(
            g.rooms,
            g.characters[i].name,
            room_num as int,
            g.characters[i].current_room as int,
        );
        lemma_map_ok_kept(g.rooms, g.monsters, h.rooms, g.monsters);
    }
}

/// FIGHT keeps the state sound.
pub proof fn lemma_fight_keeps_wf(g: GameView, author: u64)
    requires
        g.wf(),
    ensures
        g.fight(author).game.wf(),
{
    let h = g.fight(author).game;
    let i = g.speaker(author);
    lemma_first(g.characters, on_conn(author));
    if i < g.characters.len() && !g.characters[i].is_dead() && g.has_opponent(
        g.characters[i].current_room as int,
    ) {
        lemma_fight_keeps_places(g, author, g.characters[i].current_room as int);
        assert(same_map(g.rooms, g.rooms));
        lemma_map_ok_kept(g.rooms, g.monsters, g.rooms, h.monsters);
        lemma_placed_ok_kept(g.rooms, g.characters, h.characters);
    }
}

/// LOOT keeps the state sound.
pub proof fn lemma_loot_keeps_wf(g: GameView, author: u64, target: Seq<char>)
    requires
        g.wf(),
    ensures
        g.loot(author, target).game.wf(),
{
    let h = g.loot(author, target).game;
    lemma_first(g.characters, on_conn(author));
    lemma_first(g.monsters, is_named(target));
    if h != g {
        assert(same_map(g.rooms, g.rooms));
        assert(same_monsters(g.monsters, h.monsters));
        assert(same_places(g.characters, h.characters));
        lemma_map_ok_kept(g.rooms, g.monsters, g.rooms, h.monsters);
        lemma_placed_ok_kept(g.rooms, g.characters, h.characters);
    }
}

/// START keeps the state sound.
pub proof fn lemma_start_keeps_wf(g: GameView, author: u64)
    requires
        g.wf(),
    ensures
        g.start(author).game.wf(),
{
    let h = g.start(author).game;
    lemma_first(g.characters, on_conn(author));
    if h != g {
        assert(same_places(g.characters, h.characters));
        lemma_placed_ok_kept(g.rooms, g.characters, h.characters);
    }
}

/// LEAVE keeps the state sound.
pub proof fn lemma_leave_keeps_wf(g: GameView, author: u64)
    requires
        g.wf(),
    ensures
        g.leave(author).game.wf(),
{
    let h = g.leave(author).game;
    lemma_first(g.characters, on_conn(author));
    if h != g {
        assert(same_places(g.characters, h.characters));
        lemma_placed_ok_kept(g.rooms, g.characters, h.characters);
    }
}

/// CHARACTER keeps the state sound.
pub proof fn lemma_join_keeps_wf(
    g: GameView,
    author: u64,
    name: Seq<char>,
    flags: u8,
    attack: u16,
    defense: u16,
    regen: u16,
    health: i16,
    current_room: u16,
    description: Seq<char>,
)
    requires
        g.wf(),
    ensures
        g.join(
            author,
            name,
            flags,
            attack,
            defense,
            regen,
            health,
            current_room,
            description,
        ).game.wf(),
{
    let h = g.join(
        author,
        name,
        flags,
        attack,
        defense,
        regen,
        health,
        current_room,
        description,
    ).game;
    let b = g.bearer(name);
    lemma_wf_bounds(g);
    if b < g.characters.len() {
        if !g.characters[b].active && (current_room as int) < g.rooms.len() {
            lemma_first(g.characters, crate::character::has_name(name));
            let back = CharacterView {
                conn: author,
                active: true,
                flags: 0xC8,
                current_room,
                ..g.characters[b]
            };
            lemma_move_keeps_placed(g.rooms, g.characters, b, current_room as int, back);
            lemma_moved_same_map(
                g.rooms,
                back.name,
                current_room as int,
                g.characters[b].current_room as int,
            );
            assert(same_monsters(g.monsters, g.monsters));
            lemma_map_ok_kept(g.rooms, g.monsters, h.rooms, g.monsters);
        }
    } else if crate::rules::affordable(attack, defense, regen) {
        let fresh = CharacterView {
            conn: author,
            active: true,
            name,
            flags: given_flags(flags),
            attack,
            defense,
            regen,
            health: given_health(health),
            gold: 0,
            current_room: 0,
            description,
        };
        lemma_join_keeps_placed(g.rooms, g.characters, fresh);
        lemma_moved_same_map(g.rooms, fresh.name, 0, 0);
        assert(same_monsters(g.monsters, g.monsters));
        lemma_map_ok_kept(g.rooms, g.monsters, h.rooms, g.monsters);
    }
}

/// No event breaks the state: after every step the map is as it was loaded,
/// each character is listed in the room it is in and in no other, and no two
/// characters share a name.
pub proof fn lemma_step_keeps_wf(g: GameView, author: u64, message: MessageView)
    requires
        g.wf(),
    ensures
        g.step(author, message).game.wf(),
{
    reveal(GameView::step);
    match message {
        MessageView::ChangeRoom { room_num } => {
            lemma_change_room_keeps_wf(g, author, room_num);
        },
        MessageView::Fight => {
            lemma_fight_keeps_wf(g, author);
        },
        MessageView::Loot { target_name } => {
            lemma_loot_keeps_wf(g, author, target_name);
        },
        MessageView::Start => {
            lemma_start_keeps_wf(g, author);
        },
        MessageView::Leave => {
            lemma_leave_keeps_wf(g, author);
        },
        MessageView::Character {
            name,
            flags,
            attack,
            defense,
            regen,
            health,
            gold,
            current_room,
            description,
        } => {
            lemma_join_keeps_wf(
                g,
                author,
                name,
                flags,
                attack,
                defense,
                regen,
                health,
                current_room,
                description,
            );
        },
        _ => {},
    }
}

/// Shutting down keeps the state sound, and leaves no character active.
pub proof fn lemma_shut_down(g: GameView, n: int)
    requires
        n <= g.characters.len(),
    ensures
        same_places(g.characters, g.shut_down(n).game.characters),
        g.shut_down(n).game.rooms == g.rooms,
        g.shut_down(n).game.monsters == g.monsters,
        forall|c: int| 0 <= c < n ==> !(#[trigger] g.shut_down(n).game.characters[c]).active,
        forall|c: int|
            n <= c < g.characters.len() ==> (#[trigger] g.shut_down(n).game.characters[c])
                == g.characters[c],
        g.wf() ==> g.shut_down(n).game.wf(),
    decreases n,
{
    if n > 0 {
        lemma_shut_down(g, n - 1);
        let before = g.shut_down(n - 1).game;
        let after = g.shut_down(n).game;
        assert(before.characters[n - 1] == g.characters[n - 1]);
        assert forall|c: int| 0 <= c < n implies !(#[trigger] after.characters[c]).active by {
            if c < n - 1 {
                assert(!before.characters[c].active);
            }
        }
    }
    if g.wf() {
        lemma_placed_ok_kept(g.rooms, g.characters, g.shut_down(n).game.characters);
    }
}

impl Game {
    /// The event queue is lost: every active character becomes inactive,
    /// and its connection is to be closed.
    pub fn shut_down(&mut self) -> (out: Vec<Action>)
        ensures
            final(self)@ == old(self)@.shut_down(old(self)@.characters.len() as int).game,
            action_views(out@) == old(self)@.shut_down(old(self)@.characters.len() as int).actions,
            old(self)@.wf() ==> final(self)@.wf(),
    {
        let ghost g = old(self)@;
        let mut out = no_actions();
        let n = self.characters.len();
        let mut k: usize = 0;
        while k < n
            invariant
                k <= n,
                n == g.characters.len(),
                g == old(self)@,
                self.characters@.len() == n,
                self@.rooms == g.rooms,
                self@.monsters == g.monsters,
                self@.characters == g.shut_down(k as int).game.characters,
                action_views(out@) == g.shut_down(k as int).actions,
            decreases n - k,
        {
            proof {
                lemma_shut_down(g, k as int);
            }
            let ghost was = self@.characters;
            assert(self@.characters[k as int] == g.characters[k as int]);
            if self.characters[k].active {
                self.characters[k].active = false;
                close(&mut out, self.characters[k].conn);
                assert(self@.characters =~= was.update(
                    k as int,
                    CharacterView { active: false, ..g.characters[k as int] },
                ));
            }
            k += 1;
        }
        proof {
            lemma_shut_down(g, n as int);
        }
        out
    }
}

/// Takes one event off the queue: changes the world as the rules say, and
/// returns what is to be written and closed, in order.
pub fn handle_server(game: &mut Game, author: u64, message: Message) -> (actions: Vec<Action>)
    requires
        old(game)@.wf(),
    ensures
        final(game)@.wf(),
        final(game)@ == old(game)@.step(author, message@).game,
        action_views(actions@) == old(game)@.step(author, message@).actions,
        all_whole(action_views(actions@)),
{
    proof {
        reveal(GameView::step);
        lemma_step_keeps_wf(old(game)@, author, message@);
        lemma_step_sends_whole_frames(old(game)@, author, message@);
    }
    let mut out = no_actions();
    match message {
        Message::Message { recipient, sender, message } => game.relay(&recipient, &sender, &message),
        Message::ChangeRoom { room_num } => game.change_room(author, room_num),
        Message::Fight => game.fight(author),
        Message::Loot { target_name } => game.loot(author, &target_name),
        Message::Start => game.start(author),
        Message::Error { error, message } => {
            send_error(&mut out, author, error, message.as_str());
            out
        },
        Message::Character {
            name,
            flags,
            attack,
            defense,
            regen,
            health,
            gold,
            current_room,
            description,
        } => game.join(
            author,
            name,
            flags,
            attack,
            defense,
            regen,
            health,
            current_room,
            description,
        ),
        Message::Game { initial_points, stat_limit, description } => {
            send(
                &mut out,
                author,
                build_game(initial_points, stat_limit, description.as_str().as_bytes()),
            );
            out
        },
        Message::Leave => game.leave(author),
        Message::Version { major_rev, minor_rev, extensions } => {
            send(&mut out, author, build_version(major_rev, minor_rev, extensions.as_slice()));
            out
        },
        _ => out,
    }
}

/// As `handle_server`, for a host that does not know whether its world is
/// sound: the world is checked first, and where it is not sound nothing is
/// done and `None` is returned.
pub fn try_handle_server(game: &mut Game, author: u64, message: Message) -> (res: Option<
    Vec<Action>,
>)
    ensures
        res is Some <==> old(game)@.wf(),
        res matches Some(actions) ==> {
            &&& final(game)@.wf()
            &&& final(game)@ == old(game)@.step(author, message@).game
            &&& action_views(actions@) == old(game)@.step(author, message@).actions
            &&& all_whole(action_views(actions@))
        },
        res is None ==> final(game)@ == old(game)@,
{
    if game.is_sound() {
        Some(handle_server(game, author, message))
    } else {
        None
    }
}

/// A frame could not be written to connection `to`: the connection counts
/// as one that has left. Its character becomes inactive and loses its flags,
/// and the connection is to be closed; the game goes on.
pub fn write_failed(game: &mut Game, to: u64) -> (actions: Vec<Action>)
    ensures
        final(game)@ == old(game)@.leave(to).game,
        action_views(actions@) == old(game)@.leave(to).actions,
        old(game)@.wf() ==> final(game)@.wf(),
{
    proof {
        if game@.wf() {
            lemma_leave_keeps_wf(game@, to);
        }
    }
    game.leave(to)
}

} // verus!
