//! The world that the game loop owns, and what each event does to it.

use vstd::prelude::*;
use vstd::utf8::encode_utf8;
use crate::action::{action_views, close, no_actions, send, Action, ActionView};
use crate::character::{character_views, find_by_conn, find_by_name, on_conn, Character, CharacterView};
use crate::dispatch::{send_accept, send_character, send_connections, send_error, send_monster, send_room};
use crate::error_code::ErrorCode;
use crate::flags::{PLAYER_ACCEPTED, PLAYER_GONE, PLAYER_STARTED};
use crate::frame::{build_message, message_frame};
use crate::invariants::lemma_wf_bounds;
use crate::monster::{find_monster, monster_views, Monster};
use crate::names::contains_name;
use crate::rules::{narrator, revival_text, GameView};
use crate::search::{first, lemma_first, lemma_first_unique};
use crate::wire::{field32, push_field32};
use crate::world::{move_character, room_views, Room};

verus! {

/// The world: the map, the monsters, and every character accepted so far.
#[derive(Debug, PartialEq, Eq)]
pub struct Game {
    pub rooms: Vec<Room>,
    pub monsters: Vec<Monster>,
    pub characters: Vec<Character>,
}

impl View for Game {
    type V = GameView;

    open spec fn view(&self) -> GameView {
        GameView {
            rooms: room_views(self.rooms@),
            monsters: monster_views(self.monsters@),
            characters: character_views(self.characters@),
        }
    }
}

/// Changing a character in a way that keeps its connection keeps the
/// character that a connection finds.
pub proof fn lemma_speaker_kept(
    characters: Seq<CharacterView>,
    i: int,
    changed: CharacterView,
    author: u64,
)
    requires
        0 <= i < characters.len(),
        changed.conn == characters[i].conn,
    ensures
        first(characters.update(i, changed), on_conn(author)) == first(characters, on_conn(author)),
{
    let p = on_conn(author);
    let k = first(characters, p);
    lemma_first(characters, p);
    let after = characters.update(i, changed);
    assert forall|j: int| 0 <= j < k implies !p(#[trigger] after[j]) by {
        assert(!p(characters[j]));
    }
    if k < characters.len() {
        assert(p(characters[k]));
        assert(p(after[k]));
    }
    lemma_first_unique(after, p, k);
}

/// The sender field of a narration.
pub fn narrator_field() -> (field: Vec<u8>)
    ensures
        field@ == narrator(),
{
    let mut field: Vec<u8> = Vec::new();
    push_field32(&mut field, "Narrator".as_bytes());
    field[30] = 0u8;
    field[31] = 1u8;
    assert(field@ =~= narrator());
    field
}

impl Game {
    /// MESSAGE: relays the text to the character named `recipient`.
    pub fn relay(&self, recipient: &String, sender: &String, text: &String) -> (out: Vec<Action>)
        ensures
            action_views(out@) == self@.relay(recipient@, sender@, text@).actions,
    {
        let mut out = no_actions();
        let i = find_by_name(&self.characters, recipient);
        if i < self.characters.len() {
            let frame = build_message(
                recipient.as_str().as_bytes(),
                sender.as_str().as_bytes(),
                text.as_str().as_bytes(),
            );
            send(&mut out, self.characters[i].conn, frame);
        }
        out
    }

    /// CHANGEROOM: moves the character of `author` to room `room_num`.
    pub fn change_room(&mut self, author: u64, room_num: u16) -> (out: Vec<Action>)
        requires
            old(self)@.wf(),
        ensures
            final(self)@ == old(self)@.change_room(author, room_num).game,
            action_views(out@) == old(self)@.change_room(author, room_num).actions,
    {
        let mut out = no_actions();
        let i = find_by_conn(&self.characters, author);
        if i >= self.characters.len() {
            return out;
        }
        if self.characters[i].is_dead() {
            send_error(&mut out, author, ErrorCode::Other, "Player is dead and cannot change rooms!");
            return out;
        }
        let old_room = self.characters[i].current_room as usize;
        let to = room_num as usize;
        assert(old_room < self.rooms@.len()) by {
            lemma_wf_bounds(self@);
            assert(self@.characters[i as int].current_room == old_room);
        }
        if to >= self.rooms.len() || !contains_name(&self.rooms[old_room].exits, &self.rooms[to].name) {
            send_error(&mut out, author, ErrorCode::BadRoom, "Not a valid room or connection!");
            return out;
        }
        move_character(&mut self.rooms, &self.characters[i], to, old_room);
        self.characters[i].update_room(room_num);
        let ghost next = old(self)@.relocated(i as int, room_num);
        assert(self@.characters =~= next.characters);
        assert(self@ == next);
        proof {
            lemma_speaker_kept(
                old(self)@.characters,
                i as int,
                next.characters[i as int],
                author,
            );
        }
        let _ = send_room(
            &mut out,
            author,
            &self.rooms,
            &self.characters,
            &self.monsters,
            to,
            old_room,
        );
        let _ = send_connections(&mut out, author, &self.rooms, to);
        assert(action_views(out@) =~= old(self)@.change_room(author, room_num).actions);
        out
    }

    /// START: shows the first room to the character of `author` and marks it started.
    pub fn start(&mut self, author: u64) -> (out: Vec<Action>)
        requires
            old(self)@.wf(),
        ensures
            final(self)@ == old(self)@.start(author).game,
            action_views(out@) == old(self)@.start(author).actions,
    {
        let mut out = no_actions();
        let i = find_by_conn(&self.characters, author);
        if i >= self.characters.len() {
            return out;
        }
        proof {
            lemma_wf_bounds(self@);
        }
        let _ = send_room(&mut out, author, &self.rooms, &self.characters, &self.monsters, 0, 0);
        self.characters[i].flags = PLAYER_STARTED;
        assert(self@.characters =~= old(self)@.start(author).game.characters);
        let _ = send_connections(&mut out, author, &self.rooms, 0);
        assert(action_views(out@) =~= old(self)@.start(author).actions);
        out
    }

    /// LEAVE: retires the character of `author` and closes the connection.
    pub fn leave(&mut self, author: u64) -> (out: Vec<Action>)
        ensures
            final(self)@ == old(self)@.leave(author).game,
            action_views(out@) == old(self)@.leave(author).actions,
    {
        let mut out = no_actions();
        let i = find_by_conn(&self.characters, author);
        if i < self.characters.len() {
            self.characters[i].active = false;
            self.characters[i].flags = PLAYER_GONE;
            assert(self@.characters =~= old(self)@.leave(author).game.characters);
        }
        close(&mut out, author);
        assert(action_views(out@) =~= old(self)@.leave(author).actions);
        out
    }

    /// LOOT: gives the gold of the monster named `target` to the character of `author`.
    pub fn loot(&mut self, author: u64, target: &String) -> (out: Vec<Action>)
        ensures
            final(self)@ == old(self)@.loot(author, target@).game,
            action_views(out@) == old(self)@.loot(author, target@).actions,
    {
        let mut out = no_actions();
        let i = find_by_conn(&self.characters, author);
        if i >= self.characters.len() {
            return out;
        }
        if self.characters[i].is_dead() {
            send_error(&mut out, author, ErrorCode::Other, "Player is dead and cannot loot!");
            return out;
        }
        let j = find_monster(&self.monsters, target);
        if j >= self.monsters.len() {
            send_error(&mut out, author, ErrorCode::BadMonster, "Not a valid monster to loot!");
            return out;
        }
        if self.monsters[j].health > 0 {
            send_error(
                &mut out,
                author,
                ErrorCode::BadMonster,
                "Monster is not dead and cannot be looted!",
            );
            return out;
        }
        if self.monsters[j].gold == 0 {
            send_error(&mut out, author, ErrorCode::BadMonster, "Monster has already been looted!");
            return out;
        }
        let gain = self.monsters[j].gold;
        let gold = self.characters[i].gold;
        self.characters[i].gold = if gain > 65535 - gold {
            65535
        } else {
            gold + gain
        };
        self.monsters[j].gold = 0;
        assert(self@.characters =~= old(self)@.loot(author, target@).game.characters);
        assert(self@.monsters =~= old(self)@.loot(author, target@).game.monsters);
        send_character(&mut out, author, &self.characters[i]);
        send_monster(&mut out, author, &self.monsters[j]);
        assert(action_views(out@) =~= old(self)@.loot(author, target@).actions);
        out
    }

    /// CHARACTER for the name of the inactive character `i`: binds it to
    /// `author` and puts it in room `room`.
    fn revive(&mut self, author: u64, i: usize, room: u16) -> (out: Vec<Action>)
        requires
            old(self)@.wf(),
            i < old(self)@.characters.len(),
        ensures
            final(self)@ == old(self)@.revive(author, i as int, room).game,
            action_views(out@) == old(self)@.revive(author, i as int, room).actions,
    {
        let ghost goal = old(self)@.revive(author, i as int, room);
        let mut out = no_actions();
        proof {
            lemma_wf_bounds(self@);
        }
        if room as usize >= self.rooms.len() {
            send_error(&mut out, author, ErrorCode::BadRoom, "Not a valid room or connection!");
            return out;
        }
        let old_room = self.characters[i].current_room as usize;
        move_character(&mut self.rooms, &self.characters[i], room as usize, old_room);
        self.characters[i].active = true;
        self.characters[i].flags = PLAYER_ACCEPTED;
        self.characters[i].update_connection(author);
        self.characters[i].update_room(room);
        assert(self@.characters =~= goal.game.characters);
        assert(self@.rooms == goal.game.rooms);
        assert(self@.rooms.len() == old(self)@.rooms.len());
        assert(self@.rooms[0].name == old(self)@.rooms[0].name);
        send_accept(&mut out, author);
        send_character(&mut out, author, &self.characters[i]);
        let frame = revival_frame(&self.characters[i].name, &self.rooms[0].name);
        send(&mut out, author, frame);
        assert(action_views(out@) =~= goal.actions);
        out
    }

    /// CHARACTER for a name that nobody bears: makes the character, if its
    /// stats are within the points to spend.
    fn create(
        &mut self,
        author: u64,
        name: String,
        flags: u8,
        attack: u16,
        defense: u16,
        regen: u16,
        health: i16,
        description: String,
    ) -> (out: Vec<Action>)
        ensures
            final(self)@ == old(self)@.create(
                author,
                name@,
                flags,
                attack,
                defense,
                regen,
                health,
                description@,
            ).game,
            action_views(out@) == old(self)@.create(
                author,
                name@,
                flags,
                attack,
                defense,
                regen,
                health,
                description@,
            ).actions,
    {
        let ghost goal = old(self)@.create(
            author,
            name@,
            flags,
            attack,
            defense,
            regen,
            health,
            description@,
        );
        let mut out = no_actions();
        if attack as u32 + defense as u32 + regen as u32 > 40 {
            send_error(
                &mut out,
                author,
                ErrorCode::StatError,
                "Total points exceeds initial points",
            );
            return out;
        }
        let character = Character {
            conn: author,
            active: true,
            name,
            flags: if flags == 0 || flags == 0xff {
                PLAYER_ACCEPTED
            } else {
                flags
            },
            attack,
            defense,
            regen,
            health: if health == 0 {
                20
            } else {
                health
            },
            gold: 0,
            current_room: 0,
            description,
        };
        move_character(&mut self.rooms, &character, 0, 0);
        send_accept(&mut out, author);
        send_character(&mut out, author, &character);
        self.characters.push(character);
        assert(self@.characters =~= goal.game.characters);
        assert(action_views(out@) =~= goal.actions);
        out
    }

    /// CHARACTER: accepts a new character, revives an inactive one, or
    /// refuses the name of an active one.
    pub fn join(
        &mut self,
        author: u64,
        name: String,
        flags: u8,
        attack: u16,
        defense: u16,
        regen: u16,
        health: i16,
        current_room: u16,
        description: String,
    ) -> (out: Vec<Action>)
        requires
            old(self)@.wf(),
        ensures
            final(self)@ == old(self)@.join(
                author,
                name@,
                flags,
                attack,
                defense,
                regen,
                health,
                current_room,
                description@,
            ).game,
            action_views(out@) == old(self)@.join(
                author,
                name@,
                flags,
                attack,
                defense,
                regen,
                health,
                current_room,
                description@,
            ).actions,
    {
        let i = find_by_name(&self.characters, &name);
        if i < self.characters.len() {
            if self.characters[i].active {
                let mut out = no_actions();
                send_error(&mut out, author, ErrorCode::PlayerExists, "Character already exists!");
                out
            } else {
                self.revive(author, i, current_room)
            }
        } else {
            self.create(author, name, flags, attack, defense, regen, health, description)
        }
    }
}

/// The MESSAGE frame that tells a revived character what has happened.
fn revival_frame(name: &String, entrance: &String) -> (frame: Vec<u8>)
    ensures
        frame@ == message_frame(
            encode_utf8(name@),
            narrator(),
            encode_utf8(revival_text(entrance@)),
        ),
{
    let temple = String::from_str("Temple Entrance");
    let text = if *entrance == temple {
        "As you regain conciousness, you see a Wallmaster retreating into the darkness above."
    } else {
        "You feel exhasted and groggy, you hear laughing and the sound of wood clacking together. A Skullkid must have dragged you back to the entrance."
    };
    let sender = narrator_field();
    assert(field32(sender@) =~= sender@);
    build_message(name.as_str().as_bytes(), sender.as_slice(), text.as_bytes())
}

} // verus!
