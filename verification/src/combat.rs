//! A round of battle between the characters and the monsters of a room.

use vstd::prelude::*;
use vstd::utf8::encode_utf8;
use crate::action::{action_views, no_actions, send, Action, ActionView};
use crate::character::{character_views, find_by_conn, Character, CharacterView};
use crate::dispatch::{notices, send_error, send_monster_update_to_room, send_player_update_to_room};
use crate::error_code::ErrorCode;
use crate::flags::{MONSTER_DEAD, PLAYER_DEAD};
use crate::frame::{build_message, message_frame};
use crate::game::Game;
use crate::monster::{monster_views, Monster, MonsterView};
use crate::names::contains_name;
use crate::rules::{GameView, Outcome};
use crate::world::{room_views, Room};

verus! {

/// `x`, or the nearest value that a signed 16-bit integer can hold.
pub open spec fn clamp_i16(x: int) -> i16 {
    if x < -32768 {
        -32768i16
    } else if x > 32767 {
        32767i16
    } else {
        x as i16
    }
}

/// The damage that a pool of attack does against a defense.
pub open spec fn damage(pool: int, defense: u16) -> int {
    if pool > defense {
        pool - defense
    } else {
        0
    }
}

/// The health of a combatant after it was struck by a pool of attack: the
/// damage is taken off, then a tenth of its regen, rounded down, is added.
pub open spec fn struck(health: i16, defense: u16, regen: u16, pool: int) -> i16 {
    clamp_i16(health - damage(pool, defense) + regen / 10)
}

/// The MESSAGE frame by which the server tells `to` who is being attacked.
pub open spec fn announcement(to: u64, opening: Seq<char>, target: Seq<char>) -> ActionView {
    ActionView::Send {
        to,
        bytes: message_frame(
            encode_utf8(target),
            encode_utf8("Server"@),
            encode_utf8(opening + target + "!"@),
        ),
    }
}

/// The state of a round of battle.
pub struct Battle {
    pub monsters: Seq<MonsterView>,
    pub characters: Seq<CharacterView>,
    /// Attack of the characters that fight and have not died in this round.
    pub player_pool: int,
    /// Attack of the monsters that fight and have not died in this round.
    pub monster_pool: int,
    pub actions: Seq<ActionView>,
}

impl GameView {
    /// Whether the character fights in a battle in room `room`.
    pub open spec fn player_fights(self, room: int, c: CharacterView) -> bool {
        self.rooms[room].characters.contains(c.name) && c.fights()
    }

    /// Whether the monster fights in a battle in room `room`.
    pub open spec fn monster_fights(self, room: int, m: MonsterView) -> bool {
        self.rooms[room].monsters.contains(m.name) && m.fights()
    }

    /// Attack of those of the first `n` characters that fight in room `room`.
    pub open spec fn player_pool(self, room: int, n: int) -> int
        decreases n,
    {
        if n <= 0 {
            0
        } else {
            self.player_pool(room, n - 1) + if self.player_fights(room, self.characters[n - 1]) {
                self.characters[n - 1].attack as int
            } else {
                0
            }
        }
    }

    /// Attack of those of the first `n` monsters that fight in room `room`.
    pub open spec fn monster_pool(self, room: int, n: int) -> int
        decreases n,
    {
        if n <= 0 {
            0
        } else {
            self.monster_pool(room, n - 1) + if self.monster_fights(room, self.monsters[n - 1]) {
                self.monsters[n - 1].attack as int
            } else {
                0
            }
        }
    }

    /// Whether any monster fights in room `room`.
    pub open spec fn has_opponent(self, room: int) -> bool {
        exists|j: int|
            0 <= j < self.monsters.len() && self.monster_fights(room, #[trigger] self.monsters[j])
    }

    /// A monster after the characters have struck it: a monster whose health
    /// is used up gets the flags of a dead monster.
    pub open spec fn monster_hit(m: MonsterView, pool: int) -> MonsterView {
        let health = struck(m.health, m.defense, m.regen, pool);
        MonsterView { health, flags: if health <= 0 { MONSTER_DEAD } else { m.flags }, ..m }
    }

    /// A character after the monsters have struck it: a character whose
    /// health is used up gets the flags of a dead player.
    pub open spec fn player_hit(c: CharacterView, pool: int) -> CharacterView {
        let health = struck(c.health, c.defense, c.regen, pool);
        CharacterView { health, flags: if health <= 0 { PLAYER_DEAD } else { c.flags }, ..c }
    }

    /// The round after the first `n` monsters had their turn. Each monster
    /// that fights is announced to `author`, struck by the pool of the
    /// characters, and shown to every active character of the room; the
    /// attack of one that dies leaves the pool of the monsters.
    pub open spec fn monsters_struck(self, author: u64, room: int, n: int) -> Battle
        decreases n,
    {
        if n <= 0 {
            Battle {
                monsters: self.monsters,
                characters: self.characters,
                player_pool: self.player_pool(room, self.characters.len() as int),
                monster_pool: self.monster_pool(room, self.monsters.len() as int),
                actions: Seq::empty(),
            }
        } else {
            let before = self.monsters_struck(author, room, n - 1);
            let m = self.monsters[n - 1];
            if !self.monster_fights(room, m) {
                before
            } else {
                let after = Self::monster_hit(m, before.player_pool);
                Battle {
                    monsters: before.monsters.update(n - 1, after),
                    monster_pool: if after.health <= 0 {
                        before.monster_pool - m.attack
                    } else {
                        before.monster_pool
                    },
                    actions: before.actions.push(
                        announcement(author, "The players are attacking "@, m.name),
                    ) + notices(self.rooms[room].characters, after.frame(), self.characters),
                    ..before
                }
            }
        }
    }

    /// The round after all monsters and the first `n` characters had their
    /// turn. Each character that fights is announced to `author`, struck by
    /// what is left of the pool of the monsters, and shown to every active
    /// character of the room.
    pub open spec fn players_struck(self, author: u64, room: int, n: int) -> Battle
        decreases n,
    {
        if n <= 0 {
            self.monsters_struck(author, room, self.monsters.len() as int)
        } else {
            let before = self.players_struck(author, room, n - 1);
            let c = self.characters[n - 1];
            if !self.player_fights(room, c) {
                before
            } else {
                let after = Self::player_hit(c, before.monster_pool);
                Battle {
                    characters: before.characters.update(n - 1, after),
                    player_pool: if after.health <= 0 {
                        before.player_pool - c.attack
                    } else {
                        before.player_pool
                    },
                    actions: before.actions.push(
                        announcement(author, "The monsters are attacking "@, c.name),
                    ) + notices(self.rooms[room].characters, after.frame(), self.characters),
                    ..before
                }
            }
        }
    }

    /// FIGHT: a living character starts a round of battle in its room, if a
    /// monster there fights.
    pub open spec fn fight(self, author: u64) -> Outcome {
        let i = self.speaker(author);
        if i >= self.characters.len() {
            self.ignore()
        } else if self.characters[i].is_dead() {
            self.refuse(author, ErrorCode::Other, "Dead players cannot start battles!"@)
        } else if !self.has_opponent(self.characters[i].current_room as int) {
            self.refuse(author, ErrorCode::Other, "No monsters in the room to fight!"@)
        } else {
            let end = self.players_struck(
                author,
                self.characters[i].current_room as int,
                self.characters.len() as int,
            );
            Outcome {
                game: GameView { monsters: end.monsters, characters: end.characters, ..self },
                actions: end.actions,
            }
        }
    }
}

/// The monsters' turns leave the characters and their pool as they were.
pub proof fn lemma_monsters_struck_keeps(g: GameView, author: u64, room: int, n: int)
    requires
        n <= g.monsters.len(),
    ensures
        g.monsters_struck(author, room, n).characters == g.characters,
        g.monsters_struck(author, room, n).player_pool == g.player_pool(
            room,
            g.characters.len() as int,
        ),
        g.monsters_struck(author, room, n).monsters.len() == g.monsters.len(),
    decreases n,
{
    if n > 0 {
        lemma_monsters_struck_keeps(g, author, room, n - 1);
    }
}

/// The characters' turns leave the monsters and their pool as they were.
pub proof fn lemma_players_struck_keeps(g: GameView, author: u64, room: int, n: int)
    requires
        n <= g.characters.len(),
    ensures
        g.players_struck(author, room, n).monsters == g.monsters_struck(
            author,
            room,
            g.monsters.len() as int,
        ).monsters,
        g.players_struck(author, room, n).monster_pool == g.monsters_struck(
            author,
            room,
            g.monsters.len() as int,
        ).monster_pool,
        g.players_struck(author, room, n).characters.len() == g.characters.len(),
    decreases n,
{
    if n > 0 {
        lemma_players_struck_keeps(g, author, room, n - 1);
    } else {
        lemma_monsters_struck_keeps(g, author, room, g.monsters.len() as int);
    }
}

/// What the monsters' turns do to each monster: one that fights and has had
/// its turn was struck by the pool of the characters, and every other is as
/// it was.
pub proof fn lemma_monsters_struck_each(g: GameView, author: u64, room: int, n: int)
    requires
        n <= g.monsters.len(),
    ensures
        g.monsters_struck(author, room, n).monsters.len() == g.monsters.len(),
        forall|j: int|
            0 <= j < g.monsters.len() ==> #[trigger] g.monsters_struck(author, room, n).monsters[j]
                == if j < n && g.monster_fights(room, g.monsters[j]) {
                GameView::monster_hit(g.monsters[j], g.player_pool(room, g.characters.len() as int))
            } else {
                g.monsters[j]
            },
    decreases n,
{
    if n > 0 {
        lemma_monsters_struck_each(g, author, room, n - 1);
        lemma_monsters_struck_keeps(g, author, room, n - 1);
    }
}

/// What the characters' turns do to each character: one that fights and has
/// had its turn was struck by what the monsters' turns left of the pool of
/// the monsters, and every other is as it was.
pub proof fn lemma_players_struck_each(g: GameView, author: u64, room: int, n: int)
    requires
        n <= g.characters.len(),
    ensures
        g.players_struck(author, room, n).characters.len() == g.characters.len(),
        forall|c: int|
            0 <= c < g.characters.len() ==> #[trigger] g.players_struck(author, room, n).characters[c]
                == if c < n && g.player_fights(room, g.characters[c]) {
                GameView::player_hit(
                    g.characters[c],
                    g.monsters_struck(author, room, g.monsters.len() as int).monster_pool,
                )
            } else {
                g.characters[c]
            },
    decreases n,
{
    lemma_monsters_struck_keeps(g, author, room, g.monsters.len() as int);
    if n > 0 {
        lemma_players_struck_each(g, author, room, n - 1);
        lemma_players_struck_keeps(g, author, room, n - 1);
    }
}

/// The health of a combatant after it was struck by a pool of attack.
pub fn strike(health: i16, defense: u16, regen: u16, pool: i128) -> (after: i16)
    ensures
        after == struck(health, defense, regen, pool as int),
{
    let hurt: i128 = if pool > defense as i128 {
        pool - defense as i128
    } else {
        0
    };
    if hurt > 100000 {
        -32768
    } else {
        let x: i64 = health as i64 - hurt as i64 + (regen / 10) as i64;
        if x < -32768 {
            -32768
        } else if x > 32767 {
            32767
        } else {
            x as i16
        }
    }
}

/// Queues, for `author`, the MESSAGE frame that says who is being attacked.
fn announce(out: &mut Vec<Action>, author: u64, opening: &str, target: &String)
    ensures
        action_views(final(out)@) == action_views(old(out)@).push(
            announcement(author, opening@, target@),
        ),
{
    let mut text = String::from_str(opening);
    text.append(target.as_str());
    text.append("!");
    let frame = build_message(
        target.as_str().as_bytes(),
        "Server".as_bytes(),
        text.as_str().as_bytes(),
    );
    send(out, author, frame);
}

/// A copy of the characters.
pub fn clone_characters(characters: &Vec<Character>) -> (out: Vec<Character>)
    ensures
        character_views(out@) == character_views(characters@),
{
    let mut out: Vec<Character> = Vec::new();
    let mut i: usize = 0;
    while i < characters.len()
        invariant
            i <= characters@.len(),
            out@.len() == i,
            forall|j: int| 0 <= j < i ==> out@[j]@ == characters@[j]@,
        decreases characters@.len() - i,
    {
        out.push(characters[i].clone());
        i += 1;
    }
    assert(character_views(out@) =~= character_views(characters@));
    out
}

impl Game {
    /// Whether any monster fights in room `room`.
    fn has_opponent(&self, room: usize) -> (any: bool)
        requires
            room < self.rooms@.len(),
        ensures
            any == self@.has_opponent(room as int),
    {
        let mut j: usize = 0;
        while j < self.monsters.len()
            invariant
                j <= self.monsters@.len(),
                room < self.rooms@.len(),
                forall|k: int| 0 <= k < j ==> !self@.monster_fights(room as int, #[trigger] self@.monsters[k]),
            decreases self.monsters@.len() - j,
        {
            if contains_name(&self.rooms[room].monsters, &self.monsters[j].name)
                && self.monsters[j].fights() {
                assert(self@.monster_fights(room as int, self@.monsters[j as int]));
                return true;
            }
            j += 1;
        }
        false
    }

    /// Attack of the characters that fight in room `room`.
    fn pool_of_players(&self, room: usize) -> (pool: i128)
        requires
            room < self.rooms@.len(),
        ensures
            pool == self@.player_pool(room as int, self@.characters.len() as int),
            0 <= pool <= self@.characters.len() * 65535,
    {
        let mut pool: i128 = 0;
        let mut k: usize = 0;
        while k < self.characters.len()
            invariant
                k <= self.characters@.len(),
                room < self.rooms@.len(),
                pool == self@.player_pool(room as int, k as int),
                0 <= pool <= k * 65535,
            decreases self.characters@.len() - k,
        {
            if contains_name(&self.rooms[room].characters, &self.characters[k].name)
                && self.characters[k].fights() {
                pool = pool + self.characters[k].attack as i128;
            }
            k += 1;
        }
        pool
    }

    /// Attack of the monsters that fight in room `room`.
    fn pool_of_monsters(&self, room: usize) -> (pool: i128)
        requires
            room < self.rooms@.len(),
        ensures
            pool == self@.monster_pool(room as int, self@.monsters.len() as int),
            0 <= pool <= self@.monsters.len() * 65535,
    {
        let mut pool: i128 = 0;
        let mut k: usize = 0;
        while k < self.monsters.len()
            invariant
                k <= self.monsters@.len(),
                room < self.rooms@.len(),
                pool == self@.monster_pool(room as int, k as int),
                0 <= pool <= k * 65535,
            decreases self.monsters@.len() - k,
        {
            if contains_name(&self.rooms[room].monsters, &self.monsters[k].name)
                && self.monsters[k].fights() {
                pool = pool + self.monsters[k].attack as i128;
            }
            k += 1;
        }
        pool
    }

    /// FIGHT: the character of `author` starts a round of battle in its room.
    pub fn fight(&mut self, author: u64) -> (out: Vec<Action>)
        requires
            old(self)@.wf(),
        ensures
            final(self)@ == old(self)@.fight(author).game,
            action_views(out@) == old(self)@.fight(author).actions,
    {
        let ghost g = old(self)@;
        let mut out = no_actions();
        let i = find_by_conn(&self.characters, author);
        if i >= self.characters.len() {
            return out;
        }
        if self.characters[i].is_dead() {
            send_error(&mut out, author, ErrorCode::Other, "Dead players cannot start battles!");
            return out;
        }
        let room = self.characters[i].current_room as usize;
        assert(room < self.rooms@.len()) by {
            crate::invariants::lemma_wf_bounds(g);
            assert(g.characters[i as int].current_room == room);
        }
        if !self.has_opponent(room) {
            send_error(&mut out, author, ErrorCode::Other, "No monsters in the room to fight!");
            return out;
        }
        let player_pool = self.pool_of_players(room);
        let monster_pool = self.pool_of_monsters(room);
        let bystanders = clone_characters(&self.characters);
        let pools = monsters_turn(
            &mut self.monsters,
            &self.rooms,
            &bystanders,
            &mut out,
            author,
            room,
            player_pool,
            monster_pool,
            Ghost(g),
        );
        proof {
            lemma_monsters_struck_keeps(g, author, room as int, g.monsters.len() as int);
            lemma_players_struck_keeps(g, author, room as int, g.characters.len() as int);
        }
        let _ = players_turn(
            &mut self.characters,
            &self.rooms,
            &bystanders,
            &mut out,
            author,
            room,
            player_pool,
            pools,
            Ghost(g),
        );
        out
    }
}

/// The monsters' part of a round: every monster has its turn.
fn monsters_turn(
    monsters: &mut Vec<Monster>,
    rooms: &Vec<Room>,
    bystanders: &Vec<Character>,
    out: &mut Vec<Action>,
    author: u64,
    room: usize,
    player_pool: i128,
    monster_pool: i128,
    Ghost(g): Ghost<GameView>,
) -> (pool: i128)
    requires
        g.monsters == monster_views(old(monsters)@),
        g.rooms == room_views(rooms@),
        g.characters == character_views(bystanders@),
        room < rooms@.len(),
        action_views(old(out)@) == Seq::<ActionView>::empty(),
        player_pool == g.player_pool(room as int, g.characters.len() as int),
        monster_pool == g.monster_pool(room as int, g.monsters.len() as int),
        0 <= monster_pool <= g.monsters.len() * 65535,
    ensures
        monster_views(final(monsters)@) == g.monsters_struck(
            author,
            room as int,
            g.monsters.len() as int,
        ).monsters,
        action_views(final(out)@) == g.monsters_struck(
            author,
            room as int,
            g.monsters.len() as int,
        ).actions,
        pool == g.monsters_struck(author, room as int, g.monsters.len() as int).monster_pool,
        player_pool == g.monsters_struck(author, room as int, g.monsters.len() as int).player_pool,
        -(g.monsters.len() * 65535) <= pool <= g.monsters.len() * 65535,
{
    let count = monsters.len();
    let mut pool = monster_pool;
    let mut k: usize = 0;
    while k < count
        invariant
            k <= count,
            count == g.monsters.len(),
            room < rooms@.len(),
            g.rooms == room_views(rooms@),
            g.characters == character_views(bystanders@),
            monsters@.len() == count,
            forall|j: int| k <= j < count ==> (#[trigger] monsters@[j])@ == g.monsters[j],
            monster_views(monsters@) == g.monsters_struck(author, room as int, k as int).monsters,
            player_pool == g.monsters_struck(author, room as int, k as int).player_pool,
            pool == g.monsters_struck(author, room as int, k as int).monster_pool,
            action_views(out@) == g.monsters_struck(author, room as int, k as int).actions,
            -(k * 65535) <= pool <= count * 65535,
        decreases count - k,
    {
        let ghost before = g.monsters_struck(author, room as int, k as int);
        let ghost was = monster_views(monsters@);
        assert(monsters@[k as int]@ == g.monsters[k as int]);
        if contains_name(&rooms[room].monsters, &monsters[k].name) && monsters[k].fights() {
            assert(g.monster_fights(room as int, g.monsters[k as int]));
            announce(out, author, "The players are attacking ", &monsters[k].name);
            let health = strike(
                monsters[k].health,
                monsters[k].defense,
                monsters[k].regen,
                player_pool,
            );
            monsters[k].health = health;
            if health <= 0 {
                monsters[k].flags = MONSTER_DEAD;
                pool = pool - monsters[k].attack as i128;
            }
            assert(monsters@[k as int]@ == GameView::monster_hit(
                g.monsters[k as int],
                before.player_pool,
            ));
            send_monster_update_to_room(out, &rooms[room].characters, &monsters[k], bystanders);
            assert(monster_views(monsters@) =~= was.update(k as int, monsters@[k as int]@));
        } else {
            assert(!g.monster_fights(room as int, g.monsters[k as int]));
        }
        k += 1;
    }
    pool
}

/// The characters' part of a round: every character has its turn.
fn players_turn(
    characters: &mut Vec<Character>,
    rooms: &Vec<Room>,
    bystanders: &Vec<Character>,
    out: &mut Vec<Action>,
    author: u64,
    room: usize,
    player_pool: i128,
    monster_pool: i128,
    Ghost(g): Ghost<GameView>,
) -> (pool: i128)
    requires
        g.characters == character_views(old(characters)@),
        g.rooms == room_views(rooms@),
        g.characters == character_views(bystanders@),
        room < rooms@.len(),
        action_views(old(out)@) == g.players_struck(author, room as int, 0).actions,
        g.players_struck(author, room as int, 0).characters == g.characters,
        player_pool == g.players_struck(author, room as int, 0).player_pool,
        monster_pool == g.players_struck(author, room as int, 0).monster_pool,
        0 <= player_pool <= g.characters.len() * 65535,
    ensures
        character_views(final(characters)@) == g.players_struck(
            author,
            room as int,
            g.characters.len() as int,
        ).characters,
        action_views(final(out)@) == g.players_struck(
            author,
            room as int,
            g.characters.len() as int,
        ).actions,
        pool == g.players_struck(author, room as int, g.characters.len() as int).player_pool,
{
    let count = characters.len();
    let mut pool = player_pool;
    let mut k: usize = 0;
    while k < count
        invariant
            k <= count,
            count == g.characters.len(),
            room < rooms@.len(),
            g.rooms == room_views(rooms@),
            g.characters == character_views(bystanders@),
            characters@.len() == count,
            forall|j: int| k <= j < count ==> (#[trigger] characters@[j])@ == g.characters[j],
            character_views(characters@) == g.players_struck(
                author,
                room as int,
                k as int,
            ).characters,
            pool == g.players_struck(author, room as int, k as int).player_pool,
            monster_pool == g.players_struck(author, room as int, k as int).monster_pool,
            action_views(out@) == g.players_struck(author, room as int, k as int).actions,
            -(k * 65535) <= pool <= count * 65535,
        decreases count - k,
    {
        let ghost before = g.players_struck(author, room as int, k as int);
        let ghost was = character_views(characters@);
        assert(characters@[k as int]@ == g.characters[k as int]);
        if contains_name(&rooms[room].characters, &characters[k].name) && characters[k].fights() {
            assert(g.player_fights(room as int, g.characters[k as int]));
            announce(out, author, "The monsters are attacking ", &characters[k].name);
            let health = strike(
                characters[k].health,
                characters[k].defense,
                characters[k].regen,
                monster_pool,
            );
            characters[k].health = health;
            if health <= 0 {
                characters[k].flags = PLAYER_DEAD;
                pool = pool - characters[k].attack as i128;
            }
            assert(characters@[k as int]@ == GameView::player_hit(
                g.characters[k as int],
                before.monster_pool,
            ));
            send_player_update_to_room(out, &rooms[room].characters, &characters[k], bystanders);
            assert(character_views(characters@) =~= was.update(k as int, characters@[k as int]@));
        } else {
            assert(!g.player_fights(room as int, g.characters[k as int]));
        }
        k += 1;
    }
    pool
}

} // verus!
