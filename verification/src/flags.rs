//! The five flag bits of a character or monster, with a named test for each.

use vstd::prelude::*;

verus! {

/// Bit 7: the bearer is alive.
pub const ALIVE: u8 = 0x80;

/// Bit 6: the bearer joins the battles fought in its room.
pub const JOIN_BATTLE: u8 = 0x40;

/// Bit 5: the bearer is a monster.
pub const MONSTER: u8 = 0x20;

/// Bit 4: the bearer has started playing.
pub const STARTED: u8 = 0x10;

/// Bit 3: the bearer is ready.
pub const READY: u8 = 0x08;

/// A player whose character was accepted: ready, alive, joins battles.
pub const PLAYER_ACCEPTED: u8 = 0xC8;

/// A player in the game: accepted and started.
pub const PLAYER_STARTED: u8 = 0xD8;

/// A player killed in battle.
pub const PLAYER_DEAD: u8 = 0x18;

/// A player who left.
pub const PLAYER_GONE: u8 = 0x00;

/// A monster as the map creates it.
pub const MONSTER_FRESH: u8 = 0xF8;

/// A monster killed in battle.
pub const MONSTER_DEAD: u8 = 0x38;

pub open spec fn spec_is_alive(flags: u8) -> bool {
    flags >= 128
}

pub open spec fn spec_joins_battle(flags: u8) -> bool {
    (flags / 64) % 2 == 1
}

pub open spec fn spec_is_monster(flags: u8) -> bool {
    (flags / 32) % 2 == 1
}

pub open spec fn spec_is_started(flags: u8) -> bool {
    (flags / 16) % 2 == 1
}

pub open spec fn spec_is_ready(flags: u8) -> bool {
    (flags / 8) % 2 == 1
}

/// Bit 7 of `flags`.
#[verifier::when_used_as_spec(spec_is_alive)]
pub fn is_alive(flags: u8) -> (b: bool)
    ensures
        b == spec_is_alive(flags),
        b == (flags & ALIVE != 0),
{
    assert((flags >= 128) == (flags & 0x80 != 0)) by (bit_vector);
    flags >= 128
}

/// Bit 6 of `flags`.
#[verifier::when_used_as_spec(spec_joins_battle)]
pub fn joins_battle(flags: u8) -> (b: bool)
    ensures
        b == spec_joins_battle(flags),
        b == (flags & JOIN_BATTLE != 0),
{
    assert(((flags / 64) % 2 == 1) == (flags & 0x40 != 0)) by (bit_vector);
    (flags / 64) % 2 == 1
}

/// Bit 5 of `flags`.
#[verifier::when_used_as_spec(spec_is_monster)]
pub fn is_monster(flags: u8) -> (b: bool)
    ensures
        b == spec_is_monster(flags),
        b == (flags & MONSTER != 0),
{
    assert(((flags / 32) % 2 == 1) == (flags & 0x20 != 0)) by (bit_vector);
    (flags / 32) % 2 == 1
}

/// Bit 4 of `flags`.
#[verifier::when_used_as_spec(spec_is_started)]
pub fn is_started(flags: u8) -> (b: bool)
    ensures
        b == spec_is_started(flags),
        b == (flags & STARTED != 0),
{
    assert(((flags / 16) % 2 == 1) == (flags & 0x10 != 0)) by (bit_vector);
    (flags / 16) % 2 == 1
}

/// Bit 3 of `flags`.
#[verifier::when_used_as_spec(spec_is_ready)]
pub fn is_ready(flags: u8) -> (b: bool)
    ensures
        b == spec_is_ready(flags),
        b == (flags & READY != 0),
{
    assert(((flags / 8) % 2 == 1) == (flags & 0x08 != 0)) by (bit_vector);
    (flags / 8) % 2 == 1
}

/// What each of the flag bytes that the server assigns says of its bearer.
pub proof fn lemma_assigned_flags()
    ensures
        is_alive(PLAYER_ACCEPTED) && joins_battle(PLAYER_ACCEPTED) && !is_monster(PLAYER_ACCEPTED)
            && !is_started(PLAYER_ACCEPTED) && is_ready(PLAYER_ACCEPTED),
        is_alive(PLAYER_STARTED) && joins_battle(PLAYER_STARTED) && !is_monster(PLAYER_STARTED)
            && is_started(PLAYER_STARTED) && is_ready(PLAYER_STARTED),
        !is_alive(PLAYER_DEAD) && !joins_battle(PLAYER_DEAD) && !is_monster(PLAYER_DEAD),
        !is_alive(PLAYER_GONE) && !joins_battle(PLAYER_GONE),
        is_alive(MONSTER_FRESH) && joins_battle(MONSTER_FRESH) && is_monster(MONSTER_FRESH)
            && is_started(MONSTER_FRESH) && is_ready(MONSTER_FRESH),
        !is_alive(MONSTER_DEAD) && !joins_battle(MONSTER_DEAD) && is_monster(MONSTER_DEAD),
{
}

} // verus!
