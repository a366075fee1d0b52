//! An authoritative multi-user text-adventure server core speaking the
//! length-prefixed LURK 2.3 wire protocol.
//!
//! The codec turns frames into messages and back. A connection handler
//! takes the frames of one client and decides, by the phase of the session,
//! what goes to the game loop. The game loop owns the world: it takes one
//! event at a time and answers with the next state of the world and the
//! frames to write. The world is read out of the JSON document of a map.
//! Reading and writing files and sockets is left to the host.

pub mod error_code;
pub mod flags;
pub mod message;

pub mod wire;
pub mod frame;
pub mod codec;
pub mod codec_laws;

pub mod names;
pub mod search;
pub mod monster;
pub mod character;
pub mod world;
pub mod load;
pub mod map;

pub mod action;
pub mod dispatch;
pub mod rules;
pub mod combat;
pub mod game;
pub mod server;
pub mod session;

pub mod invariants;
pub mod outbound;
pub mod laws;

pub mod pager;
