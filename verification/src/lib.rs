//! The rules of a text-based multi-user game server: the grammar of the
//! commands players type, what each command does to the world, combat
//! decisions, authentication, and the texts sent back to players.
use vstd::prelude::*;

pub mod auth;
pub mod combat;
pub mod combat_log;
pub mod command;
pub mod depiction;
pub mod interact;
pub mod items;
pub mod keycard;
pub mod models;
pub mod npc;
pub mod parse;
pub mod phrase;
pub mod rolls;
pub mod scripts;
pub mod search;
pub mod session;
pub mod text;
pub mod world;

verus! {
} // verus!
