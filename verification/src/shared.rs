//! The logical message shapes exchanged with a session layer, as tagged
//! records.  Wire encoding and transport are a collaborator's concern; the
//! library only fixes the vocabulary and the tick cadence.

use vstd::prelude::*;

use crate::entity::SnakeID;
use crate::state::GameData;
use crate::util::Direction;

verus! {

/// How many simulation steps a session layer runs per second; the tick
/// period is `1000 / TICKS_PER_SECOND` milliseconds.
pub const TICKS_PER_SECOND: u64 = 8;

/// A player command carried inside a client message.
#[derive(Debug, Clone, Copy)]
pub enum UserCmd {
    Direction(Direction),
}

/// What clients send to the owner of the game state.
#[derive(Debug, Clone)]
pub enum ClientMsg {
    Ping(usize),
    Join,
    ConsoleCmd(String),
    UserCmd(UserCmd),
}

/// What the owner of the game state sends back.
#[derive(Debug)]
pub enum ServerMsg {
    Pong(usize),
    GameData(GameData),
    NewID(SnakeID),
}

} // verus!
