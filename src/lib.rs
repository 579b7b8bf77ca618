//! Matchmaking and arena lifecycle for a server of 1v1 games: a queue of
//! waiting sessions that pairs them earliest first, a registry of live
//! arenas, and the session state machine that moves clients from idle to
//! queued to in a match.

pub mod arena;
pub mod games;
pub mod handles;
pub mod queue;
pub mod types;

pub use arena::OneVOneArena;
pub use games::Games;
pub use handles::{MatchFound, handle_in_game, handle_match_making, handle_packet, start_1v1_match};
pub use queue::MatchQueue;
pub use types::{ACTION_MATCHMAKING, DiceError, DicePacket, DiceSession, GameID, GameMode, Response, SessionID};
