use vstd::prelude::*;

verus! {

/// Identity of an authenticated client session.
pub type SessionID = String;

/// Identity of a live arena: sixteen decimal digits.
pub type GameID = String;

/// The game modes a client can queue into.
#[derive(Clone, Copy, Debug, PartialEq, Eq, Structural)]
pub enum GameMode {
    OneVOneNormal,
}

/// Errors reported to a client in a structured response.
#[derive(Clone, Debug, PartialEq, Eq)]
pub enum DiceError {
    /// The session asked for matchmaking while already in a match.
    JoinMatchMakingWhileInMatch(SessionID),
    /// The matchmaking request did not name a game mode.
    MatchmakingNoGamemode,
}

/// The application-level request a client sends.
#[derive(Clone, Copy, Debug)]
pub struct DicePacket {
    pub action: u8,
    pub game_mode: Option<GameMode>,
}

/// The action code of a matchmaking request.
pub const ACTION_MATCHMAKING: u8 = 0;

/// Server-side record of a connected client.
#[derive(Clone, Debug)]
pub struct DiceSession {
    pub id: SessionID,
    pub in_match_making: bool,
    pub in_match: bool,
    pub game_id: Option<GameID>,
}

impl DiceSession {
    /// A session is in a match exactly when it holds an arena reference,
    /// and it is never queued and in a match at once.
    pub open spec fn wf(&self) -> bool {
        &&& self.in_match <==> self.game_id.is_some()
        &&& !(self.in_match && self.in_match_making)
    }

    pub open spec fn is_idle(&self) -> bool {
        !self.in_match && !self.in_match_making && self.game_id.is_none()
    }

    /// A fresh, idle session.
    pub fn new(id: SessionID) -> (r: DiceSession)
        ensures
            r.id@ == id@,
            r.is_idle(),
            r.wf(),
    {
        DiceSession { id, in_match_making: false, in_match: false, game_id: None }
    }
}

/// What the connection layer must do after a request was handled.
#[derive(Clone, Debug, PartialEq, Eq)]
pub enum Response {
    /// Send this error to the client, then close the connection.
    Rejected(DiceError),
    /// Close the connection without a structured error.
    Closed,
    /// The session was queued: acknowledge the request.
    Queued,
    /// The message was received; nothing more to do.
    Acknowledged,
}

} // verus!
