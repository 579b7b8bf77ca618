use vstd::prelude::*;

use crate::arena::{fresh_arena, snapshot_of};
use crate::games::{Games, is_game_id};
use crate::queue::{EntryView, enqueued, id_at, ids_unique, lemma_extracted_not_queued, queued};
use crate::types::{ACTION_MATCHMAKING, DiceError, DicePacket, DiceSession, GameID, GameMode, Response};

verus! {

/// A session agrees with the queue: it is well formed, and it is queued
/// exactly when its identity waits in the queue.
pub open spec fn consistent<C>(s: DiceSession, q: Seq<EntryView<C>>) -> bool {
    &&& s.wf()
    &&& s.in_match_making <==> queued(q, s.id@)
}

/// The response owed to a matchmaking request, before any state changes.
pub open spec fn matchmaking_response(s: DiceSession, p: DicePacket) -> Response {
    if p.action != ACTION_MATCHMAKING {
        Response::Closed
    } else if s.in_match {
        Response::Rejected(DiceError::JoinMatchMakingWhileInMatch(s.id))
    } else if p.game_mode.is_none() {
        Response::Rejected(DiceError::MatchmakingNoGamemode)
    } else {
        Response::Queued
    }
}

/// What a matchmaking request does to the session `s0` and the queue `q0`:
/// a rejection changes neither; a queued request marks the session queued
/// and queues its identity with connection `conn`.
pub open spec fn matchmaking_effect<C>(
    q0: Seq<EntryView<C>>,
    q1: Seq<EntryView<C>>,
    s0: DiceSession,
    s1: DiceSession,
    p: DicePacket,
    conn: C,
) -> bool {
    if matchmaking_response(s0, p) == Response::Queued {
        &&& s1.id == s0.id
        &&& s1.in_match_making
        &&& s1.in_match == s0.in_match
        &&& s1.game_id == s0.game_id
        &&& enqueued(q0, q1, s0.id@, conn)
    } else {
        s1 == s0 && q1 == q0
    }
}

/// The response owed to a message from a session in a match.
pub open spec fn in_game_response(s: DiceSession) -> Response {
    if s.game_id.is_none() {
        Response::Closed
    } else {
        Response::Acknowledged
    }
}

/// What both players are told when their match starts.
#[derive(Clone, Debug)]
pub struct MatchFound {
    pub game_id: GameID,
    pub mode: GameMode,
    pub snapshot: Vec<u8>,
}

/// Handles a message from a session that is in a match. Gameplay is not
/// handled yet; a session in a match without an arena is a protocol
/// violation and its connection is closed.
pub fn handle_in_game(session: &DiceSession, packet: &DicePacket) -> (r: Response)
    ensures
        r == in_game_response(*session),
{
    match session.game_id {
        Some(_) => Response::Acknowledged,
        None => Response::Closed,
    }
}

/// Handles a matchmaking request. A valid request queues the session with
/// its connection; any rejection leaves the session and the queue as they were.
pub fn handle_match_making<C>(
    games: &mut Games<C>,
    session: &mut DiceSession,
    packet: &DicePacket,
    stream: C,
) -> (r: Response)
    requires
        old(games).wf(),
    ensures
        final(games).wf(),
        r == matchmaking_response(*old(session), *packet),
        final(games).arenas() == old(games).arenas(),
        matchmaking_effect(old(games).queue(), final(games).queue(), *old(session), *final(session), *packet, stream),
        r == Response::Queued ==> queued(final(games).queue(), old(session).id@),
        forall|id: Seq<char>| id != old(session).id@ ==> queued(final(games).queue(), id) == queued(
            old(games).queue(),
            id,
        ),
        consistent(*old(session), old(games).queue()) ==> consistent(*final(session), final(games).queue()),
{
    if packet.action != ACTION_MATCHMAKING {
        return Response::Closed;
    }
    if session.in_match {
        return Response::Rejected(DiceError::JoinMatchMakingWhileInMatch(session.id.clone()));
    }
    match packet.game_mode {
        None => Response::Rejected(DiceError::MatchmakingNoGamemode),
        Some(GameMode::OneVOneNormal) => {
            session.in_match_making = true;
            let ghost me = session.id@;
            games.send_1v1_matchmaking(session.id.clone(), stream);
            proof {
                assert forall|id: Seq<char>| id != me implies queued(games.queue(), id) == queued(
                    old(games).queue(),
                    id,
                ) by {
                    if queued(old(games).queue(), me) {
                        let i = choose|i: int|
                            0 <= i < old(games).queue().len() && id_at(old(games).queue(), i) == me
                            && games.queue() == old(games).queue().update(i, (me, stream));
                        if queued(games.queue(), id) {
                            let j = choose|j: int| 0 <= j < games.queue().len() && #[trigger] id_at(games.queue(), j) == id;
                            assert(id_at(old(games).queue(), j) == id);
                        }
                        if queued(old(games).queue(), id) {
                            let j = choose|j: int| 0 <= j < old(games).queue().len() && #[trigger] id_at(old(games).queue(), j) == id;
                            assert(id_at(games.queue(), j) == id);
                        }
                    } else {
                        if queued(games.queue(), id) {
                            let j = choose|j: int| 0 <= j < games.queue().len() && #[trigger] id_at(games.queue(), j) == id;
                            assert(id_at(old(games).queue(), j) == id);
                        }
                        if queued(old(games).queue(), id) {
                            let j = choose|j: int| 0 <= j < old(games).queue().len() && #[trigger] id_at(old(games).queue(), j) == id;
                            assert(id_at(games.queue(), j) == id);
                        }
                    }
                }
            }
            Response::Queued
        },
    }
}

/// Puts one session into the match played in arena `id`.
fn enter_match(session: &mut DiceSession, id: GameID)
    ensures
        final(session).id == old(session).id,
        final(session).in_match,
        !final(session).in_match_making,
        final(session).game_id == Some(id),
{
    session.in_match_making = false;
    session.in_match = true;
    session.game_id = Some(id);
}

/// Starts the match of two players taken out of the queue together: creates
/// an arena, moves both sessions into it and returns what both are told.
/// When the drawn arena identifier is already taken, no arena is created,
/// both sessions are marked as no longer queued, and the result is `None`.
pub fn start_1v1_match<C>(games: &mut Games<C>, p1: &mut DiceSession, p2: &mut DiceSession) -> (r: Option<MatchFound>)
    requires
        old(games).wf(),
    ensures
        final(games).wf(),
        final(games).queue() == old(games).queue(),
        r.is_none() ==> ({
            &&& old(games).has_game_id()
            &&& final(games).arenas() == old(games).arenas()
            &&& final(p1).id == old(p1).id && final(p2).id == old(p2).id
            &&& !final(p1).in_match_making && !final(p2).in_match_making
            &&& final(p1).in_match == old(p1).in_match && final(p2).in_match == old(p2).in_match
            &&& final(p1).game_id == old(p1).game_id && final(p2).game_id == old(p2).game_id
        }),
        r.is_some() ==> ({
            let m = r.unwrap();
            &&& is_game_id(m.game_id@)
            &&& !old(games).has_game(m.game_id@)
            &&& final(games).arenas() == old(games).arenas().push((m.game_id@, fresh_arena()))
            &&& m.mode == GameMode::OneVOneNormal
            &&& m.snapshot@ == snapshot_of(fresh_arena())
            &&& final(p1).id == old(p1).id && final(p2).id == old(p2).id
            &&& final(p1).in_match && final(p2).in_match
            &&& !final(p1).in_match_making && !final(p2).in_match_making
            &&& final(p1).game_id == Some(m.game_id) && final(p2).game_id == Some(m.game_id)
        }),
        old(p1).wf() && !queued(old(games).queue(), old(p1).id@) ==> consistent(*final(p1), final(games).queue()),
        old(p2).wf() && !queued(old(games).queue(), old(p2).id@) ==> consistent(*final(p2), final(games).queue()),
{
    let id = match games.new_1v1_game() {
        Some(id) => id,
        None => {
            p1.in_match_making = false;
            p2.in_match_making = false;
            return None;
        },
    };
    let arena = match games.get_1v1_game(id.clone()) {
        Some(a) => a,
        None => {
            assert(games.has_game(id@)) by {
                assert(id_at(games.arenas(), old(games).arenas().len() as int) == id@);
            }
            return None;
        },
    };
    proof {
        let i = choose|i: int|
            0 <= i < games.arenas().len() && id_at(games.arenas(), i) == id@
            && games.arenas()[i].1 == arena;
        let n = old(games).arenas().len() as int;
        assert(id_at(games.arenas(), n) == id@);
        if i != n {
            assert(id_at(old(games).arenas(), i) == id@);
            assert(old(games).has_game(id@));
        }
    }
    let snapshot = arena.encode();
    enter_match(p1, id.clone());
    enter_match(p2, id.clone());
    Some(MatchFound { game_id: id, mode: GameMode::OneVOneNormal, snapshot })
}

/// The two sessions of a pair taken out of the queue, once moved into their
/// arena, agree with what is left of the queue: each is in a match with an
/// arena reference and no longer queued.
pub proof fn lemma_match_start_consistent<C>(q: Seq<EntryView<C>>, s1: DiceSession, s2: DiceSession)
    requires
        ids_unique(q),
        q.len() >= 2,
        s1.id@ == id_at(q, 0),
        s2.id@ == id_at(q, 1),
        s1.in_match && !s1.in_match_making && s1.game_id.is_some(),
        s2.in_match && !s2.in_match_making && s2.game_id.is_some(),
    ensures
        consistent(s1, q.subrange(2, q.len() as int)),
        consistent(s2, q.subrange(2, q.len() as int)),
{
    lemma_extracted_not_queued(q);
}

/// Routes one inbound message: to the in-game handler while the session is
/// in a match, else to matchmaking.
pub fn handle_packet<C>(
    games: &mut Games<C>,
    session: &mut DiceSession,
    packet: &DicePacket,
    stream: C,
) -> (r: Response)
    requires
        old(games).wf(),
    ensures
        final(games).wf(),
        old(session).in_match ==> r == in_game_response(*old(session)) && *final(session) == *old(session)
            && *final(games) == *old(games),
        !old(session).in_match ==> ({
            &&& r == matchmaking_response(*old(session), *packet)
            &&& matchmaking_effect(old(games).queue(), final(games).queue(), *old(session), *final(session), *packet, stream)
            &&& final(games).arenas() == old(games).arenas()
        }),
        consistent(*old(session), old(games).queue()) ==> consistent(*final(session), final(games).queue()),
{
    if session.in_match {
        return handle_in_game(session, packet);
    }
    handle_match_making(games, session, packet, stream)
}

} // verus!
