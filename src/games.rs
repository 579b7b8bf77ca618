use vstd::prelude::*;

use crate::arena::{OneVOneArena, fresh_arena};
use crate::queue::{
    EntryView, MatchQueue, enqueued, id_at, ids_unique, lemma_extracted_not_queued, lemma_no_double_matching,
    lemma_no_lost_entries, pair_view, paired_ids, pairs_of, queued,
};
use crate::types::{GameID, SessionID};
use rand::Rng;

verus! {

/// Number of digits in a game identifier.
pub const GAME_ID_LEN: usize = 16;

/// Whether `c` is one of the decimal digits.
pub open spec fn is_digit(c: char) -> bool {
    '0' <= c && c <= '9'
}

/// A well-formed game identifier: sixteen decimal digits.
pub open spec fn is_game_id(s: Seq<char>) -> bool {
    s.len() == GAME_ID_LEN && forall|i: int| 0 <= i < s.len() ==> #[trigger] is_digit(s[i])
}

/// Relies on rand::thread_rng and Rng::gen_range: a value drawn from
/// `0..n`, which must not be empty.
#[verifier::external_body]
fn random_below(n: usize) -> (r: usize)
    requires
        n > 0,
    ensures
        r < n,
{
    rand::thread_rng().gen_range(0..n)
}

/// Relies on String::push: appends one character.
#[verifier::external_body]
fn push_char(s: &mut String, c: char)
    ensures
        final(s)@ == old(s)@.push(c),
{
    s.push(c)
}

/// The decimal digit for `d`.
fn digit_char(d: usize) -> (c: char)
    requires
        d < 10,
    ensures
        is_digit(c),
        c as u32 == '0' as u32 + d,
{
    match d {
        0 => '0',
        1 => '1',
        2 => '2',
        3 => '3',
        4 => '4',
        5 => '5',
        6 => '6',
        7 => '7',
        8 => '8',
        _ => '9',
    }
}

/// The live arenas and the matchmaking queue of one server.
pub struct Games<C> {
    active_one_v_ones: Vec<(GameID, OneVOneArena)>,
    one_v_one_matchmaking: MatchQueue<C>,
}

impl<C> Games<C> {
    /// The arenas, in order of creation, each with its identifier.
    pub closed spec fn arenas(&self) -> Seq<EntryView<OneVOneArena>> {
        self.active_one_v_ones@.map_values(|e: (GameID, OneVOneArena)| (e.0@, e.1))
    }

    /// The sessions waiting for an opponent, earliest first.
    pub closed spec fn queue(&self) -> Seq<EntryView<C>> {
        self.one_v_one_matchmaking@
    }

    /// No identifier names two arenas, and no identity waits twice.
    pub open spec fn wf(&self) -> bool {
        &&& ids_unique(self.arenas())
        &&& ids_unique(self.queue())
    }

    /// Whether some arena holds a well-formed game identifier, so that a
    /// freshly drawn one may collide with it.
    pub open spec fn has_game_id(&self) -> bool {
        exists|i: int| 0 <= i < self.arenas().len() && is_game_id(#[trigger] id_at(self.arenas(), i))
    }

    /// Whether an arena with identifier `id` exists.
    pub open spec fn has_game(&self, id: Seq<char>) -> bool {
        queued(self.arenas(), id)
    }

    /// An empty registry and an empty queue.
    pub fn new() -> (r: Games<C>)
        ensures
            r.wf(),
            r.arenas() == Seq::<EntryView<OneVOneArena>>::empty(),
            r.queue() == Seq::<EntryView<C>>::empty(),
    {
        let r = Games { active_one_v_ones: Vec::new(), one_v_one_matchmaking: MatchQueue::new() };
        assert(r.arenas() =~= Seq::<EntryView<OneVOneArena>>::empty());
        r
    }

    /// Position of the arena with identifier `id`, if there is one.
    fn find_game(&self, id: &GameID) -> (r: Option<usize>)
        requires
            self.wf(),
        ensures
            r.is_none() <==> !self.has_game(id@),
            r.is_some() ==> r.unwrap() < self.arenas().len() && id_at(self.arenas(), r.unwrap() as int) == id@,
    {
        let mut i: usize = 0;
        while i < self.active_one_v_ones.len()
            invariant
                i <= self.active_one_v_ones@.len(),
                self.arenas().len() == self.active_one_v_ones@.len(),
                forall|k: int| 0 <= k < i ==> id_at(self.arenas(), k) != id@,
            decreases self.active_one_v_ones@.len() - i,
        {
            if self.active_one_v_ones[i].0 == *id {
                assert(id_at(self.arenas(), i as int) == id@);
                return Some(i);
            }
            i = i + 1;
        }
        None
    }

    /// A fresh identifier of sixteen digits, each drawn at random.
    fn random_game_id(&mut self) -> (r: GameID)
        ensures
            is_game_id(r@),
            *final(self) == *old(self),
    {
        let mut id = String::new();
        let mut i: usize = 0;
        while i < GAME_ID_LEN
            invariant
                i <= GAME_ID_LEN,
                id@.len() == i,
                forall|k: int| 0 <= k < i ==> #[trigger] is_digit(id@[k]),
            decreases GAME_ID_LEN - i,
        {
            let d = random_below(10);
            push_char(&mut id, digit_char(d));
            i = i + 1;
        }
        id
    }

    /// Registers `arena` under `id` unless that identifier is taken; an
    /// existing arena is never replaced.
    pub fn insert_1v1_game(&mut self, id: GameID, arena: OneVOneArena) -> (r: bool)
        requires
            old(self).wf(),
        ensures
            final(self).wf(),
            r == !old(self).has_game(id@),
            r ==> final(self).arenas() == old(self).arenas().push((id@, arena)),
            !r ==> final(self).arenas() == old(self).arenas(),
            final(self).queue() == old(self).queue(),
    {
        if self.find_game(&id).is_some() {
            return false;
        }
        let ghost v = id@;
        self.active_one_v_ones.push((id, arena));
        assert(self.arenas() =~= old(self).arenas().push((v, arena)));
        proof {
            let a = self.arenas();
            let o = old(self).arenas();
            assert forall|x: int, y: int|
                0 <= x < a.len() && 0 <= y < a.len() && x != y implies
                #[trigger] id_at(a, x) != #[trigger] id_at(a, y) by {
                if x < o.len() && y < o.len() {
                    assert(id_at(o, x) != id_at(o, y));
                } else if x < o.len() {
                    assert(id_at(o, x) != v);
                } else if y < o.len() {
                    assert(id_at(o, y) != v);
                }
            }
        }
        true
    }

    /// Creates a fresh arena under a new random identifier and returns that
    /// identifier; when the drawn identifier is already taken nothing is
    /// registered and the result is `None`.
    pub fn new_1v1_game(&mut self) -> (r: Option<GameID>)
        requires
            old(self).wf(),
        ensures
            final(self).wf(),
            final(self).queue() == old(self).queue(),
            r.is_some() ==> is_game_id(r.unwrap()@)
                && !old(self).has_game(r.unwrap()@)
                && final(self).arenas() == old(self).arenas().push((r.unwrap()@, fresh_arena())),
            r.is_none() ==> final(self).arenas() == old(self).arenas() && old(self).has_game_id(),
    {
        let id = self.random_game_id();
        let copy = id.clone();
        if self.insert_1v1_game(id, OneVOneArena::new()) {
            Some(copy)
        } else {
            proof {
                let i = choose|i: int| 0 <= i < old(self).arenas().len() && #[trigger] id_at(old(self).arenas(), i) == copy@;
                assert(is_game_id(id_at(old(self).arenas(), i)));
            }
            None
        }
    }

    /// The current state of the arena `id`, as a copy.
    pub fn get_1v1_game(&self, id: GameID) -> (r: Option<OneVOneArena>)
        requires
            self.wf(),
        ensures
            r.is_some() <==> self.has_game(id@),
            r.is_some() ==> exists|i: int|
                0 <= i < self.arenas().len() && id_at(self.arenas(), i) == id@
                && self.arenas()[i].1 == r.unwrap(),
            r.is_some() ==> forall|i: int|
                0 <= i < self.arenas().len() && #[trigger] id_at(self.arenas(), i) == id@
                    ==> self.arenas()[i].1 == r.unwrap(),
    {
        match self.find_game(&id) {
            Some(i) => Some(self.active_one_v_ones[i].1),
            None => None,
        }
    }

    /// Queues `client_session_id` with its connection; an identity already
    /// queued keeps its place and takes the new connection.
    pub fn send_1v1_matchmaking(&mut self, client_session_id: SessionID, stream: C)
        requires
            old(self).wf(),
        ensures
            final(self).wf(),
            final(self).arenas() == old(self).arenas(),
            queued(final(self).queue(), client_session_id@),
            enqueued(old(self).queue(), final(self).queue(), client_session_id@, stream),
    {
        let ghost v = client_session_id@;
        self.one_v_one_matchmaking.enqueue(client_session_id, stream);
        proof {
            if queued(old(self).queue(), v) {
                let i = choose|i: int|
                    0 <= i < old(self).queue().len() && id_at(old(self).queue(), i) == v
                    && self.queue() == old(self).queue().update(i, (v, stream));
                assert(id_at(self.queue(), i) == v);
            } else {
                assert(id_at(self.queue(), old(self).queue().len() as int) == v);
            }
        }
    }

    /// Withdraws `client_session_id` from the queue, if it is there.
    pub fn remove_1v1_matchmaking(&mut self, client_session_id: SessionID)
        requires
            old(self).wf(),
        ensures
            final(self).wf(),
            final(self).arenas() == old(self).arenas(),
            !queued(final(self).queue(), client_session_id@),
            queued(old(self).queue(), client_session_id@) ==> exists|i: int|
                0 <= i < old(self).queue().len() && id_at(old(self).queue(), i) == client_session_id@
                && final(self).queue() == old(self).queue().remove(i),
            !queued(old(self).queue(), client_session_id@) ==> final(self).queue() == old(self).queue(),
    {
        self.one_v_one_matchmaking.cancel(&client_session_id);
    }

    /// Whether `id` is waiting in the queue.
    pub fn is_queued(&self, id: &SessionID) -> (r: bool)
        requires
            self.wf(),
        ensures
            r == queued(self.queue(), id@),
    {
        self.one_v_one_matchmaking.position(id).is_some()
    }

    /// How many sessions are waiting.
    pub fn queue_len(&self) -> (r: usize)
        ensures
            r == self.queue().len(),
    {
        self.one_v_one_matchmaking.len()
    }

    /// How many arenas are live.
    pub fn game_count(&self) -> (r: usize)
        ensures
            r == self.arenas().len(),
    {
        self.active_one_v_ones.len()
    }

    /// The next two players, the earliest queued, taken out together; `None`
    /// when fewer than two are waiting.
    pub fn return_next_1v1_pair(&mut self) -> (r: Option<((SessionID, C), (SessionID, C))>)
        requires
            old(self).wf(),
        ensures
            final(self).wf(),
            final(self).arenas() == old(self).arenas(),
            r.is_some() <==> old(self).queue().len() >= 2,
            r.is_some() ==> pair_view(r.unwrap()) == (old(self).queue()[0], old(self).queue()[1])
                && final(self).queue() == old(self).queue().subrange(2, old(self).queue().len() as int),
            r.is_none() ==> final(self).queue() == old(self).queue(),
            r.is_some() ==> ({
                let (a, b) = pair_view(r.unwrap());
                &&& a.0 != b.0
                &&& !queued(final(self).queue(), a.0)
                &&& !queued(final(self).queue(), b.0)
            }),
    {
        let r = self.one_v_one_matchmaking.extract_pair();
        proof {
            if r.is_some() {
                lemma_extracted_not_queued(old(self).queue());
                assert(id_at(old(self).queue(), 0) != id_at(old(self).queue(), 1));
            }
        }
        r
    }

    /// Every pair that can be made now, earliest first; at most one session
    /// stays queued.
    pub fn take_1v1_matches(&mut self) -> (r: Vec<((SessionID, C), (SessionID, C))>)
        requires
            old(self).wf(),
        ensures
            final(self).wf(),
            final(self).arenas() == old(self).arenas(),
            r@.map_values(|p: ((SessionID, C), (SessionID, C))| pair_view(p)) == pairs_of(old(self).queue()),
            final(self).queue() == old(self).queue().subrange(
                2 * (old(self).queue().len() / 2) as int,
                old(self).queue().len() as int,
            ),
            final(self).queue().len() == old(self).queue().len() % 2,
            forall|i: int, j: int|
                0 <= i < paired_ids(old(self).queue()).len() && 0 <= j < paired_ids(old(self).queue()).len()
                    && i != j ==> #[trigger] paired_ids(old(self).queue())[i] != #[trigger] paired_ids(
                    old(self).queue(),
                )[j],
            forall|i: int|
                0 <= i < old(self).queue().len() - 1 ==> paired_ids(old(self).queue()).contains(
                    #[trigger] id_at(old(self).queue(), i),
                ),
    {
        proof {
            lemma_no_double_matching(old(self).queue());
            lemma_no_lost_entries(old(self).queue());
        }
        self.one_v_one_matchmaking.extract_all_pairs()
    }
}

} // verus!
