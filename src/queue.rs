use vstd::prelude::*;

use crate::types::SessionID;

verus! {

/// The abstract form of a queue entry: an identity and its connection.
pub type EntryView<C> = (Seq<char>, C);

/// The waiting set of sessions, earliest first, each identity at most once.
pub struct MatchQueue<C> {
    entries: Vec<(SessionID, C)>,
}

/// The identity of entry `i`.
pub open spec fn id_at<C>(q: Seq<EntryView<C>>, i: int) -> Seq<char> {
    q[i].0
}

/// No identity stands twice in the queue.
pub open spec fn ids_unique<C>(q: Seq<EntryView<C>>) -> bool {
    forall|i: int, j: int|
        0 <= i < q.len() && 0 <= j < q.len() && i != j ==> #[trigger] id_at(q, i) != #[trigger] id_at(q, j)
}

/// Whether `id` is waiting in the queue.
pub open spec fn queued<C>(q: Seq<EntryView<C>>, id: Seq<char>) -> bool {
    exists|i: int| 0 <= i < q.len() && #[trigger] id_at(q, i) == id
}

/// `q1` is `q0` after queueing `id` with `conn`: an identity already queued
/// keeps its place and takes the new connection, a new one goes to the end.
pub open spec fn enqueued<C>(q0: Seq<EntryView<C>>, q1: Seq<EntryView<C>>, id: Seq<char>, conn: C) -> bool {
    &&& queued(q0, id) ==> exists|i: int|
        0 <= i < q0.len() && id_at(q0, i) == id && q1 == q0.update(i, (id, conn))
    &&& !queued(q0, id) ==> q1 == q0.push((id, conn))
}

/// The pairs that draining the queue two at a time yields, in order.
pub open spec fn pairs_of<C>(q: Seq<EntryView<C>>) -> Seq<(EntryView<C>, EntryView<C>)> {
    Seq::new(q.len() / 2, |k: int| (q[2 * k], q[2 * k + 1]))
}

/// The abstract form of a pair handed out by the queue.
pub open spec fn pair_view<C>(p: ((SessionID, C), (SessionID, C))) -> (EntryView<C>, EntryView<C>) {
    ((p.0.0@, p.0.1), (p.1.0@, p.1.1))
}

/// Removing entries keeps identities unique.
pub proof fn lemma_unique_remove<C>(q: Seq<EntryView<C>>, i: int)
    requires
        ids_unique(q),
        0 <= i < q.len(),
    ensures
        ids_unique(q.remove(i)),
{
    let r = q.remove(i);
    assert forall|a: int, b: int|
        0 <= a < r.len() && 0 <= b < r.len() && a != b implies
        #[trigger] id_at(r, a) != #[trigger] id_at(r, b) by {
        let a2 = if a < i { a } else { a + 1 };
        let b2 = if b < i { b } else { b + 1 };
        assert(id_at(r, a) == id_at(q, a2));
        assert(id_at(r, b) == id_at(q, b2));
    }
}

/// A suffix of a queue keeps identities unique.
pub proof fn lemma_unique_suffix<C>(q: Seq<EntryView<C>>, n: int)
    requires
        ids_unique(q),
        0 <= n <= q.len(),
    ensures
        ids_unique(q.subrange(n, q.len() as int)),
{
    let r = q.subrange(n, q.len() as int);
    assert forall|a: int, b: int|
        0 <= a < r.len() && 0 <= b < r.len() && a != b implies
        #[trigger] id_at(r, a) != #[trigger] id_at(r, b) by {
        assert(id_at(r, a) == id_at(q, a + n));
        assert(id_at(r, b) == id_at(q, b + n));
    }
}

/// The identities handed out by draining `q` two at a time, pair by pair.
pub open spec fn paired_ids<C>(q: Seq<EntryView<C>>) -> Seq<Seq<char>> {
    Seq::new(2 * (q.len() / 2), |i: int| if i % 2 == 0 { pairs_of(q)[i / 2].0.0 } else { pairs_of(q)[i / 2].1.0 })
}

/// No identity is matched twice: draining a queue hands out every identity
/// in at most one pair, and at most once within it.
pub proof fn lemma_no_double_matching<C>(q: Seq<EntryView<C>>)
    requires
        ids_unique(q),
    ensures
        forall|i: int, j: int|
            0 <= i < paired_ids(q).len() && 0 <= j < paired_ids(q).len() && i != j
                ==> #[trigger] paired_ids(q)[i] != #[trigger] paired_ids(q)[j],
{
    assert forall|i: int, j: int|
        0 <= i < paired_ids(q).len() && 0 <= j < paired_ids(q).len() && i != j implies
        #[trigger] paired_ids(q)[i] != #[trigger] paired_ids(q)[j] by {
        lemma_paired_id_is_entry(q, i);
        lemma_paired_id_is_entry(q, j);
        assert(id_at(q, i) != id_at(q, j));
    }
}

/// The `i`-th identity handed out is that of the `i`-th entry.
pub proof fn lemma_paired_id_is_entry<C>(q: Seq<EntryView<C>>, i: int)
    requires
        0 <= i < paired_ids(q).len(),
    ensures
        paired_ids(q)[i] == id_at(q, i),
{
    let k = i / 2;
    assert(0 <= k < q.len() / 2);
    if i % 2 == 0 {
        assert(i == 2 * k);
    } else {
        assert(i == 2 * k + 1);
    }
}

/// No entry is lost: draining a queue of `n` entries yields `n / 2` pairs,
/// and every queued identity but at most the last one is in one of them.
pub proof fn lemma_no_lost_entries<C>(q: Seq<EntryView<C>>)
    ensures
        pairs_of(q).len() == q.len() / 2,
        q.len() - paired_ids(q).len() <= 1,
        forall|i: int| 0 <= i < q.len() - 1 ==> paired_ids(q).contains(#[trigger] id_at(q, i)),
{
    assert forall|i: int| 0 <= i < q.len() - 1 implies paired_ids(q).contains(#[trigger] id_at(q, i)) by {
        lemma_paired_id_is_entry(q, i);
    }
}

/// A pair taken out of the queue leaves neither of its identities behind,
/// so neither can be matched again unless it is queued anew.
pub proof fn lemma_extracted_not_queued<C>(q: Seq<EntryView<C>>)
    requires
        ids_unique(q),
        q.len() >= 2,
    ensures
        !queued(q.subrange(2, q.len() as int), id_at(q, 0)),
        !queued(q.subrange(2, q.len() as int), id_at(q, 1)),
{
    let r = q.subrange(2, q.len() as int);
    if queued(r, id_at(q, 0)) {
        let j = choose|j: int| 0 <= j < r.len() && #[trigger] id_at(r, j) == id_at(q, 0);
        assert(id_at(q, j + 2) == id_at(q, 0));
    }
    if queued(r, id_at(q, 1)) {
        let j = choose|j: int| 0 <= j < r.len() && #[trigger] id_at(r, j) == id_at(q, 1);
        assert(id_at(q, j + 2) == id_at(q, 1));
    }
}

/// Two pairs taken out one after the other share no identity.
pub proof fn lemma_successive_pairs_disjoint<C>(q: Seq<EntryView<C>>)
    requires
        ids_unique(q),
        q.len() >= 4,
    ensures
        ({
            let rest = q.subrange(2, q.len() as int);
            &&& id_at(rest, 0) != id_at(q, 0) && id_at(rest, 0) != id_at(q, 1)
            &&& id_at(rest, 1) != id_at(q, 0) && id_at(rest, 1) != id_at(q, 1)
        }),
{
    assert(id_at(q.subrange(2, q.len() as int), 0) == id_at(q, 2));
    assert(id_at(q.subrange(2, q.len() as int), 1) == id_at(q, 3));
}

impl<C> MatchQueue<C> {
    pub closed spec fn view(&self) -> Seq<EntryView<C>> {
        self.entries@.map_values(|e: (SessionID, C)| (e.0@, e.1))
    }

    pub open spec fn wf(&self) -> bool {
        ids_unique(self@)
    }

    pub fn new() -> (r: MatchQueue<C>)
        ensures
            r@ == Seq::<EntryView<C>>::empty(),
            r.wf(),
    {
        MatchQueue { entries: Vec::new() }
    }

    pub fn len(&self) -> (r: usize)
        ensures
            r == self@.len(),
    {
        self.entries.len()
    }

    /// Position of the entry of `id`, if it is queued.
    pub fn position(&self, id: &SessionID) -> (r: Option<usize>)
        requires
            self.wf(),
        ensures
            r.is_none() <==> !queued(self@, id@),
            r.is_some() ==> r.unwrap() < self@.len() && id_at(self@, r.unwrap() as int) == id@,
    {
        let mut i: usize = 0;
        while i < self.entries.len()
            invariant
                i <= self.entries@.len(),
                self@.len() == self.entries@.len(),
                forall|k: int| 0 <= k < i ==> id_at(self@, k) != id@,
            decreases self.entries@.len() - i,
        {
            if self.entries[i].0 == *id {
                assert(id_at(self@, i as int) == id@);
                return Some(i);
            }
            i = i + 1;
        }
        None
    }

    /// Adds `id` with connection `conn`; an entry already queued under `id`
    /// keeps its place and has its connection replaced.
    pub fn enqueue(&mut self, id: SessionID, conn: C)
        requires
            old(self).wf(),
        ensures
            final(self).wf(),
            enqueued(old(self)@, final(self)@, id@, conn),
    {
        match self.position(&id) {
            Some(i) => {
                let ghost v = id@;
                self.entries.set(i, (id, conn));
                assert(self@ =~= old(self)@.update(i as int, (v, conn)));
                assert forall|a: int, b: int|
                    0 <= a < self@.len() && 0 <= b < self@.len() && a != b implies
                    #[trigger] id_at(self@, a) != #[trigger] id_at(self@, b) by {
                    assert(id_at(old(self)@, a) != id_at(old(self)@, b));
                }
            },
            None => {
                let ghost v = id@;
                self.entries.push((id, conn));
                assert(self@ =~= old(self)@.push((v, conn)));
                assert forall|a: int, b: int|
                    0 <= a < self@.len() && 0 <= b < self@.len() && a != b implies
                    #[trigger] id_at(self@, a) != #[trigger] id_at(self@, b) by {
                    if a < old(self)@.len() && b < old(self)@.len() {
                        assert(id_at(old(self)@, a) != id_at(old(self)@, b));
                    } else if a < old(self)@.len() {
                        assert(id_at(old(self)@, a) != v);
                    } else if b < old(self)@.len() {
                        assert(id_at(old(self)@, b) != v);
                    }
                }
            },
        }
    }

    /// Removes the entry of `id`, if it is queued.
    pub fn cancel(&mut self, id: &SessionID)
        requires
            old(self).wf(),
        ensures
            final(self).wf(),
            !queued(final(self)@, id@),
            queued(old(self)@, id@) ==> exists|i: int|
                0 <= i < old(self)@.len() && id_at(old(self)@, i) == id@
                && final(self)@ == old(self)@.remove(i),
            !queued(old(self)@, id@) ==> final(self)@ == old(self)@,
    {
        match self.position(id) {
            Some(i) => {
                self.entries.remove(i);
                assert(self@ =~= old(self)@.remove(i as int));
                proof {
                    lemma_unique_remove(old(self)@, i as int);
                    if queued(self@, id@) {
                        let j = choose|j: int| 0 <= j < self@.len() && #[trigger] id_at(self@, j) == id@;
                        let j2 = if j < i { j } else { j + 1 };
                        assert(id_at(old(self)@, j2) == id@);
                        assert(id_at(old(self)@, i as int) == id@);
                    }
                }
            },
            None => {},
        }
    }

    /// Takes the two earliest entries out of the queue in one step, or
    /// nothing when fewer than two are waiting.
    pub fn extract_pair(&mut self) -> (r: Option<((SessionID, C), (SessionID, C))>)
        requires
            old(self).wf(),
        ensures
            final(self).wf(),
            r.is_some() <==> old(self)@.len() >= 2,
            r.is_some() ==> pair_view(r.unwrap()) == (old(self)@[0], old(self)@[1])
                && final(self)@ == old(self)@.subrange(2, old(self)@.len() as int),
            r.is_none() ==> final(self)@ == old(self)@,
    {
        if self.entries.len() < 2 {
            return None;
        }
        let first = self.entries.remove(0);
        let second = self.entries.remove(0);
        assert(self@ =~= old(self)@.subrange(2, old(self)@.len() as int));
        proof {
            lemma_unique_suffix(old(self)@, 2);
        }
        Some((first, second))
    }

    /// Takes every pair out of the queue, earliest first, leaving at most
    /// one entry behind.
    pub fn extract_all_pairs(&mut self) -> (r: Vec<((SessionID, C), (SessionID, C))>)
        requires
            old(self).wf(),
        ensures
            final(self).wf(),
            r@.map_values(|p: ((SessionID, C), (SessionID, C))| pair_view(p)) == pairs_of(old(self)@),
            final(self)@ == old(self)@.subrange(2 * (old(self)@.len() / 2) as int, old(self)@.len() as int),
            final(self)@.len() == old(self)@.len() % 2,
    {
        let mut out: Vec<((SessionID, C), (SessionID, C))> = Vec::new();
        let ghost q0 = self@;
        loop
            invariant
                self.wf(),
                self@ == q0.subrange(2 * out@.len() as int, q0.len() as int),
                2 * out@.len() <= q0.len(),
                forall|k: int| 0 <= k < out@.len() ==>
                    #[trigger] pair_view(out@[k]) == (q0[2 * k], q0[2 * k + 1]),
            ensures
                out@.len() == q0.len() / 2,
            decreases self@.len(),
        {
            match self.extract_pair() {
                Some(p) => {
                    out.push(p);
                    assert(self@ =~= q0.subrange(2 * out@.len() as int, q0.len() as int));
                },
                None => {
                    break;
                },
            }
        }
        assert(out@.map_values(|p: ((SessionID, C), (SessionID, C))| pair_view(p)) =~= pairs_of(q0));
        out
    }
}

} // verus!
