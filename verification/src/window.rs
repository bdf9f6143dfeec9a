//! The incremental observation window: ordering and deduplication of
//! overlapping snapshot polls.
//!
//! A poll of the upstream snapshot source returns an unordered batch that may
//! overlap earlier polls, contain duplicates, or be empty. The window turns
//! those batches into a single stream that is strictly increasing in time and
//! delivers each distinct observation at most once. Polling itself (the tick
//! and the fetch) lives with the caller; the window only ingests batches and
//! hands observations out one at a time.

use vstd::prelude::*;

verus! {

use crate::parser::Observation;

/// The observations of `s` are strictly increasing in time: non-decreasing,
/// with no two observations sharing the same time.
pub open spec fn chronological(s: Seq<Observation>) -> bool {
    forall|i: int, j: int| 0 <= i < j < s.len() ==> s[i].time < s[j].time
}

/// Every observation of `s` is at or before time `c`.
pub open spec fn times_at_most(s: Seq<Observation>, c: int) -> bool {
    forall|k: int| 0 <= k < s.len() ==> s[k].time <= c
}

/// Some observation of `s` is at time `c` exactly.
pub open spec fn has_time(s: Seq<Observation>, c: int) -> bool {
    exists|k: int| 0 <= k < s.len() && s[k].time == c
}

/// The cursor state of the observation window.
///
/// `pending` buffers observations already accepted from a poll but not yet
/// handed to the consumer, oldest first. `last_emitted_time` is the
/// high-water mark: the largest time ever accepted, used to drop
/// already-seen observations on the next poll. `emitted` is the history of
/// everything handed out, kept only for specification.
pub struct ObservationWindow {
    pub last_emitted_time: Option<i64>,
    pub pending: Vec<Observation>,
    pub emitted: Ghost<Seq<Observation>>,
}

impl ObservationWindow {
    /// The window invariant: everything emitted, then everything pending,
    /// forms one strictly chronological stream, and the high-water mark
    /// bounds all of it; before the first accepted batch there is no mark
    /// and nothing buffered or emitted.
    pub open spec fn wf(self) -> bool {
        &&& chronological(self.emitted@)
        &&& chronological(self.pending@)
        &&& forall|i: int, j: int|
            0 <= i < self.emitted@.len() && 0 <= j < self.pending@.len()
                ==> self.emitted@[i].time < self.pending@[j].time
        &&& match self.last_emitted_time {
            None => self.emitted@.len() == 0 && self.pending@.len() == 0,
            Some(m) => times_at_most(self.emitted@, m as int) && times_at_most(
                self.pending@,
                m as int,
            ),
        }
    }

    pub fn new() -> (w: ObservationWindow)
        ensures
            w.wf(),
            w.last_emitted_time is None,
            w.pending@.len() == 0,
            w.emitted@.len() == 0,
    {
        ObservationWindow {
            last_emitted_time: None,
            pending: Vec::new(),
            emitted: Ghost(Seq::empty()),
        }
    }

    /// Accepts one raw poll batch: drops everything already seen (at or
    /// before the high-water mark), deduplicates by time, buffers the rest
    /// in chronological order and advances the mark.
    pub fn ingest(&mut self, batch: &Vec<Observation>)
        requires
            old(self).wf(),
        ensures
            final(self).wf(),
            ingest_rel(*old(self), batch@, *final(self)),
    {
        let ghost pre = *old(self);
        let ghost n0 = pre.pending@.len() as int;
        if batch.len() == 0 {
            proof {
                assert(self.pending@.take(n0) =~= pre.pending@);
            }
            return ;
        }
        if self.last_emitted_time.is_none() {
            let idx = latest_index(batch);
            let o = batch[idx];
            self.pending.push(o);
            self.last_emitted_time = Some(o.time);
            proof {
                assert(batch@.contains(o)) by {
                    assert(batch@[idx as int] == o);
                }
                assert(self.pending@.take(n0) =~= pre.pending@);
                assert(self.pending@[n0] == o);
            }
            return ;
        }
        let m = self.last_emitted_time.unwrap();
        // the latest batch time bounds how far the cutoff can climb, which
        // bounds the number of rounds below
        let mx_idx = latest_index(batch);
        let ghost mx = batch@[mx_idx as int].time as int;
        let mut cutoff: i64 = m;
        proof {
            assert(self.pending@.take(n0) =~= pre.pending@);
            assert(self.pending@.skip(n0) =~= Seq::<Observation>::empty());
        }
        loop
            invariant
                pre.wf(),
                n0 == pre.pending@.len(),
                pre.last_emitted_time == Some(m),
                self.last_emitted_time == Some(m),
                self.emitted@ == pre.emitted@,
                batch@.len() > 0,
                times_at_most(batch@, mx),
                has_time(batch@, mx),
                m <= cutoff,
                self.pending@.len() >= n0,
                self.pending@.take(n0) == pre.pending@,
                forall|i: int|
                    n0 <= i < self.pending@.len() ==> batch@.contains(#[trigger] self.pending@[i])
                        && self.pending@[i].time > m,
                chronological(self.pending@.skip(n0)),
                forall|i: int|
                    n0 <= i < self.pending@.len() ==> #[trigger] self.pending@[i].time <= cutoff,
                self.pending@.len() == n0 ==> cutoff == m,
                self.pending@.len() > n0 ==> cutoff
                    == self.pending@[self.pending@.len() - 1].time,
                cutoff == m || (cutoff > m && has_time(batch@, cutoff as int)),
                forall|k: int|
                    0 <= k < batch@.len() && m < #[trigger] batch@[k].time && batch@[k].time
                        <= cutoff ==> has_time(self.pending@.skip(n0), batch@[k].time as int),
            ensures
                forall|k: int| 0 <= k < batch@.len() ==> #[trigger] batch@[k].time <= cutoff,
            decreases (if cutoff <= mx {
                mx - cutoff + 1
            } else {
                0
            }),
        {
            let found = min_index_above(batch, cutoff);
            match found {
                None => {
                    break ;
                },
                Some(idx) => {
                    let o = batch[idx];
                    let ghost p_before = self.pending@;
                    self.pending.push(o);
                    let ghost t_old = cutoff;
                    cutoff = o.time;
                    proof {
                        assert(batch@.contains(o)) by {
                            assert(batch@[idx as int] == o);
                        }
                        assert(self.pending@.take(n0) =~= p_before.take(n0));
                        assert(self.pending@.skip(n0) =~= p_before.skip(n0).push(o));
                        // no batch time lies strictly between the old cutoff
                        // and the newly accepted time, so accepting `o`
                        // keeps the coverage of (m, cutoff] complete
                        assert forall|k: int|
                            0 <= k < batch@.len() && m < #[trigger] batch@[k].time && batch@[
                                k
                            ].time <= cutoff implies has_time(
                            self.pending@.skip(n0),
                            batch@[k].time as int,
                        ) by {
                            if batch@[k].time <= t_old {
                                assert(has_time(p_before.skip(n0), batch@[k].time as int));
                                let w = choose|w: int|
                                    0 <= w < p_before.skip(n0).len() && p_before.skip(n0)[
                                        w
                                    ].time == batch@[k].time;
                                assert(self.pending@.skip(n0)[w].time == batch@[k].time);
                            } else {
                                // minimality: batch@[k].time > t_old, so o.time <= batch@[k].time
                                assert(self.pending@.skip(n0).last().time == batch@[k].time);
                            }
                        }
                    }
                },
            }
        }
        self.last_emitted_time = Some(cutoff);
        proof {
            let p1 = self.pending@;
            assert forall|i: int, j: int| 0 <= i < j < p1.len() implies p1[i].time < p1[
                j
            ].time by {
                if j < n0 {
                    assert(p1[i] == pre.pending@[i]);
                    assert(p1[j] == pre.pending@[j]);
                } else if i < n0 {
                    assert(p1[i] == pre.pending@[i]);
                    assert(p1[i].time <= m);
                } else {
                    assert(p1.skip(n0)[i - n0] == p1[i]);
                    assert(p1.skip(n0)[j - n0] == p1[j]);
                }
            }
            assert forall|i: int, j: int|
                0 <= i < self.emitted@.len() && 0 <= j < p1.len() implies self.emitted@[
                i
            ].time < p1[j].time by {
                if j < n0 {
                    assert(p1[j] == pre.pending@[j]);
                } else {
                    assert(self.emitted@[i].time <= m);
                }
            }
            assert forall|k: int| 0 <= k < p1.len() implies p1[k].time <= cutoff by {
                if k < n0 {
                    assert(p1[k] == pre.pending@[k]);
                    assert(p1[k].time <= m);
                }
            }
        }
    }

    /// Hands out the oldest buffered observation, or `None` when the buffer
    /// is empty and the caller should poll again.
    pub fn next(&mut self) -> (r: Option<Observation>)
        requires
            old(self).wf(),
        ensures
            final(self).wf(),
            final(self).last_emitted_time == old(self).last_emitted_time,
            match r {
                None => {
                    &&& old(self).pending@.len() == 0
                    &&& final(self).pending@ == old(self).pending@
                    &&& final(self).emitted@ == old(self).emitted@
                },
                Some(o) => {
                    &&& old(self).pending@.len() > 0
                    &&& o == old(self).pending@[0]
                    &&& final(self).pending@ == old(self).pending@.skip(1)
                    &&& final(self).emitted@ == old(self).emitted@.push(o)
                },
            },
    {
        if self.pending.len() == 0 {
            return None;
        }
        let o = self.pending.remove(0);
        proof {
            self.emitted@ = self.emitted@.push(o);
            assert(self.pending@ =~= old(self).pending@.skip(1));
            assert forall|i: int, j: int|
                0 <= i < j < self.emitted@.len() implies self.emitted@[i].time < self.emitted@[
                j
            ].time by {
                if j == self.emitted@.len() - 1 {
                    assert(self.emitted@[i] == old(self).emitted@[i]);
                }
            }
        }
        Some(o)
    }
}

/// Everything one refill accomplishes, relating the window before a poll
/// (`pre`), the raw batch the poll returned, and the window after (`post`).
///
/// An empty batch (a failed or silent poll) changes nothing. The first
/// non-empty batch contributes exactly one observation, the latest in the
/// batch, and starts the high-water mark there. Afterwards a batch
/// contributes exactly the times strictly newer than the mark, one
/// observation per distinct time, in chronological order, and the mark
/// advances to the latest accepted time. Earlier buffered observations and
/// the emitted history are never touched.
pub open spec fn ingest_rel(
    pre: ObservationWindow,
    batch: Seq<Observation>,
    post: ObservationWindow,
) -> bool {
    let p0 = pre.pending@;
    let p1 = post.pending@;
    let n0 = p0.len() as int;
    &&& post.emitted@ == pre.emitted@
    &&& p1.len() >= n0
    &&& p1.take(n0) == p0
    &&& if batch.len() == 0 {
        p1 == p0 && post.last_emitted_time == pre.last_emitted_time
    } else {
        match pre.last_emitted_time {
            None => {
                &&& p1.len() == n0 + 1
                &&& batch.contains(p1[n0])
                &&& times_at_most(batch, p1[n0].time as int)
                &&& post.last_emitted_time == Some(p1[n0].time)
            },
            Some(m) => {
                &&& forall|i: int|
                    n0 <= i < p1.len() ==> batch.contains(#[trigger] p1[i]) && p1[i].time > m
                &&& chronological(p1.skip(n0))
                &&& forall|k: int|
                    0 <= k < batch.len() && #[trigger] batch[k].time > m ==> has_time(
                        p1.skip(n0),
                        batch[k].time as int,
                    )
                &&& match post.last_emitted_time {
                    Some(c) => {
                        &&& c >= m
                        &&& times_at_most(batch, c as int)
                        &&& (c == m || (c > m && has_time(batch, c as int)))
                    },
                    None => false,
                }
            },
        }
    }
}

/// Law: delivering the same raw batch twice in a row changes nothing the
/// second time. Whatever window `w1` a poll of `batch` produced, a second
/// poll returning the same `batch` keeps zero observations and leaves the
/// high-water mark where it was.
pub proof fn lemma_ingest_idempotent(
    w0: ObservationWindow,
    w1: ObservationWindow,
    w2: ObservationWindow,
    batch: Seq<Observation>,
)
    requires
        ingest_rel(w0, batch, w1),
        ingest_rel(w1, batch, w2),
    ensures
        w2.pending@ == w1.pending@,
        w2.last_emitted_time == w1.last_emitted_time,
        w2.emitted@ == w1.emitted@,
{
    let n1 = w1.pending@.len() as int;
    if batch.len() > 0 {
        // after the first poll the mark bounds every time in the batch,
        // so nothing in the batch is strictly newer the second time
        let c1 = w1.last_emitted_time->Some_0;
        assert(times_at_most(batch, c1 as int));
        if w2.pending@.len() > n1 {
            assert(batch.contains(w2.pending@[n1]) && w2.pending@[n1].time > c1);
            let k = choose|k: int| 0 <= k < batch.len() && batch[k] == w2.pending@[n1];
            assert(batch[k].time <= c1);
            assert(false);
        }
        assert(w2.pending@ =~= w2.pending@.take(n1));
        match w2.last_emitted_time {
            Some(c2) => {
                if c2 != c1 {
                    let k = choose|k: int| 0 <= k < batch.len() && batch[k].time == c2;
                    assert(batch[k].time <= c1);
                }
            },
            None => {},
        }
    }
}

/// Law: the very first non-empty batch contributes exactly one observation,
/// the latest one in the batch, and the high-water mark starts at its time.
pub proof fn lemma_bootstrap_keeps_only_latest(
    w0: ObservationWindow,
    batch: Seq<Observation>,
    w1: ObservationWindow,
)
    requires
        w0.last_emitted_time is None,
        batch.len() > 0,
        ingest_rel(w0, batch, w1),
    ensures
        w1.pending@.len() == w0.pending@.len() + 1,
        batch.contains(w1.pending@.last()),
        times_at_most(batch, w1.pending@.last().time as int),
        w1.last_emitted_time == Some(w1.pending@.last().time),
{
}

/// Law: every observation stream a well-formed window has emitted is
/// strictly increasing in time — non-decreasing, and no two emitted
/// observations share the same time.
pub proof fn lemma_emitted_chronological(w: ObservationWindow)
    requires
        w.wf(),
    ensures
        chronological(w.emitted@),
{
}

/// Index of an observation with the latest time in a non-empty batch.
fn latest_index(batch: &Vec<Observation>) -> (r: usize)
    requires
        batch@.len() > 0,
    ensures
        r < batch@.len(),
        times_at_most(batch@, batch@[r as int].time as int),
{
    let mut best: usize = 0;
    let mut i: usize = 1;
    while i < batch.len()
        invariant
            best < i <= batch@.len(),
            forall|k: int| 0 <= k < i ==> batch@[k].time <= batch@[best as int].time,
        decreases batch@.len() - i,
    {
        if batch[i].time > batch[best].time {
            best = i;
        }
        i += 1;
    }
    best
}

/// Index of an observation with the smallest time strictly above `cutoff`,
/// or `None` if the whole batch is at or before `cutoff`.
fn min_index_above(batch: &Vec<Observation>, cutoff: i64) -> (r: Option<usize>)
    ensures
        match r {
            Some(idx) => {
                &&& idx < batch@.len()
                &&& batch@[idx as int].time > cutoff
                &&& forall|k: int|
                    0 <= k < batch@.len() && #[trigger] batch@[k].time > cutoff
                        ==> batch@[idx as int].time <= batch@[k].time
            },
            None => forall|k: int| 0 <= k < batch@.len() ==> #[trigger] batch@[k].time <= cutoff,
        },
{
    let mut r: Option<usize> = None;
    let mut i: usize = 0;
    while i < batch.len()
        invariant
            i <= batch@.len(),
            match r {
                Some(idx) => {
                    &&& idx < i
                    &&& batch@[idx as int].time > cutoff
                    &&& forall|k: int|
                        0 <= k < i && #[trigger] batch@[k].time > cutoff
                            ==> batch@[idx as int].time <= batch@[k].time
                },
                None => forall|k: int| 0 <= k < i ==> #[trigger] batch@[k].time <= cutoff,
            },
        decreases batch@.len() - i,
    {
        let better = match r {
            Some(idx) => batch[i].time > cutoff && batch[i].time < batch[idx].time,
            None => batch[i].time > cutoff,
        };
        if better {
            r = Some(i);
        }
        i += 1;
    }
    r
}

} // verus!
