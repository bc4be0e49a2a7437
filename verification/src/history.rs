//! History of metrics snapshots: a ring buffer that keeps the newest
//! snapshots, each with the time it was taken (milliseconds since the
//! epoch). The snapshots themselves are the application's.
use vstd::prelude::*;

verus! {

/// The entries after a snapshot is added: when the history is full the
/// oldest entry makes room.
pub open spec fn pushed<T>(s: Seq<(i64, T)>, max_size: usize, e: (i64, T)) -> Seq<(i64, T)> {
    if s.len() >= max_size && s.len() > 0 {
        s.drop_first().push(e)
    } else {
        s.push(e)
    }
}

/// The entries taken at or after `since`, in order.
pub open spec fn taken_since<T>(s: Seq<(i64, T)>, since: i64) -> Seq<(i64, T)> {
    s.filter(|e: (i64, T)| e.0 >= since)
}

/// The history as values.
pub struct HistoryView<T> {
    /// The entries, oldest first.
    pub entries: Seq<(i64, T)>,
    /// How many entries are kept.
    pub max_size: usize,
}

/// A ring buffer of snapshots.
pub struct MetricsHistory<T> {
    snapshots: Vec<(i64, T)>,
    max_size: usize,
}

impl<T> View for MetricsHistory<T> {
    type V = HistoryView<T>;

    closed spec fn view(&self) -> HistoryView<T> {
        HistoryView { entries: self.snapshots@, max_size: self.max_size }
    }
}

impl<T> MetricsHistory<T> {
    /// An empty history keeping `max_size` snapshots.
    pub fn new(max_size: usize) -> (r: Self)
        ensures
            r@.entries.len() == 0,
            r@.max_size == max_size,
    {
        MetricsHistory { snapshots: Vec::new(), max_size }
    }

    /// Adds a snapshot taken at `at_ms` (see [`pushed`]).
    pub fn push(&mut self, at_ms: i64, snapshot: T)
        ensures
            final(self)@ == (HistoryView {
                entries: pushed(old(self)@.entries, old(self)@.max_size, (at_ms, snapshot)),
                max_size: old(self)@.max_size,
            }),
    {
        if self.snapshots.len() >= self.max_size && self.snapshots.len() > 0 {
            let _oldest = self.snapshots.remove(0);
            proof {
                assert(self.snapshots@ =~= old(self)@.entries.drop_first());
            }
        }
        self.snapshots.push((at_ms, snapshot));
    }

    /// The snapshots taken at or after `since_ms`, oldest first.
    pub fn get_since(&self, since_ms: i64) -> (r: Vec<&T>)
        ensures
            r@.len() == taken_since(self@.entries, since_ms).len(),
            forall|k: int| 0 <= k < r@.len() ==> *r@[k] == #[trigger] taken_since(self@.entries, since_ms)[k].1,
    {
        let ghost s = self@.entries;
        let ghost pred = |e: (i64, T)| e.0 >= since_ms;
        let mut out: Vec<&T> = Vec::new();
        let mut i: usize = 0;
        proof {
            reveal(Seq::filter);
            assert(s.take(0).filter(pred) =~= Seq::<(i64, T)>::empty());
        }
        while i < self.snapshots.len()
            invariant
                s == self@.entries,
                pred == (|e: (i64, T)| e.0 >= since_ms),
                i <= s.len(),
                out@.len() == s.take(i as int).filter(pred).len(),
                forall|k: int| 0 <= k < out@.len() ==> *out@[k] == #[trigger] s.take(i as int).filter(pred)[k].1,
            decreases s.len() - i,
        {
            let ghost before = s.take(i as int).filter(pred);
            proof {
                assert(s.take(i as int + 1) =~= s.take(i as int).push(s[i as int]));
                s.take(i as int).lemma_filter_push(s[i as int], pred);
            }
            let e = &self.snapshots[i];
            if e.0 >= since_ms {
                out.push(&e.1);
                proof {
                    assert(s.take(i as int + 1).filter(pred) == before.push(s[i as int]));
                }
            } else {
                proof {
                    assert(s.take(i as int + 1).filter(pred) == before);
                }
            }
            i = i + 1;
        }
        proof {
            assert(s.take(i as int) =~= s);
        }
        out
    }

    /// All snapshots, oldest first.
    pub fn get_all(&self) -> (r: Vec<&T>)
        ensures
            r@.len() == self@.entries.len(),
            forall|k: int| 0 <= k < r@.len() ==> *r@[k] == #[trigger] self@.entries[k].1,
    {
        let mut out: Vec<&T> = Vec::new();
        let mut i: usize = 0;
        while i < self.snapshots.len()
            invariant
                i <= self@.entries.len(),
                out@.len() == i,
                forall|k: int| 0 <= k < i ==> *out@[k] == #[trigger] self@.entries[k].1,
            decreases self@.entries.len() - i,
        {
            out.push(&self.snapshots[i].1);
            i = i + 1;
        }
        out
    }

    /// Drops every snapshot.
    pub fn clear(&mut self)
        ensures
            final(self)@ == (HistoryView { entries: Seq::<(i64, T)>::empty(), max_size: old(self)@.max_size }),
    {
        self.snapshots.clear();
    }

    /// Drops the snapshots taken before `cutoff_ms`; the others stay in
    /// their order.
    pub fn cleanup_older_than(&mut self, cutoff_ms: i64)
        ensures
            final(self)@ == (HistoryView {
                entries: taken_since(old(self)@.entries, cutoff_ms),
                max_size: old(self)@.max_size,
            }),
    {
        let ghost s = self@.entries;
        let ghost pred = |e: (i64, T)| e.0 >= cutoff_ms;
        let before = self.snapshots.len();
        let mut rest: Vec<(i64, T)> = Vec::new();
        std::mem::swap(&mut rest, &mut self.snapshots);
        let mut kept: Vec<(i64, T)> = Vec::new();
        let mut i: usize = 0;
        proof {
            reveal(Seq::filter);
            assert(s.take(0).filter(pred) =~= Seq::<(i64, T)>::empty());
        }
        while rest.len() > 0
            invariant
                s.len() == before,
                pred == (|e: (i64, T)| e.0 >= cutoff_ms),
                i + rest@.len() == s.len(),
                rest@ == s.skip(i as int),
                kept@ == s.take(i as int).filter(pred),
            decreases rest@.len(),
        {
            let e = rest.remove(0);
            proof {
                assert(e == s[i as int]);
                assert(rest@ =~= s.skip(i as int + 1));
                assert(s.take(i as int + 1) =~= s.take(i as int).push(e));
                s.take(i as int).lemma_filter_push(e, pred);
            }
            if e.0 >= cutoff_ms {
                kept.push(e);
            }
            i = i + 1;
        }
        proof {
            assert(s.take(i as int) =~= s);
        }
        self.snapshots = kept;
    }

    /// The number of snapshots.
    pub fn len(&self) -> (r: usize)
        ensures
            r == self@.entries.len(),
    {
        self.snapshots.len()
    }

    /// Whether there is no snapshot.
    pub fn is_empty(&self) -> (r: bool)
        ensures
            r == (self@.entries.len() == 0),
    {
        self.snapshots.len() == 0
    }
}

/// A history with room for at least one snapshot never holds more than it
/// keeps, and after a snapshot is added it holds the newest ones: the
/// entries it had, then the new one, without the oldest when it was full.
pub proof fn lemma_ring_keeps_newest<T>(s: Seq<(i64, T)>, max_size: usize, e: (i64, T))
    requires
        max_size > 0,
        s.len() <= max_size,
    ensures
        pushed(s, max_size, e).len() <= max_size,
        pushed(s, max_size, e).last() == e,
        pushed(s, max_size, e) == s.push(e).skip(s.push(e).len() - pushed(s, max_size, e).len()),
        s.len() < max_size ==> pushed(s, max_size, e) == s.push(e),
{
    let p = s.push(e);
    if s.len() >= max_size {
        assert(s.drop_first().push(e) =~= p.skip(1));
    } else {
        assert(p.skip(0) =~= p);
    }
}

} // verus!
