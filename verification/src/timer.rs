//! Timer set: the reactor's ordered collection of delayed callbacks.
//!
//! Each entry pairs an absolute deadline (in reactor clock ticks) with the
//! identifier of the callback to fire and of the completion cell to resolve
//! once it has fired. Entries are kept sorted by deadline ascending, so the
//! nearest deadline drives the multiplexer's wait timeout and expired entries
//! fire in ascending deadline order. Entries are one-shot: firing removes
//! them; there is no cancellation.

use vstd::prelude::*;

verus! {

/// One scheduled callback: fire `callback` once `deadline` has passed, then
/// resolve the completion cell named `completion` so the scheduling caller is
/// notified.
#[derive(Clone, Copy, Debug, PartialEq, Eq, Structural)]
pub struct TimerEntry {
    /// Absolute time at which the entry becomes due.
    pub deadline: u64,
    /// Identifier of the callback to fire.
    pub callback: u64,
    /// Identifier of the completion cell to resolve after firing.
    pub completion: u64,
}

/// Entries ordered by deadline, ascending.
pub open spec fn deadline_sorted(s: Seq<TimerEntry>) -> bool {
    forall|i: int, j: int| 0 <= i < j < s.len() ==> s[i].deadline <= s[j].deadline
}

/// Number of leading entries of `s` whose deadline is at most `d`; in a
/// sorted sequence, the position at which a new entry with deadline `d` is
/// inserted (after all its equals) and the count of entries due at time `d`.
pub open spec fn due_count(s: Seq<TimerEntry>, d: u64) -> int
    decreases s.len(),
{
    if s.len() == 0 {
        0
    } else if s[0].deadline <= d {
        1 + due_count(s.drop_first(), d)
    } else {
        0
    }
}

/// `due_count` is a well-placed split point: it lies within the sequence, every
/// entry before it is due at `d`, and in a sorted sequence every entry from it
/// on is not.
pub proof fn lemma_due_count_bounds(s: Seq<TimerEntry>, d: u64)
    ensures
        0 <= due_count(s, d) <= s.len(),
        forall|i: int| 0 <= i < due_count(s, d) ==> s[i].deadline <= d,
        deadline_sorted(s) ==> forall|i: int| due_count(s, d) <= i < s.len() ==> s[i].deadline > d,
    decreases s.len(),
{
    if s.len() > 0 {
        lemma_due_count_bounds(s.drop_first(), d);
        assert(forall|i: int| 0 < i < s.len() ==> s[i] == s.drop_first()[i - 1]);
        if deadline_sorted(s) {
            assert(deadline_sorted(s.drop_first()));
        }
    }
}

/// Any index that splits a sorted sequence into a due prefix and an overdue
/// suffix is `due_count`.
pub proof fn lemma_due_count_unique(s: Seq<TimerEntry>, d: u64, k: int)
    requires
        deadline_sorted(s),
        0 <= k <= s.len(),
        forall|i: int| 0 <= i < k ==> s[i].deadline <= d,
        k < s.len() ==> s[k].deadline > d,
    ensures
        k == due_count(s, d),
    decreases s.len(),
{
    if s.len() > 0 {
        assert(forall|i: int| 0 < i < s.len() ==> s[i] == s.drop_first()[i - 1]);
        if s[0].deadline <= d {
            assert(k != 0);
            lemma_due_count_unique(s.drop_first(), d, k - 1);
        } else {
            assert(k == 0);
        }
    }
}

/// Inserting an entry at its due-count position keeps the sequence sorted.
pub proof fn lemma_insert_at_due_count_sorted(s: Seq<TimerEntry>, e: TimerEntry)
    requires
        deadline_sorted(s),
    ensures
        deadline_sorted(s.insert(due_count(s, e.deadline), e)),
{
    let k = due_count(s, e.deadline);
    lemma_due_count_bounds(s, e.deadline);
    let t = s.insert(k, e);
    assert forall|a: int, b: int| 0 <= a < b < t.len() implies t[a].deadline <= t[b].deadline by {
        if a < k {
            assert(t[a] == s[a]);
        } else if a == k {
            assert(t[a] == e);
        } else {
            assert(t[a] == s[a - 1]);
        }
        if b < k {
            assert(t[b] == s[b]);
        } else if b == k {
            assert(t[b] == e);
        } else {
            assert(t[b] == s[b - 1]);
        }
    }
}

/// The set of pending timers, sorted by deadline ascending.
pub struct TimerSet {
    entries: Vec<TimerEntry>,
}

impl View for TimerSet {
    type V = Seq<TimerEntry>;

    closed spec fn view(&self) -> Seq<TimerEntry> {
        self.entries@
    }
}

impl TimerSet {
    /// Internal ordering invariant: entries sorted by deadline ascending.
    pub open spec fn wf(self) -> bool {
        deadline_sorted(self@)
    }

    /// An empty timer set.
    pub fn new() -> (r: Self)
        ensures
            r.wf(),
            r@ == Seq::<TimerEntry>::empty(),
    {
        TimerSet { entries: Vec::new() }
    }

    /// Number of pending timers.
    pub fn len(&self) -> (n: usize)
        ensures
            n == self@.len(),
    {
        self.entries.len()
    }

    /// Insert a timer with absolute deadline `deadline`; it lands after every
    /// entry with an equal or earlier deadline, so entries enqueued for the
    /// same instant fire in enqueue order.
    pub fn insert(&mut self, deadline: u64, callback: u64, completion: u64)
        requires
            old(self).wf(),
        ensures
            final(self).wf(),
            final(self)@ == old(self)@.insert(
                due_count(old(self)@, deadline),
                (TimerEntry { deadline, callback, completion }),
            ),
    {
        let mut i: usize = 0;
        while i < self.entries.len() && self.entries[i].deadline <= deadline
            invariant
                self.wf(),
                0 <= i <= self@.len(),
                forall|j: int| 0 <= j < i ==> self@[j].deadline <= deadline,
            decreases self@.len() - i,
        {
            i = i + 1;
        }
        proof {
            lemma_due_count_unique(self@, deadline, i as int);
        }
        self.entries.insert(i, TimerEntry { deadline, callback, completion });
        proof {
            let s = self@;
            let k = due_count(old(self)@, deadline);
            assert forall|a: int, b: int| 0 <= a < b < s.len() implies s[a].deadline
                <= s[b].deadline by {
                lemma_due_count_bounds(old(self)@, deadline);
            }
        }
    }

    /// The deadline nearest in time, if any timer is pending.
    pub fn next_deadline(&self) -> (r: Option<u64>)
        requires
            self.wf(),
        ensures
            match r {
                Some(d) => self@.len() > 0 && d == self@[0].deadline && forall|i: int|
                    0 <= i < self@.len() ==> d <= self@[i].deadline,
                None => self@.len() == 0,
            },
    {
        if self.entries.len() == 0 {
            None
        } else {
            Some(self.entries[0].deadline)
        }
    }

    /// How long the reactor may block at time `now` without missing a timer:
    /// `None` when no timer is pending (block indefinitely), otherwise the
    /// time remaining until the nearest deadline (zero once it has passed).
    /// The timeout is computed from the nearest deadline, never a constant,
    /// so an idle reactor does not busy-spin.
    pub fn wait_timeout(&self, now: u64) -> (r: Option<u64>)
        requires
            self.wf(),
        ensures
            match r {
                Some(t) => self@.len() > 0 && t == if self@[0].deadline > now {
                    self@[0].deadline - now
                } else {
                    0
                },
                None => self@.len() == 0,
            },
    {
        match self.next_deadline() {
            None => None,
            Some(d) => Some(if d > now {
                d - now
            } else {
                0
            }),
        }
    }

    /// Remove and return every entry due at time `now`, in ascending deadline
    /// order. Fired entries are gone for good: timers are one-shot.
    pub fn pop_expired(&mut self, now: u64) -> (fired: Vec<TimerEntry>)
        requires
            old(self).wf(),
        ensures
            final(self).wf(),
            fired@ == old(self)@.take(due_count(old(self)@, now)),
            final(self)@ == old(self)@.skip(due_count(old(self)@, now)),
            old(self)@ == fired@ + final(self)@,
            forall|i: int| 0 <= i < fired@.len() ==> fired@[i].deadline <= now,
            forall|i: int| 0 <= i < final(self)@.len() ==> final(self)@[i].deadline > now,
    {
        let ghost s0 = self@;
        proof {
            lemma_due_count_bounds(s0, now);
        }
        let mut fired: Vec<TimerEntry> = Vec::new();
        while self.entries.len() > 0 && self.entries[0].deadline <= now
            invariant
                deadline_sorted(s0),
                fired@.len() <= due_count(s0, now),
                fired@ == s0.take(fired@.len() as int),
                self@ == s0.skip(fired@.len() as int),
                self@.len() > 0 ==> (fired@.len() < due_count(s0, now) <==> self@[0].deadline
                    <= now),
                self@.len() == 0 ==> fired@.len() == due_count(s0, now),
            decreases self@.len(),
        {
            proof {
                lemma_due_count_bounds(s0, now);
                assert(s0[fired@.len() as int] == self@[0]);
            }
            let e = self.entries.remove(0);
            fired.push(e);
            proof {
                assert(fired@ =~= s0.take(fired@.len() as int));
                assert(self@ =~= s0.skip(fired@.len() as int));
                if self@.len() > 0 {
                    assert(self@[0] == s0[fired@.len() as int]);
                    lemma_due_count_bounds(s0, now);
                }
            }
        }
        proof {
            lemma_due_count_bounds(s0, now);
            let k = due_count(s0, now);
            if self@.len() > 0 {
                assert(fired@.len() == k);
            }
            assert(fired@.len() == k);
            assert(deadline_sorted(self@)) by {
                assert(forall|i: int| 0 <= i < self@.len() ==> self@[i] == s0[k + i]);
            }
            assert(s0 =~= fired@ + self@);
        }
        fired
    }
}

} // verus!
