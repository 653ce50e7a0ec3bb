//! Callback registry: the reactor's map from descriptor to pending operation.
//!
//! Each live descriptor carries exactly one registration — accept, read, or
//! write — created when the matching command is drained and removed when its
//! callback returns `DELETE` or the reactor shuts down. The map is dynamic,
//! keyed by descriptor value, so any descriptor number is accommodated; a
//! side vector mirrors the key set so shutdown can hand every registered
//! descriptor back for deregistration and closing.

use vstd::prelude::*;
use std::collections::HashMap;

verus! {

broadcast use vstd::std_specs::hash::group_hash_axioms;

/// A pending operation registered for one descriptor.
///
/// An accept or read registration names the callback to invoke on read
/// readiness. A write registration carries the bytes still to be sent, how
/// many of them have already gone out, and the identifier of the completion
/// cell to resolve when the registration is torn down.
pub enum Registration {
    Accept { callback: u64 },
    Read { callback: u64 },
    Write { payload: Vec<u8>, written: usize, completion: u64 },
}

/// Mathematical image of a `Registration`.
pub enum RegModel {
    Accept { callback: u64 },
    Read { callback: u64 },
    Write { payload: Seq<u8>, written: int, completion: u64 },
}

impl View for Registration {
    type V = RegModel;

    open spec fn view(&self) -> RegModel {
        match self {
            Registration::Accept { callback } => RegModel::Accept { callback: *callback },
            Registration::Read { callback } => RegModel::Read { callback: *callback },
            Registration::Write { payload, written, completion } => RegModel::Write {
                payload: payload@,
                written: *written as int,
                completion: *completion,
            },
        }
    }
}

impl RegModel {
    /// A registration is coherent when a write has sent no more than it holds.
    pub open spec fn wf(self) -> bool {
        match self {
            RegModel::Write { payload, written, .. } => 0 <= written <= payload.len(),
            _ => true,
        }
    }

    /// Whether readiness for this registration means write readiness
    /// (otherwise read readiness: accept and read both watch for reads).
    pub open spec fn is_write_interest(self) -> bool {
        self is Write
    }

    /// The pending bytes of a write registration (empty for any other kind).
    pub open spec fn write_payload(self) -> Seq<u8> {
        match self {
            RegModel::Write { payload, .. } => payload,
            _ => Seq::<u8>::empty(),
        }
    }

    /// How many payload bytes of a write registration have been sent (zero
    /// for any other kind).
    pub open spec fn write_written(self) -> int {
        match self {
            RegModel::Write { written, .. } => written,
            _ => 0,
        }
    }

    /// The completion cell a write registration resolves on teardown.
    pub open spec fn write_completion(self) -> Option<u64> {
        match self {
            RegModel::Write { completion, .. } => Some(completion),
            _ => None,
        }
    }
}

/// The image of a descriptor table: each value mapped to its model.
pub open spec fn table_view(t: Map<u64, Registration>) -> Map<u64, RegModel> {
    Map::new(|fd: u64| t.contains_key(fd), |fd: u64| t[fd]@)
}

/// Map from registered descriptor to its pending operation. At most one
/// registration per descriptor; the key set equals the set of descriptors
/// whose interest is currently registered with the multiplexer.
pub struct Registry {
    table: HashMap<u64, Registration>,
    keys: Vec<u64>,
}

impl View for Registry {
    type V = Map<u64, RegModel>;

    closed spec fn view(&self) -> Map<u64, RegModel> {
        table_view(self.table@)
    }
}

impl Registry {
    /// Internal invariant: the key vector mirrors the table's domain exactly,
    /// without duplicates, and every registration is coherent.
    pub closed spec fn wf(self) -> bool {
        &&& self.keys@.no_duplicates()
        &&& forall|fd: u64| #![auto] self.table@.contains_key(fd) <==> self.keys@.contains(fd)
        &&& forall|fd: u64| self.table@.contains_key(fd) ==> (#[trigger] self.table@[fd])@.wf()
    }

    /// Every registration in a well-formed registry is itself coherent.
    pub proof fn lemma_values_wf(&self)
        requires
            self.wf(),
        ensures
            forall|fd: u64| self@.contains_key(fd) ==> (#[trigger] self@[fd]).wf(),
    {
        assert forall|fd: u64| self@.contains_key(fd) implies (#[trigger] self@[fd]).wf() by {
            assert(self.table@.contains_key(fd));
            assert(self@[fd] == self.table@[fd]@);
        }
    }

    /// An empty registry.
    pub fn new() -> (r: Self)
        ensures
            r.wf(),
            r@ == Map::<u64, RegModel>::empty(),
    {
        let r = Registry { table: HashMap::new(), keys: Vec::new() };
        proof {
            assert(r@ =~= Map::<u64, RegModel>::empty());
        }
        r
    }

    /// Number of registered descriptors.
    pub fn len(&self) -> (n: usize)
        requires
            self.wf(),
        ensures
            n == self@.dom().len(),
    {
        proof {
            self.lemma_key_count();
        }
        self.keys.len()
    }

    /// The key vector enumerates the view's domain.
    proof fn lemma_key_count(&self)
        requires
            self.wf(),
        ensures
            self@.dom().len() == self.keys@.len(),
            self@.dom().finite(),
    {
        assert(self@.dom() =~= self.keys@.to_set());
        self.keys@.unique_seq_to_set();
    }

    /// Whether `fd` currently has a registration.
    pub fn contains(&self, fd: u64) -> (r: bool)
        ensures
            r == self@.contains_key(fd),
    {
        self.table.contains_key(&fd)
    }

    /// The registration for `fd`, if any.
    pub fn get(&self, fd: u64) -> (r: Option<&Registration>)
        ensures
            match r {
                Some(reg) => self@.contains_key(fd) && reg@ == self@[fd],
                None => !self@.contains_key(fd),
            },
    {
        self.table.get(&fd)
    }

    /// Register `reg` for `fd`, replacing any earlier registration so that at
    /// most one is ever in force per descriptor.
    pub fn insert(&mut self, fd: u64, reg: Registration)
        requires
            old(self).wf(),
            reg@.wf(),
        ensures
            final(self).wf(),
            final(self)@ == old(self)@.insert(fd, reg@),
    {
        let ghost keys_old = self.keys@;
        if !self.table.contains_key(&fd) {
            self.keys.push(fd);
        }
        let ghost keys1 = self.keys@;
        self.table.insert(fd, reg);
        proof {
            if !old(self).table@.contains_key(fd) {
                assert(!keys_old.contains(fd));
                assert(keys1 == keys_old.push(fd));
                assert forall|a: int, b: int| 0 <= a < b < keys1.len() implies keys1[a]
                    != keys1[b] by {
                    if b == keys1.len() - 1 {
                        assert(keys1[a] == keys_old[a]);
                        assert(keys1[b] == fd);
                    }
                }
            }
            assert forall|k: u64| self.table@.contains_key(k) implies keys1.contains(k) by {
                if k == fd {
                    if old(self).table@.contains_key(fd) {
                        assert(keys1.contains(fd));
                    } else {
                        assert(keys1[keys1.len() - 1] == fd);
                    }
                } else {
                    assert(old(self).table@.contains_key(k));
                    assert(keys_old.contains(k));
                    let j = choose|j: int| 0 <= j < keys_old.len() && keys_old[j] == k;
                    assert(keys1[j] == k);
                }
            }
            assert forall|k: u64| keys1.contains(k) implies self.table@.contains_key(k) by {
                let j = choose|j: int| 0 <= j < keys1.len() && keys1[j] == k;
                if j < keys_old.len() {
                    assert(keys_old[j] == k);
                    assert(keys_old == old(self).keys@);
                    assert(old(self).keys@.contains(k));
                    assert(old(self).table@.contains_key(k));
                } else {
                    assert(k == fd);
                }
            }
            assert(self@ =~= old(self)@.insert(fd, reg@));
        }
    }

    /// Remove and return the registration for `fd`, if any.
    pub fn remove(&mut self, fd: u64) -> (r: Option<Registration>)
        requires
            old(self).wf(),
        ensures
            final(self).wf(),
            final(self)@ == old(self)@.remove(fd),
            match r {
                Some(reg) => old(self)@.contains_key(fd) && reg@ == old(self)@[fd],
                None => !old(self)@.contains_key(fd),
            },
    {
        let r = self.table.remove(&fd);
        let n = self.keys.len();
        let mut idx: usize = n;
        let mut i: usize = 0;
        while i < n
            invariant
                n == self.keys@.len(),
                0 <= i <= n,
                idx <= n,
                idx < n ==> self.keys@[idx as int] == fd,
                idx == n ==> forall|j: int| 0 <= j < i ==> self.keys@[j] != fd,
            decreases n - i,
        {
            if self.keys[i] == fd {
                idx = i;
            }
            i = i + 1;
        }
        if idx < self.keys.len() {
            let ghost keys0 = self.keys@;
            self.keys.remove(idx);
            proof {
                lemma_remove_keeps_no_duplicates(keys0, idx as int);
                assert forall|k: u64| self.table@.contains_key(k) implies self.keys@.contains(
                    k,
                ) by {
                    assert(old(self).table@.contains_key(k) && k != fd);
                    assert(keys0.contains(k));
                    let j = choose|j: int| 0 <= j < keys0.len() && keys0[j] == k;
                    assert(j != idx);
                    if j < idx {
                        assert(self.keys@[j] == k);
                    } else {
                        assert(self.keys@[j - 1] == k);
                    }
                }
                assert forall|k: u64| self.keys@.contains(k) implies self.table@.contains_key(
                    k,
                ) by {
                    let j = choose|j: int| 0 <= j < self.keys@.len() && self.keys@[j] == k;
                    if j < idx {
                        assert(keys0[j] == k);
                    } else {
                        assert(keys0[j + 1] == k);
                        assert(j + 1 != idx);
                    }
                    assert(keys0.contains(k));
                    assert(keys0 == old(self).keys@);
                    assert(old(self).table@.contains_key(k));
                    assert(k != fd) by {
                        assert(keys0[idx as int] == fd);
                    }
                }
                assert(final(self)@ =~= old(self)@.remove(fd));
            }
        } else {
            proof {
                assert(!old(self).keys@.contains(fd));
                assert(!old(self).table@.contains_key(fd));
                assert(self.table@ =~= old(self).table@);
                assert(final(self)@ =~= old(self)@.remove(fd));
            }
        }
        r
    }

    /// Tear every registration down, handing back the registered descriptors
    /// (each once, in no particular order) so the caller can deregister and
    /// close them; used when the reactor shuts down.
    pub fn drain(&mut self) -> (fds: Vec<u64>)
        requires
            old(self).wf(),
        ensures
            final(self).wf(),
            final(self)@ == Map::<u64, RegModel>::empty(),
            fds@.no_duplicates(),
            fds@.to_set() == old(self)@.dom(),
    {
        self.table.clear();
        let mut fds: Vec<u64> = Vec::new();
        std::mem::swap(&mut fds, &mut self.keys);
        proof {
            assert(final(self)@ =~= Map::<u64, RegModel>::empty());
            assert(fds@.to_set() =~= old(self)@.dom());
        }
        fds
    }
}

/// Removing one position from a duplicate-free sequence keeps it
/// duplicate-free.
proof fn lemma_remove_keeps_no_duplicates(s: Seq<u64>, i: int)
    requires
        s.no_duplicates(),
        0 <= i < s.len(),
    ensures
        s.remove(i).no_duplicates(),
{
    let t = s.remove(i);
    assert forall|a: int, b: int| 0 <= a < b < t.len() implies t[a] != t[b] by {
        let a0 = if a < i {
            a
        } else {
            a + 1
        };
        let b0 = if b < i {
            b
        } else {
            b + 1
        };
        assert(t[a] == s[a0]);
        assert(t[b] == s[b0]);
    }
}

} // verus!
