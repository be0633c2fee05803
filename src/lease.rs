//! Leases that keep concurrent callers from deriving the same value twice.

use vstd::prelude::*;

verus! {

/// Namespace of the lease that guards derivation of missing mapping entries.
pub const HG_GENERATION_LEASE: &'static str = "bonsai-hg-generation";

/// What a caller learns when it asks for a lease.
#[derive(Clone, Copy, Debug, PartialEq, Eq, Structural)]
pub enum LeaseOutcome {
    /// The caller holds the lease and computes the value.
    Won,
    /// Another caller holds it; this one waits or reads later.
    Lost,
}

/// The outcome of asking for `k` while the leases `held` are taken.
pub open spec fn acquire_outcome(held: Set<(Seq<char>, Seq<char>)>, k: (Seq<char>, Seq<char>)) -> LeaseOutcome {
    if held.contains(k) {
        LeaseOutcome::Lost
    } else {
        LeaseOutcome::Won
    }
}

/// Leases held, by namespace and key, shared by every caller of one backend.
pub struct LeaseTable {
    pub held: Vec<(String, String)>,
}

impl View for LeaseTable {
    type V = Set<(Seq<char>, Seq<char>)>;

    open spec fn view(&self) -> Set<(Seq<char>, Seq<char>)> {
        Set::new(|p: (Seq<char>, Seq<char>)| exists|i: int| 0 <= i < self.held@.len()
            && #[trigger] self.held@[i].0@ == p.0 && self.held@[i].1@ == p.1)
    }
}

impl LeaseTable {
    /// Each lease is recorded once.
    pub open spec fn wf(&self) -> bool {
        forall|a: int, b: int| 0 <= a < b < self.held@.len() ==> !(
            #[trigger] self.held@[a].0@ == #[trigger] self.held@[b].0@
            && self.held@[a].1@ == self.held@[b].1@)
    }

    pub fn new() -> (r: Self)
        ensures
            r.wf(),
            r@ == Set::<(Seq<char>, Seq<char>)>::empty(),
    {
        let r = LeaseTable { held: Vec::new() };
        assert(r@ =~= Set::<(Seq<char>, Seq<char>)>::empty());
        r
    }

    fn position(&self, namespace: &String, key: &String) -> (r: Option<usize>)
        ensures
            match r {
                Some(i) => i < self.held@.len() && self.held@[i as int].0@ == namespace@
                    && self.held@[i as int].1@ == key@,
                None => !self@.contains((namespace@, key@)),
            },
    {
        let mut i: usize = 0;
        while i < self.held.len()
            invariant
                i <= self.held@.len(),
                forall|j: int| 0 <= j < i ==> !(#[trigger] self.held@[j].0@ == namespace@
                    && self.held@[j].1@ == key@),
            decreases self.held@.len() - i,
        {
            if self.held[i].0 == *namespace && self.held[i].1 == *key {
                return Some(i);
            }
            i = i + 1;
        }
        None
    }

    /// Takes the lease on `(namespace, key)` if nobody holds it.
    pub fn acquire(&mut self, namespace: &String, key: &String) -> (r: LeaseOutcome)
        requires
            old(self).wf(),
        ensures
            final(self).wf(),
            r == acquire_outcome(old(self)@, (namespace@, key@)),
            final(self)@ == old(self)@.insert((namespace@, key@)),
    {
        match self.position(namespace, key) {
            Some(_) => {
                assert(self@.insert((namespace@, key@)) =~= self@);
                LeaseOutcome::Lost
            },
            None => {
                let ghost before = self.held@;
                self.held.push((namespace.clone(), key.clone()));
                proof {
                    let n = before.len() as int;
                    assert(self.held@[n].0@ == namespace@ && self.held@[n].1@ == key@);
                    assert forall|p: (Seq<char>, Seq<char>)|
                        self@.contains(p) == old(self)@.insert((namespace@, key@)).contains(p) by {
                        if old(self)@.contains(p) {
                            let j = choose|j: int| 0 <= j < before.len()
                                && #[trigger] before[j].0@ == p.0 && before[j].1@ == p.1;
                            assert(self.held@[j] == before[j]);
                        }
                        if self@.contains(p) {
                            let j = choose|j: int| 0 <= j < self.held@.len()
                                && #[trigger] self.held@[j].0@ == p.0 && self.held@[j].1@ == p.1;
                            if j < n {
                                assert(self.held@[j] == before[j]);
                            }
                        }
                    }
                    assert(self@ =~= old(self)@.insert((namespace@, key@)));
                    assert forall|a: int, b: int| 0 <= a < b < self.held@.len() implies !(
                        #[trigger] self.held@[a].0@ == #[trigger] self.held@[b].0@
                        && self.held@[a].1@ == self.held@[b].1@) by {
                        assert(self.held@[a] == before[a]);
                        if b < n {
                            assert(self.held@[b] == before[b]);
                        }
                    }
                }
                LeaseOutcome::Won
            },
        }
    }

    /// Gives up the lease on `(namespace, key)`.
    pub fn release(&mut self, namespace: &String, key: &String)
        requires
            old(self).wf(),
        ensures
            final(self).wf(),
            final(self)@ == old(self)@.remove((namespace@, key@)),
    {
        match self.position(namespace, key) {
            None => {
                assert(self@.remove((namespace@, key@)) =~= self@);
            },
            Some(i) => {
                let ghost before = self.held@;
                self.held.remove(i);
                proof {
                    assert forall|a: int, b: int| 0 <= a < b < self.held@.len() implies !(
                        #[trigger] self.held@[a].0@ == #[trigger] self.held@[b].0@
                        && self.held@[a].1@ == self.held@[b].1@) by {
                        let a0 = if a < i { a } else { a + 1 };
                        let b0 = if b < i { b } else { b + 1 };
                        assert(self.held@[a] == before[a0] && self.held@[b] == before[b0]);
                    }
                    assert forall|p: (Seq<char>, Seq<char>)|
                        self@.contains(p) == old(self)@.remove((namespace@, key@)).contains(p) by {
                        if self@.contains(p) {
                            let j = choose|j: int| 0 <= j < self.held@.len()
                                && #[trigger] self.held@[j].0@ == p.0 && self.held@[j].1@ == p.1;
                            let j0 = if j < i { j } else { j + 1 };
                            assert(self.held@[j] == before[j0]);
                            assert(before[j0].0@ == p.0);
                        }
                        if old(self)@.remove((namespace@, key@)).contains(p) {
                            let m = choose|m: int| 0 <= m < before.len()
                                && #[trigger] before[m].0@ == p.0 && before[m].1@ == p.1;
                            assert(m != i);
                            let j = if m < i { m } else { m - 1 };
                            assert(self.held@[j] == before[m]);
                            assert(self.held@[j].0@ == p.0);
                        }
                    }
                    assert(self@ =~= old(self)@.remove((namespace@, key@)));
                }
            },
        }
    }
}

/// The lease a repository handle derives under.
pub enum Lease {
    /// Always grants the lease and never coordinates; for the development profile.
    Dummy,
    /// Coordinates every caller that shares the table.
    Distributed(LeaseTable),
}

impl Lease {
    pub open spec fn wf(&self) -> bool {
        match self {
            Lease::Dummy => true,
            Lease::Distributed(t) => t.wf(),
        }
    }

    /// The leases held, or `None` for a lease that never coordinates.
    pub open spec fn held(&self) -> Option<Set<(Seq<char>, Seq<char>)>> {
        match self {
            Lease::Dummy => None,
            Lease::Distributed(t) => Some(t@),
        }
    }

    pub fn acquire(&mut self, namespace: &String, key: &String) -> (r: LeaseOutcome)
        requires
            old(self).wf(),
        ensures
            final(self).wf(),
            match old(self).held() {
                None => r == LeaseOutcome::Won && final(self).held() is None,
                Some(h) => r == acquire_outcome(h, (namespace@, key@))
                    && final(self).held() == Some(h.insert((namespace@, key@))),
            },
    {
        match self {
            Lease::Dummy => LeaseOutcome::Won,
            Lease::Distributed(t) => t.acquire(namespace, key),
        }
    }

    pub fn release(&mut self, namespace: &String, key: &String)
        requires
            old(self).wf(),
        ensures
            final(self).wf(),
            match old(self).held() {
                None => final(self).held() is None,
                Some(h) => final(self).held() == Some(h.remove((namespace@, key@))),
            },
    {
        match self {
            Lease::Dummy => {},
            Lease::Distributed(t) => t.release(namespace, key),
        }
    }
}

/// Two acquisitions of one `(namespace, key)` on a shared table are never both
/// granted, and when nobody held it before, exactly the first one is.
pub proof fn lemma_lease_exclusive(held: Set<(Seq<char>, Seq<char>)>, namespace: Seq<char>, key: Seq<char>)
    ensures
        !(acquire_outcome(held, (namespace, key)) == LeaseOutcome::Won
            && acquire_outcome(held.insert((namespace, key)), (namespace, key)) == LeaseOutcome::Won),
        !held.contains((namespace, key)) ==> acquire_outcome(held, (namespace, key)) == LeaseOutcome::Won
            && acquire_outcome(held.insert((namespace, key)), (namespace, key)) == LeaseOutcome::Lost,
{
}

} // verus!
