//! Incoming-peer bookkeeping.
//!
//! Each incoming transport connection is tracked, for its lifetime, in
//! a shared id set; the socket and buffering machinery around a peer
//! performs I/O and stays outside this crate. Verified here is the
//! bookkeeping itself: a peer's id is in the set exactly from
//! construction to release.

use vstd::prelude::*;

verus! {

/// The shared set of live peer ids.
pub struct PeerSet {
    ids: Vec<u64>,
}

impl PeerSet {
    /// Whether `id` is a live peer.
    pub closed spec fn contains(self, id: u64) -> bool {
        exists|i: int| 0 <= i < self.ids@.len() && self.ids@[i] == id
    }

    /// No id is tracked twice.
    pub closed spec fn wf(self) -> bool {
        forall|i: int, j: int| 0 <= i < j < self.ids@.len() ==> self.ids@[i] != self.ids@[j]
    }

    /// An empty peer set.
    pub fn new() -> (r: PeerSet)
        ensures
            r.wf(),
            forall|id: u64| !(#[trigger] r.contains(id)),
    {
        PeerSet { ids: Vec::new() }
    }

    /// Whether `id` is currently tracked.
    pub fn holds(&self, id: u64) -> (r: bool)
        ensures
            r == self.contains(id),
    {
        let mut i: usize = 0;
        while i < self.ids.len()
            invariant
                i <= self.ids@.len(),
                forall|j: int| 0 <= j < i ==> self.ids@[j] != id,
            decreases self.ids@.len() - i,
        {
            if self.ids[i] == id {
                return true;
            }
            i = i + 1;
        }
        proof {
            if self.contains(id) {
                let j = choose|j: int| 0 <= j < self.ids@.len() && self.ids@[j] == id;
                assert(self.ids@[j] != id);
            }
        }
        false
    }

    /// Inserts `id`; inserting a tracked id changes nothing.
    fn insert(&mut self, id: u64)
        requires
            old(self).wf(),
        ensures
            final(self).wf(),
            final(self).contains(id),
            forall|x: u64| x != id ==> #[trigger] final(self).contains(x) == old(self).contains(x),
    {
        if self.holds(id) {
            return ;
        }
        let ghost pre = self.ids@;
        self.ids.push(id);
        proof {
            assert(self.ids@[pre.len() as int] == id);
            assert forall|x: u64| x != id implies #[trigger] self.contains(x) == old(
                self,
            ).contains(x) by {
                if old(self).contains(x) {
                    let j = choose|j: int| 0 <= j < pre.len() && pre[j] == x;
                    assert(self.ids@[j] == x);
                }
                if self.contains(x) {
                    let j = choose|j: int| 0 <= j < self.ids@.len() && self.ids@[j] == x;
                    assert(j < pre.len());
                    assert(pre[j] == x);
                }
            }
            assert forall|a: int, b: int|
                0 <= a < b < self.ids@.len() implies self.ids@[a] != self.ids@[b] by {
                if b < pre.len() {
                    assert(self.ids@[a] == pre[a]);
                    assert(self.ids@[b] == pre[b]);
                } else {
                    assert(self.ids@[a] == pre[a]);
                    if self.ids@[a] == id {
                        assert(old(self).contains(id));
                    }
                }
            }
        }
    }

    /// Removes `id`; removing an untracked id changes nothing.
    fn remove(&mut self, id: u64)
        requires
            old(self).wf(),
        ensures
            final(self).wf(),
            !final(self).contains(id),
            forall|x: u64| x != id ==> #[trigger] final(self).contains(x) == old(self).contains(x),
    {
        let mut i: usize = 0;
        while i < self.ids.len()
            invariant
                i <= self.ids@.len(),
                old(self).wf(),
                self.ids@ == old(self).ids@,
                forall|j: int| 0 <= j < i ==> self.ids@[j] != id,
            decreases self.ids@.len() - i,
        {
            if self.ids[i] == id {
                let ghost pre = self.ids@;
                let _ = self.ids.remove(i);
                proof {
                    pre.remove_ensures(i as int);
                    assert(!self.contains(id)) by {
                        if self.contains(id) {
                            let j = choose|j: int| 0 <= j < self.ids@.len() && self.ids@[j] == id;
                            let j0: int = if j < i { j } else { j + 1 };
                            assert(self.ids@[j] == pre[j0]);
                            if j0 < i {
                                assert(pre[j0] != id);
                            }
                        }
                    }
                    assert forall|x: u64| x != id implies #[trigger] self.contains(x) == old(
                        self,
                    ).contains(x) by {
                        if old(self).contains(x) {
                            let j0 = choose|j: int| 0 <= j < pre.len() && pre[j] == x;
                            let j: int = if j0 < i { j0 } else { j0 - 1 };
                            assert(j0 != i);
                            assert(self.ids@[j] == pre[j0]);
                        }
                        if self.contains(x) {
                            let j = choose|j: int| 0 <= j < self.ids@.len() && self.ids@[j] == x;
                            let j0: int = if j < i { j } else { j + 1 };
                            assert(self.ids@[j] == pre[j0]);
                        }
                    }
                    assert forall|a: int, b: int|
                        0 <= a < b < self.ids@.len() implies self.ids@[a] != self.ids@[b] by {
                        let a0: int = if a < i { a } else { a + 1 };
                        let b0: int = if b < i { b } else { b + 1 };
                        assert(self.ids@[a] == pre[a0]);
                        assert(self.ids@[b] == pre[b0]);
                    }
                }
                return ;
            }
            i = i + 1;
        }
        proof {
            if self.contains(id) {
                let j = choose|j: int| 0 <= j < self.ids@.len() && self.ids@[j] == id;
                assert(self.ids@[j] != id);
            }
        }
    }
}

/// One incoming connection, tracked in the shared peer set for exactly
/// as long as the handle lives.
pub struct Peer {
    id: u64,
}

impl Peer {
    /// The peer's id.
    pub closed spec fn id_key(self) -> u64 {
        self.id
    }

    /// Tracks a new peer: inserts its id into the shared set.
    pub fn new(id: u64, peers: &mut PeerSet) -> (r: Peer)
        requires
            old(peers).wf(),
        ensures
            final(peers).wf(),
            r.id_key() == id,
            final(peers).contains(id),
            forall|x: u64| x != id ==> #[trigger] final(peers).contains(x) == old(peers).contains(
                x,
            ),
    {
        peers.insert(id);
        Peer { id }
    }

    /// Releases the peer: its id leaves the shared set. Consuming the
    /// handle makes the release infallible.
    pub fn release(self, peers: &mut PeerSet)
        requires
            old(peers).wf(),
        ensures
            final(peers).wf(),
            !final(peers).contains(self.id_key()),
            forall|x: u64|
                x != self.id_key() ==> #[trigger] final(peers).contains(x) == old(peers).contains(
                    x,
                ),
    {
        peers.remove(self.id);
    }

    /// The peer's id, for reporting.
    pub fn id(&self) -> (r: u64)
        ensures
            r == self.id_key(),
    {
        self.id
    }
}

} // verus!
