//! The registry: the single source of truth for who is registered and
//! who subscribes to what.
//!
//! Two tables share its lifetime: a directory mapping each registered
//! name to its delivery queue (and the channel number issued with it),
//! and a subscription index mapping each event to the set of names
//! subscribed to it. A third table records the events publishers have
//! declared. All dispatch operations consumed by `Connection` and
//! `Addr` live here, and only the registry mutates the tables.

use vstd::prelude::*;
use crate::connection::{Addr, Connection};
use crate::error::Error;
use crate::message::{Message, MessageKey};
use crate::name::{BusName, Event, EventKey};

verus! {

/// One directory row: a registered member, the channel number issued
/// to it at registration, and its pending delivery queue (FIFO).
struct Entry {
    name: BusName,
    chan: u64,
    queue: Vec<Message>,
}

/// One subscription row: `member` subscribes to `event`.
struct SubEntry {
    event: Event,
    member: BusName,
}

/// Whether some row of `s` is registered under `n`.
spec fn has_name(s: Seq<Entry>, n: Seq<char>) -> bool {
    exists|i: int| 0 <= i < s.len() && s[i].name@ == n
}

/// The index of the row registered under `n` (meaningful when
/// `has_name` holds and names are unique).
spec fn index_of(s: Seq<Entry>, n: Seq<char>) -> int {
    choose|i: int| 0 <= i < s.len() && s[i].name@ == n
}

/// No two rows share a name.
spec fn names_unique(s: Seq<Entry>) -> bool {
    forall|i: int, j: int| 0 <= i < j < s.len() ==> s[i].name@ != s[j].name@
}

/// Whether the pair (`e`, `n`) stands in the subscription index.
spec fn has_pair(s: Seq<SubEntry>, e: EventKey, n: Seq<char>) -> bool {
    exists|i: int| 0 <= i < s.len() && s[i].event@ == e && s[i].member@ == n
}

/// No subscription pair occurs twice.
spec fn pairs_unique(s: Seq<SubEntry>) -> bool {
    forall|i: int, j: int|
        0 <= i < j < s.len() ==> !(s[i].event@ == s[j].event@ && s[i].member@ == s[j].member@)
}

/// Whether event `e` stands in the declared-events table.
spec fn has_event(s: Seq<Event>, e: EventKey) -> bool {
    exists|i: int| 0 <= i < s.len() && s[i]@ == e
}

/// No declared event occurs twice.
spec fn events_unique(s: Seq<Event>) -> bool {
    forall|i: int, j: int| 0 <= i < j < s.len() ==> s[i]@ != s[j]@
}

/// The view of a delivery queue: the messages it holds, oldest first.
spec fn queue_view(q: Seq<Message>) -> Seq<MessageKey> {
    q.map_values(|m: Message| m@)
}

/// The message bus registry. See the module doc.
pub struct Registry {
    entries: Vec<Entry>,
    subs: Vec<SubEntry>,
    events: Vec<Event>,
    next_chan: u64,
}

impl Registry {
    /// Whether a member is currently registered under `n`.
    pub closed spec fn registered(self, n: Seq<char>) -> bool {
        has_name(self.entries@, n)
    }

    /// The channel number issued to the member registered under `n`.
    pub closed spec fn chan_of(self, n: Seq<char>) -> u64 {
        self.entries@[index_of(self.entries@, n)].chan
    }

    /// The pending delivery queue of the member registered under `n`,
    /// oldest message first.
    pub closed spec fn queue_of(self, n: Seq<char>) -> Seq<MessageKey> {
        queue_view(self.entries@[index_of(self.entries@, n)].queue@)
    }

    /// Whether `n` stands in the subscriber set of event `e`.
    pub closed spec fn subscribed(self, e: EventKey, n: Seq<char>) -> bool {
        has_pair(self.subs@, e, n)
    }

    /// The subscriber set of event `e`.
    pub open spec fn subscribers(self, e: EventKey) -> Set<Seq<char>> {
        Set::new(|n: Seq<char>| self.subscribed(e, n))
    }

    /// Whether a publisher has declared event `e`.
    pub closed spec fn declared(self, e: EventKey) -> bool {
        has_event(self.events@, e)
    }

    /// A strict upper bound on every channel number issued so far;
    /// the next registration is issued exactly this number.
    pub closed spec fn chan_bound(self) -> u64 {
        self.next_chan
    }

    /// The registry invariant: names, subscription pairs and declared
    /// events are free of duplicates; every subscriber is a currently
    /// registered member; and every issued channel number lies below
    /// `chan_bound`.
    pub closed spec fn wf(self) -> bool {
        &&& names_unique(self.entries@)
        &&& pairs_unique(self.subs@)
        &&& events_unique(self.events@)
        &&& forall|i: int|
            0 <= i < self.subs@.len() ==> has_name(self.entries@, #[trigger] self.subs@[i].member@)
        &&& forall|i: int|
            0 <= i < self.entries@.len() ==> (#[trigger] self.entries@[i].chan) < self.next_chan
    }
}

/// Under unique names, a row's index is the one `index_of` picks.
proof fn lemma_index_unique(s: Seq<Entry>, i: int, n: Seq<char>)
    requires
        names_unique(s),
        0 <= i < s.len(),
        s[i].name@ == n,
    ensures
        has_name(s, n),
        index_of(s, n) == i,
{
    assert(has_name(s, n));
    let j = index_of(s, n);
    assert(0 <= j < s.len() && s[j].name@ == n);
    if i < j {
        assert(s[i].name@ != s[j].name@);
    } else if j < i {
        assert(s[j].name@ != s[i].name@);
    }
}

/// The directory is unchanged: same members, channels and queues.
pub open spec fn same_directory(pre: Registry, post: Registry) -> bool {
    &&& forall|n: Seq<char>| #[trigger] post.registered(n) == pre.registered(n)
    &&& forall|n: Seq<char>| pre.registered(n) ==> #[trigger] post.chan_of(n) == pre.chan_of(n)
    &&& forall|n: Seq<char>| pre.registered(n) ==> #[trigger] post.queue_of(n) == pre.queue_of(n)
}

/// The subscription index is unchanged.
pub open spec fn same_subscriptions(pre: Registry, post: Registry) -> bool {
    forall|e: EventKey, n: Seq<char>| #[trigger] post.subscribed(e, n) == pre.subscribed(e, n)
}

/// The declared-events table is unchanged.
pub open spec fn same_events(pre: Registry, post: Registry) -> bool {
    forall|e: EventKey| #[trigger] post.declared(e) == pre.declared(e)
}

/// Registration admitted `n`: `n` is now present with the freshly
/// issued channel and an empty queue, every other member kept its row,
/// and the other tables are untouched.
pub open spec fn admitted(pre: Registry, post: Registry, n: Seq<char>) -> bool {
    &&& !pre.registered(n)
    &&& post.registered(n)
    &&& post.chan_of(n) == pre.chan_bound()
    &&& post.queue_of(n) == Seq::<MessageKey>::empty()
    &&& post.chan_bound() == pre.chan_bound() + 1
    &&& forall|m: Seq<char>| m != n ==> #[trigger] post.registered(m) == pre.registered(m)
    &&& forall|m: Seq<char>|
        m != n && pre.registered(m) ==> #[trigger] post.chan_of(m) == pre.chan_of(m)
    &&& forall|m: Seq<char>|
        m != n && pre.registered(m) ==> #[trigger] post.queue_of(m) == pre.queue_of(m)
    &&& same_subscriptions(pre, post)
    &&& same_events(pre, post)
}

/// Unregistration removed `n`: its directory row is gone, it stands in
/// no subscriber set any more, and nothing else moved.
pub open spec fn removed(pre: Registry, post: Registry, n: Seq<char>) -> bool {
    &&& pre.registered(n)
    &&& !post.registered(n)
    &&& forall|m: Seq<char>| m != n ==> #[trigger] post.registered(m) == pre.registered(m)
    &&& forall|m: Seq<char>|
        m != n && pre.registered(m) ==> #[trigger] post.chan_of(m) == pre.chan_of(m)
    &&& forall|m: Seq<char>|
        m != n && pre.registered(m) ==> #[trigger] post.queue_of(m) == pre.queue_of(m)
    &&& forall|e: EventKey| !(#[trigger] post.subscribed(e, n))
    &&& forall|e: EventKey, m: Seq<char>|
        m != n ==> #[trigger] post.subscribed(e, m) == pre.subscribed(e, m)
    &&& same_events(pre, post)
    &&& post.chan_bound() == pre.chan_bound()
}

/// Pushing a row only adds the pushed pair to the subscription index.
proof fn lemma_has_pair_push(s: Seq<SubEntry>, p: SubEntry, e: EventKey, n: Seq<char>)
    ensures
        has_pair(s.push(p), e, n) == (has_pair(s, e, n) || (p.event@ == e && p.member@ == n)),
{
    if has_pair(s, e, n) {
        let i = choose|i: int| 0 <= i < s.len() && s[i].event@ == e && s[i].member@ == n;
        assert(s.push(p)[i] == s[i]);
        assert(has_pair(s.push(p), e, n));
    }
    if p.event@ == e && p.member@ == n {
        assert(s.push(p)[s.len() as int] == p);
        assert(has_pair(s.push(p), e, n));
    }
    if has_pair(s.push(p), e, n) {
        let i = choose|i: int|
            0 <= i < s.push(p).len() && s.push(p)[i].event@ == e && s.push(p)[i].member@ == n;
        if i < s.len() {
            assert(s.push(p)[i] == s[i]);
            assert(has_pair(s, e, n));
        } else {
            assert(s.push(p)[i] == p);
        }
    }
}

/// Removing row `i` removes exactly that name from the directory and
/// moves no other row.
proof fn lemma_remove_entry(s: Seq<Entry>, i: int)
    requires
        names_unique(s),
        0 <= i < s.len(),
    ensures
        names_unique(s.remove(i)),
        !has_name(s.remove(i), s[i].name@),
        forall|m: Seq<char>| m != s[i].name@ ==> #[trigger] has_name(s.remove(i), m) == has_name(
            s,
            m,
        ),
        forall|m: Seq<char>|
            m != s[i].name@ && has_name(s, m) ==> s.remove(i)[index_of(s.remove(i), m)] == s[
                index_of(s, m)
            ],
{
    let s2 = s.remove(i);
    s.remove_ensures(i);
    assert(names_unique(s2)) by {
        assert forall|a: int, b: int| 0 <= a < b < s2.len() implies s2[a].name@ != s2[b].name@ by {
            let a0: int = if a < i { a } else { a + 1 };
            let b0: int = if b < i { b } else { b + 1 };
            assert(s2[a] == s[a0]);
            assert(s2[b] == s[b0]);
        }
    }
    assert(!has_name(s2, s[i].name@)) by {
        if has_name(s2, s[i].name@) {
            let j = choose|j: int| 0 <= j < s2.len() && s2[j].name@ == s[i].name@;
            let j0: int = if j < i { j } else { j + 1 };
            assert(s2[j] == s[j0]);
            assert(j0 != i);
        }
    }
    assert forall|m: Seq<char>| m != s[i].name@ implies #[trigger] has_name(s2, m) == has_name(
        s,
        m,
    ) by {
        if has_name(s2, m) {
            let j = choose|j: int| 0 <= j < s2.len() && s2[j].name@ == m;
            let j0: int = if j < i { j } else { j + 1 };
            assert(s2[j] == s[j0]);
            assert(has_name(s, m));
        }
        if has_name(s, m) {
            let j0 = choose|j: int| 0 <= j < s.len() && s[j].name@ == m;
            let j: int = if j0 < i { j0 } else { j0 - 1 };
            assert(j0 != i);
            assert(s2[j] == s[j0]);
            assert(has_name(s2, m));
        }
    }
    assert forall|m: Seq<char>| m != s[i].name@ && has_name(s, m) implies s2[index_of(s2, m)] == s[
        index_of(s, m)
    ] by {
        let j0 = choose|j: int| 0 <= j < s.len() && s[j].name@ == m;
        lemma_index_unique(s, j0, m);
        let j: int = if j0 < i { j0 } else { j0 - 1 };
        assert(j0 != i);
        assert(s2[j] == s[j0]);
        lemma_index_unique(s2, j, m);
    }
}

/// Looks up the directory row registered under `name`.
fn find_in(entries: &Vec<Entry>, name: &BusName) -> (r: Option<usize>)
    ensures
        match r {
            Some(i) => 0 <= i < entries@.len() && entries@[i as int].name@ == name@,
            None => !has_name(entries@, name@),
        },
{
    let mut i: usize = 0;
    while i < entries.len()
        invariant
            i <= entries@.len(),
            forall|j: int| 0 <= j < i ==> entries@[j].name@ != name@,
        decreases entries@.len() - i,
    {
        if entries[i].name == *name {
            return Some(i);
        }
        i = i + 1;
    }
    proof {
        if has_name(entries@, name@) {
            let j = choose|j: int| 0 <= j < entries@.len() && entries@[j].name@ == name@;
            assert(entries@[j].name@ != name@);
        }
    }
    None
}

impl Registry {
    /// A fresh, empty registry: nobody registered, nobody subscribed,
    /// no event declared.
    pub fn new() -> (r: Registry)
        ensures
            r.wf(),
            r.chan_bound() == 0,
            forall|n: Seq<char>| !(#[trigger] r.registered(n)),
            forall|e: EventKey, n: Seq<char>| !(#[trigger] r.subscribed(e, n)),
            forall|e: EventKey| !(#[trigger] r.declared(e)),
    {
        Registry { entries: Vec::new(), subs: Vec::new(), events: Vec::new(), next_chan: 0 }
    }

    /// Registers `name` and hands back the member's `Connection`.
    ///
    /// Fails with `NameInUse`, leaving no partial state behind, when a
    /// live entry for `name` is already present; otherwise inserts the
    /// directory row with a fresh channel and an empty queue.
    pub fn register(&mut self, name: BusName) -> (r: Result<Connection, Error>)
        requires
            old(self).wf(),
            old(self).chan_bound() < u64::MAX,
        ensures
            final(self).wf(),
            old(self).registered(name@) ==> r is Err && r->Err_0 == Error::NameInUse && *final(self)
                == *old(self),
            !old(self).registered(name@) ==> r is Ok && admitted(*old(self), *final(self), name@)
                && r->Ok_0@.name == name@ && r->Ok_0@.chan == old(self).chan_bound(),
    {
        match find_in(&self.entries, &name) {
            Some(_) => Err(Error::NameInUse),
            None => {
                let ghost pre = self.entries@;
                let chan = self.next_chan;
                self.next_chan = self.next_chan + 1;
                let member = name.clone();
                self.entries.push(Entry { name: member, chan, queue: Vec::new() });
                proof {
                    let post = self.entries@;
                    assert(names_unique(post)) by {
                        assert forall|a: int, b: int|
                            0 <= a < b < post.len() implies post[a].name@ != post[b].name@ by {
                            if b < pre.len() {
                                assert(post[a] == pre[a]);
                                assert(post[b] == pre[b]);
                            } else {
                                assert(post[a] == pre[a]);
                                assert(post[b].name@ == name@);
                            }
                        }
                    }
                    lemma_index_unique(post, pre.len() as int, name@);
                    assert(self.queue_of(name@) =~= Seq::<MessageKey>::empty());
                    assert forall|m: Seq<char>| m != name@ implies #[trigger] self.registered(m)
                        == old(self).registered(m) by {
                        if has_name(pre, m) {
                            let j = choose|j: int| 0 <= j < pre.len() && pre[j].name@ == m;
                            assert(post[j] == pre[j]);
                        }
                        if has_name(post, m) {
                            let j = choose|j: int| 0 <= j < post.len() && post[j].name@ == m;
                            assert(j < pre.len());
                            assert(post[j] == pre[j]);
                            assert(has_name(pre, m));
                        }
                    }
                    assert forall|m: Seq<char>| m != name@ && old(self).registered(m) implies
                        #[trigger] self.chan_of(m) == old(self).chan_of(m) by {
                        let j0 = choose|j: int| 0 <= j < pre.len() && pre[j].name@ == m;
                        lemma_index_unique(pre, j0, m);
                        assert(post[j0] == pre[j0]);
                        lemma_index_unique(post, j0, m);
                    }
                    assert forall|m: Seq<char>| m != name@ && old(self).registered(m) implies
                        #[trigger] self.queue_of(m) == old(self).queue_of(m) by {
                        let j0 = choose|j: int| 0 <= j < pre.len() && pre[j].name@ == m;
                        lemma_index_unique(pre, j0, m);
                        assert(post[j0] == pre[j0]);
                        lemma_index_unique(post, j0, m);
                    }
                    assert forall|i: int| 0 <= i < self.subs@.len() implies has_name(
                        self.entries@,
                        #[trigger] self.subs@[i].member@,
                    ) by {
                        let m = self.subs@[i].member@;
                        let j = choose|j: int| 0 <= j < pre.len() && pre[j].name@ == m;
                        assert(post[j] == pre[j]);
                    }
                }
                Ok(Connection::new(name, chan))
            },
        }
    }

    /// Removes the directory row for `name` and strips `name` from
    /// every subscriber set it appears in.
    ///
    /// Fails with `UnknownMember` when `name` is not present.
    pub fn unregister(&mut self, name: &BusName) -> (r: Result<(), Error>)
        requires
            old(self).wf(),
        ensures
            final(self).wf(),
            !old(self).registered(name@) ==> r is Err && r->Err_0 == Error::UnknownMember
                && *final(self) == *old(self),
            old(self).registered(name@) ==> r is Ok && removed(*old(self), *final(self), name@),
    {
        match find_in(&self.entries, &name) {
            None => Err(Error::UnknownMember),
            Some(i) => {
                let ghost pre = self.entries@;
                let ghost pre_subs = self.subs@;
                proof {
                    lemma_index_unique(pre, i as int, name@);
                    lemma_remove_entry(pre, i as int);
                }
                let _ = self.entries.remove(i);
                let mut kept: Vec<SubEntry> = Vec::new();
                let mut j: usize = 0;
                while j < self.subs.len()
                    invariant
                        j <= pre_subs.len(),
                        self.subs@ == pre_subs,
                        pairs_unique(pre_subs),
                        names_unique(pre),
                        names_unique(self.entries@),
                        self.entries@ == pre.remove(i as int),
                        0 <= i < pre.len(),
                        pre[i as int].name@ == name@,
                        forall|a: int|
                            0 <= a < pre_subs.len() ==> has_name(
                                pre,
                                #[trigger] pre_subs[a].member@,
                            ),
                        forall|e: EventKey, m: Seq<char>| #[trigger] has_pair(kept@, e, m) == (
                        has_pair(pre_subs.take(j as int), e, m) && m != name@),
                        forall|a: int|
                            0 <= a < kept@.len() ==> (#[trigger] kept@[a].member@) != name@
                                && has_name(self.entries@, kept@[a].member@),
                        pairs_unique(kept@),
                    decreases pre_subs.len() - j,
                {
                    let ghost kept_pre = kept@;
                    let sub = &self.subs[j];
                    let keep = !(sub.member == *name);
                    if keep {
                        kept.push(
                            SubEntry { event: sub.event.clone(), member: sub.member.clone() },
                        );
                    }
                    proof {
                        assert(pre_subs.take(j + 1 as int) =~= pre_subs.take(j as int).push(
                            pre_subs[j as int],
                        ));
                        assert forall|e: EventKey, m: Seq<char>| #[trigger] has_pair(kept@, e, m)
                            == (has_pair(pre_subs.take(j + 1 as int), e, m) && m != name@) by {
                            lemma_has_pair_push(
                                pre_subs.take(j as int),
                                pre_subs[j as int],
                                e,
                                m,
                            );
                            if keep {
                                lemma_has_pair_push(kept_pre, kept@.last(), e, m);
                                assert(kept@ == kept_pre.push(kept@.last()));
                            }
                        }
                        if keep {
                            lemma_remove_entry(pre, i as int);
                            assert(pre_subs[j as int].member@ != name@);
                            assert(has_name(pre, pre_subs[j as int].member@));
                            assert(has_name(self.entries@, pre_subs[j as int].member@));
                            assert(kept@.last().member@ == pre_subs[j as int].member@);
                            assert forall|a: int| 0 <= a < kept@.len() implies (#[trigger]
                            kept@[a].member@) != name@ && has_name(
                                self.entries@,
                                kept@[a].member@,
                            ) by {
                                if a < kept@.len() - 1 {
                                    assert(kept@[a] == kept_pre[a]);
                                }
                            }
                            assert(pairs_unique(kept@)) by {
                                assert forall|a: int, b: int| 0 <= a < b < kept@.len() implies !(
                                kept@[a].event@ == kept@[b].event@ && kept@[a].member@
                                    == kept@[b].member@) by {
                                    if b == kept@.len() - 1 && kept@[a].event@ == kept@[b].event@
                                        && kept@[a].member@ == kept@[b].member@ {
                                        assert(kept@[a] == kept_pre[a]);
                                        assert(has_pair(kept_pre, kept@[b].event@,
                                        kept@[b].member@));
                                        let c = choose|c: int|
                                            0 <= c < j && pre_subs.take(j as int)[c].event@
                                                == kept@[b].event@ && pre_subs.take(
                                                j as int,
                                            )[c].member@ == kept@[b].member@;
                                        assert(pre_subs[c] == pre_subs.take(j as int)[c]);
                                        assert(!(pre_subs[c].event@ == pre_subs[j as int].event@
                                            && pre_subs[c].member@ == pre_subs[j as int].member@));
                                    } else if b < kept@.len() - 1 {
                                        assert(kept@[a] == kept_pre[a]);
                                        assert(kept@[b] == kept_pre[b]);
                                    }
                                }
                            }
                            assert(has_name(pre, pre_subs[j as int].member@));
                            assert(kept@.last().member@ == pre_subs[j as int].member@);
                        }
                    }
                    j = j + 1;
                }
                proof {
                    assert(pre_subs.take(pre_subs.len() as int) =~= pre_subs);
                }
                self.subs = kept;
                proof {
                    assert forall|e: EventKey, m: Seq<char>| m != name@ implies #[trigger]
                    self.subscribed(e, m) == old(self).subscribed(e, m) by {}
                    assert forall|e: EventKey| !(#[trigger] self.subscribed(e, name@)) by {}
                }
                Ok(())
            },
        }
    }
}

/// One message was delivered: `dest`'s queue grew by `m` at the back,
/// and nothing else moved.
pub open spec fn delivered(pre: Registry, post: Registry, dest: Seq<char>, m: MessageKey) -> bool {
    &&& pre.registered(dest)
    &&& post.queue_of(dest) == pre.queue_of(dest).push(m)
    &&& forall|n: Seq<char>| #[trigger] post.registered(n) == pre.registered(n)
    &&& forall|n: Seq<char>| pre.registered(n) ==> #[trigger] post.chan_of(n) == pre.chan_of(n)
    &&& forall|n: Seq<char>|
        n != dest && pre.registered(n) ==> #[trigger] post.queue_of(n) == pre.queue_of(n)
    &&& same_subscriptions(pre, post)
    &&& same_events(pre, post)
    &&& post.chan_bound() == pre.chan_bound()
}

/// One message was consumed: the front of `n`'s queue is gone, and
/// nothing else moved.
pub open spec fn consumed(pre: Registry, post: Registry, n: Seq<char>) -> bool {
    &&& pre.registered(n)
    &&& pre.queue_of(n).len() > 0
    &&& post.queue_of(n) == pre.queue_of(n).drop_first()
    &&& forall|m: Seq<char>| #[trigger] post.registered(m) == pre.registered(m)
    &&& forall|m: Seq<char>| pre.registered(m) ==> #[trigger] post.chan_of(m) == pre.chan_of(m)
    &&& forall|m: Seq<char>|
        m != n && pre.registered(m) ==> #[trigger] post.queue_of(m) == pre.queue_of(m)
    &&& same_subscriptions(pre, post)
    &&& same_events(pre, post)
    &&& post.chan_bound() == pre.chan_bound()
}

/// Replacing row `i` by a row with the same name leaves every other
/// lookup where it was.
proof fn lemma_update_entry(s: Seq<Entry>, i: int, e: Entry)
    requires
        names_unique(s),
        0 <= i < s.len(),
        e.name@ == s[i].name@,
    ensures
        names_unique(s.update(i, e)),
        forall|m: Seq<char>| #[trigger] has_name(s.update(i, e), m) == has_name(s, m),
        s.update(i, e)[index_of(s.update(i, e), s[i].name@)] == e,
        forall|m: Seq<char>|
            m != s[i].name@ && has_name(s, m) ==> s.update(i, e)[index_of(s.update(i, e), m)] == s[
                index_of(s, m)
            ],
{
    let s2 = s.update(i, e);
    assert(forall|j: int| 0 <= j < s.len() ==> (#[trigger] s2[j].name@) == s[j].name@);
    assert(names_unique(s2));
    assert forall|m: Seq<char>| #[trigger] has_name(s2, m) == has_name(s, m) by {
        if has_name(s2, m) {
            let j = choose|j: int| 0 <= j < s2.len() && s2[j].name@ == m;
            assert(s[j].name@ == m);
        }
        if has_name(s, m) {
            let j = choose|j: int| 0 <= j < s.len() && s[j].name@ == m;
            assert(s2[j].name@ == m);
        }
    }
    lemma_index_unique(s2, i, s[i].name@);
    assert forall|m: Seq<char>| m != s[i].name@ && has_name(s, m) implies s2[index_of(s2, m)] == s[
        index_of(s, m)
    ] by {
        let j0 = choose|j: int| 0 <= j < s.len() && s[j].name@ == m;
        lemma_index_unique(s, j0, m);
        assert(j0 != i);
        assert(s2[j0] == s[j0]);
        lemma_index_unique(s2, j0, m);
    }
}

impl Registry {
    /// Appends `message` to the delivery queue of the member
    /// registered under `name`; reports whether that member exists.
    fn push_to(&mut self, name: &BusName, message: Message) -> (r: bool)
        requires
            old(self).wf(),
        ensures
            final(self).wf(),
            final(self).subs == old(self).subs,
            final(self).events == old(self).events,
            final(self).next_chan == old(self).next_chan,
            !old(self).registered(name@) ==> !r && *final(self) == *old(self),
            old(self).registered(name@) ==> r && delivered(
                *old(self),
                *final(self),
                name@,
                message@,
            ),
    {
        let ghost mk = message@;
        match find_in(&self.entries, name) {
            None => false,
            Some(i) => {
                let ghost pre = self.entries@;
                proof {
                    lemma_index_unique(pre, i as int, name@);
                }
                let e = &mut self.entries[i];
                let ghost equeue = e.queue@;
                e.queue.push(message);
                proof {
                    let post = self.entries@;
                    lemma_update_entry(pre, i as int, post[i as int]);
                    assert(queue_view(equeue.push(message)) =~= queue_view(equeue).push(mk));
                    assert(self.queue_of(name@) == old(self).queue_of(name@).push(mk));
                    assert forall|n: Seq<char>|
                        n != name@ && old(self).registered(n) implies #[trigger] self.queue_of(n)
                        == old(self).queue_of(n) by {
                        assert(post[index_of(post, n)] == pre[index_of(pre, n)]);
                    }
                    assert forall|n: Seq<char>| old(self).registered(n) implies #[trigger]
                    self.chan_of(n) == old(self).chan_of(n) by {
                        if n != name@ {
                            assert(post[index_of(post, n)] == pre[index_of(pre, n)]);
                        }
                    }
                    assert(self.wf()) by {
                        assert forall|k: int| 0 <= k < post.len() implies (#[trigger]
                        post[k].chan) < self.next_chan by {
                            assert(post[k].chan == pre[k].chan);
                        }
                    }
                }
                true
            },
        }
    }

    /// Delivers a point-to-point message: looks the destination up in
    /// the directory and enqueues the message onto its channel.
    ///
    /// Fails with `UnknownRecipient` when the message has no
    /// destination or names one that is not currently registered.
    pub fn send(&mut self, message: Message) -> (r: Result<(), Error>)
        requires
            old(self).wf(),
        ensures
            final(self).wf(),
            !(message@.destination is Some && old(self).registered(message@.destination->0))
                ==> r is Err && r->Err_0 == Error::UnknownRecipient && *final(self) == *old(self),
            message@.destination is Some && old(self).registered(message@.destination->0)
                ==> r is Ok && delivered(
                *old(self),
                *final(self),
                message@.destination->0,
                message@,
            ),
    {
        let dest = match message.destination() {
            Some(n) => n.clone(),
            None => {
                return Err(Error::UnknownRecipient);
            },
        };
        if self.push_to(&dest, message) {
            Ok(())
        } else {
            Err(Error::UnknownRecipient)
        }
    }

    /// Yields the next pending message for the member registered under
    /// `name`, provided `chan` is the channel that member currently
    /// holds; yields nothing when the queue is empty or when the
    /// (`name`, `chan`) pair no longer names a live member.
    pub fn receive(&mut self, name: &BusName, chan: u64) -> (r: Option<Message>)
        requires
            old(self).wf(),
        ensures
            final(self).wf(),
            ({
                let live = old(self).registered(name@) && old(self).chan_of(name@) == chan;
                &&& (!live || old(self).queue_of(name@).len() == 0) ==> r is None && *final(self)
                    == *old(self)
                &&& (live && old(self).queue_of(name@).len() > 0) ==> r is Some && r->0@ == old(
                    self,
                ).queue_of(name@)[0] && consumed(*old(self), *final(self), name@)
            }),
    {
        match find_in(&self.entries, name) {
            None => None,
            Some(i) => {
                let ghost pre = self.entries@;
                proof {
                    lemma_index_unique(pre, i as int, name@);
                }
                if self.entries[i].chan != chan {
                    return None;
                }
                if self.entries[i].queue.len() == 0 {
                    return None;
                }
                let e = &mut self.entries[i];
                let ghost equeue = e.queue@;
                let m = e.queue.remove(0);
                proof {
                    let post = self.entries@;
                    lemma_update_entry(pre, i as int, post[i as int]);
                    equeue.remove_ensures(0);
                    assert(queue_view(equeue.remove(0)) =~= queue_view(equeue).drop_first());
                    assert(self.queue_of(name@) == old(self).queue_of(name@).drop_first());
                    assert(m@ == old(self).queue_of(name@)[0]);
                    assert forall|n: Seq<char>|
                        n != name@ && old(self).registered(n) implies #[trigger] self.queue_of(n)
                        == old(self).queue_of(n) by {
                        assert(post[index_of(post, n)] == pre[index_of(pre, n)]);
                    }
                    assert forall|n: Seq<char>| old(self).registered(n) implies #[trigger]
                    self.chan_of(n) == old(self).chan_of(n) by {
                        if n != name@ {
                            assert(post[index_of(post, n)] == pre[index_of(pre, n)]);
                        }
                    }
                    assert(self.wf()) by {
                        assert forall|k: int| 0 <= k < post.len() implies (#[trigger]
                        post[k].chan) < self.next_chan by {
                            assert(post[k].chan == pre[k].chan);
                        }
                    }
                }
                Some(m)
            },
        }
    }
}

/// A publisher declared event `e`: the declared-events table gained
/// exactly that event, and nothing else moved.
pub open spec fn declared_now(pre: Registry, post: Registry, e: EventKey) -> bool {
    &&& !pre.declared(e)
    &&& post.declared(e)
    &&& forall|e2: EventKey| e2 != e ==> #[trigger] post.declared(e2) == pre.declared(e2)
    &&& same_directory(pre, post)
    &&& same_subscriptions(pre, post)
    &&& post.chan_bound() == pre.chan_bound()
}

/// Member `n` subscribed to event `e`: the subscription index gained
/// exactly that pair, and nothing else moved.
pub open spec fn subscribed_now(pre: Registry, post: Registry, e: EventKey, n: Seq<char>) -> bool {
    &&& !pre.subscribed(e, n)
    &&& post.subscribed(e, n)
    &&& forall|e2: EventKey, m: Seq<char>|
        !(e2 == e && m == n) ==> #[trigger] post.subscribed(e2, m) == pre.subscribed(e2, m)
    &&& same_directory(pre, post)
    &&& same_events(pre, post)
    &&& post.chan_bound() == pre.chan_bound()
}

/// A broadcast of `m` under event `e` fanned out: every subscriber's
/// queue grew by its own copy of `m`, every other queue stood still,
/// and the tables did not move.
pub open spec fn fanned_out(pre: Registry, post: Registry, e: EventKey, m: MessageKey) -> bool {
    &&& forall|n: Seq<char>|
        pre.subscribed(e, n) ==> #[trigger] post.queue_of(n) == pre.queue_of(n).push(m)
    &&& forall|n: Seq<char>|
        pre.registered(n) && !pre.subscribed(e, n) ==> #[trigger] post.queue_of(n)
            == pre.queue_of(n)
    &&& forall|n: Seq<char>| #[trigger] post.registered(n) == pre.registered(n)
    &&& forall|n: Seq<char>| pre.registered(n) ==> #[trigger] post.chan_of(n) == pre.chan_of(n)
    &&& same_subscriptions(pre, post)
    &&& same_events(pre, post)
    &&& post.chan_bound() == pre.chan_bound()
}

/// Pushing a row only adds the pushed event to the declared table.
proof fn lemma_has_event_push(s: Seq<Event>, p: Event, e: EventKey)
    ensures
        has_event(s.push(p), e) == (has_event(s, e) || p@ == e),
{
    if has_event(s, e) {
        let i = choose|i: int| 0 <= i < s.len() && s[i]@ == e;
        assert(s.push(p)[i] == s[i]);
        assert(has_event(s.push(p), e));
    }
    if p@ == e {
        assert(s.push(p)[s.len() as int] == p);
        assert(has_event(s.push(p), e));
    }
    if has_event(s.push(p), e) {
        let i = choose|i: int| 0 <= i < s.push(p).len() && s.push(p)[i]@ == e;
        if i < s.len() {
            assert(s.push(p)[i] == s[i]);
            assert(has_event(s, e));
        } else {
            assert(s.push(p)[i] == p);
        }
    }
}

/// Whether the declared-events table holds `event`.
fn find_event(events: &Vec<Event>, event: &Event) -> (r: bool)
    ensures
        r == has_event(events@, event@),
{
    let mut i: usize = 0;
    while i < events.len()
        invariant
            i <= events@.len(),
            forall|j: int| 0 <= j < i ==> events@[j]@ != event@,
        decreases events@.len() - i,
    {
        if events[i] == *event {
            return true;
        }
        i = i + 1;
    }
    proof {
        if has_event(events@, event@) {
            let j = choose|j: int| 0 <= j < events@.len() && events@[j]@ == event@;
            assert(events@[j]@ != event@);
        }
    }
    false
}

/// Whether the subscription index holds the pair (`event`, `member`).
fn find_pair(subs: &Vec<SubEntry>, event: &Event, member: &BusName) -> (r: bool)
    ensures
        r == has_pair(subs@, event@, member@),
{
    let mut i: usize = 0;
    while i < subs.len()
        invariant
            i <= subs@.len(),
            forall|j: int|
                0 <= j < i ==> !(subs@[j].event@ == event@ && subs@[j].member@ == member@),
        decreases subs@.len() - i,
    {
        let sub = &subs[i];
        if sub.event == *event && sub.member == *member {
            return true;
        }
        i = i + 1;
    }
    proof {
        if has_pair(subs@, event@, member@) {
            let j = choose|j: int|
                0 <= j < subs@.len() && subs@[j].event@ == event@ && subs@[j].member@ == member@;
            assert(!(subs@[j].event@ == event@ && subs@[j].member@ == member@));
        }
    }
    false
}

impl Registry {
    /// Records that `event`'s publisher declares it. Idempotent:
    /// declaring an already-declared event changes nothing and is no
    /// error. Fails with `UnknownMember` when the publisher is not a
    /// currently registered member.
    pub fn register_event(&mut self, event: Event) -> (r: Result<(), Error>)
        requires
            old(self).wf(),
        ensures
            final(self).wf(),
            !old(self).registered(event@.publisher) ==> r is Err && r->Err_0
                == Error::UnknownMember && *final(self) == *old(self),
            old(self).registered(event@.publisher) && old(self).declared(event@) ==> r is Ok
                && *final(self) == *old(self),
            old(self).registered(event@.publisher) && !old(self).declared(event@) ==> r is Ok
                && declared_now(*old(self), *final(self), event@),
    {
        match find_in(&self.entries, event.publisher()) {
            None => Err(Error::UnknownMember),
            Some(_) => {
                if find_event(&self.events, &event) {
                    return Ok(());
                }
                let ghost pre = self.events@;
                self.events.push(event);
                proof {
                    assert forall|e2: EventKey| #[trigger]
                    has_event(self.events@, e2) == (has_event(pre, e2) || e2
                        == self.events@.last()@) by {
                        lemma_has_event_push(pre, self.events@.last(), e2);
                        assert(self.events@ == pre.push(self.events@.last()));
                    }
                    assert(events_unique(self.events@)) by {
                        assert forall|a: int, b: int|
                            0 <= a < b < self.events@.len() implies self.events@[a]@
                            != self.events@[b]@ by {
                            if b < pre.len() {
                                assert(self.events@[a] == pre[a]);
                                assert(self.events@[b] == pre[b]);
                            } else {
                                assert(self.events@[a] == pre[a]);
                                if self.events@[a]@ == self.events@[b]@ {
                                    assert(has_event(pre, self.events@[b]@));
                                }
                            }
                        }
                    }
                }
                Ok(())
            },
        }
    }

    /// Adds `member` to the subscriber set of `event`. Idempotent: a
    /// second subscription to the same event changes nothing and is no
    /// error. Fails with `UnknownMember` when `member` is not a
    /// currently registered member; the event's publisher, by design,
    /// need not be registered yet.
    pub fn subscribe(&mut self, member: &BusName, event: Event) -> (r: Result<(), Error>)
        requires
            old(self).wf(),
        ensures
            final(self).wf(),
            !old(self).registered(member@) ==> r is Err && r->Err_0 == Error::UnknownMember
                && *final(self) == *old(self),
            old(self).registered(member@) && old(self).subscribed(event@, member@) ==> r is Ok
                && *final(self) == *old(self),
            old(self).registered(member@) && !old(self).subscribed(event@, member@) ==> r is Ok
                && subscribed_now(*old(self), *final(self), event@, member@),
    {
        match find_in(&self.entries, member) {
            None => Err(Error::UnknownMember),
            Some(_) => {
                if find_pair(&self.subs, &event, member) {
                    return Ok(());
                }
                let ghost pre = self.subs@;
                let ghost ek = event@;
                self.subs.push(SubEntry { event, member: member.clone() });
                proof {
                    let p = self.subs@.last();
                    assert(self.subs@ == pre.push(p));
                    assert(p.event@ == ek && p.member@ == member@);
                    assert forall|e2: EventKey, m: Seq<char>| #[trigger]
                    has_pair(self.subs@, e2, m) == (has_pair(pre, e2, m) || (e2 == ek && m
                        == member@)) by {
                        lemma_has_pair_push(pre, p, e2, m);
                    }
                    assert(pairs_unique(self.subs@)) by {
                        assert forall|a: int, b: int| 0 <= a < b < self.subs@.len() implies !(
                        self.subs@[a].event@ == self.subs@[b].event@ && self.subs@[a].member@
                            == self.subs@[b].member@) by {
                            if b < pre.len() {
                                assert(self.subs@[a] == pre[a]);
                                assert(self.subs@[b] == pre[b]);
                            } else {
                                assert(self.subs@[a] == pre[a]);
                                if self.subs@[a].event@ == ek && self.subs@[a].member@
                                    == member@ {
                                    assert(has_pair(pre, ek, member@));
                                }
                            }
                        }
                    }
                    assert forall|a: int| 0 <= a < self.subs@.len() implies has_name(
                        self.entries@,
                        #[trigger] self.subs@[a].member@,
                    ) by {
                        if a < pre.len() {
                            assert(self.subs@[a] == pre[a]);
                        }
                    }
                }
                Ok(())
            },
        }
    }

    /// Fans `message` out to every current subscriber of `event`: each
    /// subscriber's queue gains an independently owned copy. The
    /// subscriber set is read once at the start, and one subscriber's
    /// delivery never blocks another's; with no subscribers the call
    /// succeeds and delivers nothing.
    pub fn broadcast(&mut self, event: &Event, message: Message) -> (r: Result<(), Error>)
        requires
            old(self).wf(),
        ensures
            final(self).wf(),
            r is Ok,
            fanned_out(*old(self), *final(self), event@, message@),
    {
        let ghost mk = message@;
        let ghost pre0 = *old(self);
        let mut j: usize = 0;
        while j < self.subs.len()
            invariant
                old(self).wf(),
                self.wf(),
                j <= self.subs@.len(),
                self.subs@ == pre0.subs@,
                pre0 == *old(self),
                mk == message@,
                forall|e2: EventKey, m: Seq<char>| #[trigger] self.subscribed(e2, m)
                    == pre0.subscribed(e2, m),
                forall|e2: EventKey| #[trigger] self.declared(e2) == pre0.declared(e2),
                self.chan_bound() == pre0.chan_bound(),
                forall|n: Seq<char>| #[trigger] self.registered(n) == pre0.registered(n),
                forall|n: Seq<char>|
                    pre0.registered(n) ==> #[trigger] self.chan_of(n) == pre0.chan_of(n),
                forall|n: Seq<char>|
                    has_pair(pre0.subs@.take(j as int), event@, n) ==> #[trigger] self.queue_of(n)
                        == pre0.queue_of(n).push(mk),
                forall|n: Seq<char>|
                    pre0.registered(n) && !has_pair(pre0.subs@.take(j as int), event@, n)
                        ==> #[trigger] self.queue_of(n) == pre0.queue_of(n),
            decreases self.subs@.len() - j,
        {
            let ghost mid = *self;
            let sub_member = self.subs[j].member.clone();
            let hit = self.subs[j].event == *event;
            if hit {
                let copy = message.duplicate();
                proof {
                    assert(has_name(self.entries@, self.subs@[j as int].member@));
                }
                let ok = self.push_to(&sub_member, copy);
                proof {
                    assert(ok);
                    assert(!has_pair(pre0.subs@.take(j as int), event@, sub_member@)) by {
                        if has_pair(pre0.subs@.take(j as int), event@, sub_member@) {
                            let c = choose|c: int|
                                0 <= c < j && pre0.subs@.take(j as int)[c].event@ == event@
                                    && pre0.subs@.take(j as int)[c].member@ == sub_member@;
                            assert(pre0.subs@[c] == pre0.subs@.take(j as int)[c]);
                            assert(!(pre0.subs@[c].event@ == pre0.subs@[j as int].event@
                                && pre0.subs@[c].member@ == pre0.subs@[j as int].member@));
                        }
                    }
                    assert(mid.queue_of(sub_member@) == pre0.queue_of(sub_member@));
                }
            }
            proof {
                assert(pre0.subs@.take(j + 1 as int) =~= pre0.subs@.take(j as int).push(
                    pre0.subs@[j as int],
                ));
                assert forall|n: Seq<char>|
                    has_pair(pre0.subs@.take(j + 1 as int), event@, n) implies #[trigger]
                self.queue_of(n) == pre0.queue_of(n).push(mk) by {
                    lemma_has_pair_push(pre0.subs@.take(j as int), pre0.subs@[j as int], event@, n);
                }
                assert forall|n: Seq<char>|
                    pre0.registered(n) && !has_pair(pre0.subs@.take(j + 1 as int), event@, n)
                        implies #[trigger] self.queue_of(n) == pre0.queue_of(n) by {
                    lemma_has_pair_push(pre0.subs@.take(j as int), pre0.subs@[j as int], event@, n);
                }
            }
            j = j + 1;
        }
        proof {
            assert(pre0.subs@.take(pre0.subs@.len() as int) =~= pre0.subs@);
        }
        Ok(())
    }

    /// Best-effort delivery through a cached channel, used by `Addr`:
    /// enqueues `message` for `name` only when `chan` is the channel
    /// that member currently holds. A stale or dangling handle gets
    /// `DeliveryFailed` back instead of blocking, panicking, or
    /// silently reaching a later member of the same name.
    pub fn offer(&mut self, name: &BusName, chan: u64, message: Message) -> (r: Result<
        (),
        Error,
    >)
        requires
            old(self).wf(),
        ensures
            final(self).wf(),
            !(old(self).registered(name@) && old(self).chan_of(name@) == chan) ==> r is Err
                && r->Err_0 == Error::DeliveryFailed && *final(self) == *old(self),
            old(self).registered(name@) && old(self).chan_of(name@) == chan ==> r is Ok
                && delivered(*old(self), *final(self), name@, message@),
    {
        match find_in(&self.entries, name) {
            None => Err(Error::DeliveryFailed),
            Some(i) => {
                proof {
                    lemma_index_unique(self.entries@, i as int, name@);
                }
                if self.entries[i].chan != chan {
                    return Err(Error::DeliveryFailed);
                }
                let ok = self.push_to(name, message);
                proof {
                    assert(ok);
                }
                Ok(())
            },
        }
    }

    /// Resolves `name` to a send-only `Addr` caching the channel the
    /// member currently holds. Fails with `UnknownRecipient` when no
    /// such member is registered.
    pub fn addr_of(&self, name: &BusName) -> (r: Result<Addr, Error>)
        requires
            self.wf(),
        ensures
            self.registered(name@) ==> r is Ok && r->Ok_0@.name == name@ && r->Ok_0@.chan
                == self.chan_of(name@),
            !self.registered(name@) ==> r is Err && r->Err_0 == Error::UnknownRecipient,
    {
        match find_in(&self.entries, name) {
            None => Err(Error::UnknownRecipient),
            Some(i) => {
                proof {
                    lemma_index_unique(self.entries@, i as int, name@);
                }
                Ok(Addr::new(name.clone(), self.entries[i].chan))
            },
        }
    }

    /// Every channel a registered member holds was issued below the
    /// current bound; a later registration is issued the bound itself,
    /// so no handle made earlier can collide with it.
    pub proof fn lemma_channel_below_bound(self, n: Seq<char>)
        requires
            self.wf(),
            self.registered(n),
        ensures
            self.chan_of(n) < self.chan_bound(),
    {
        let i = index_of(self.entries@, n);
        assert(0 <= i < self.entries@.len() && self.entries@[i].name@ == n);
    }

    /// How many channels have been issued so far; registration issues
    /// channel numbers in order, so a registry that has issued fewer
    /// than `u64::MAX` channels can still admit members.
    pub fn issued(&self) -> (r: u64)
        ensures
            r == self.chan_bound(),
    {
        self.next_chan
    }

    /// Whether a member is currently registered under `name`.
    pub fn is_registered(&self, name: &BusName) -> (r: bool)
        ensures
            r == self.registered(name@),
    {
        match find_in(&self.entries, name) {
            Some(_) => true,
            None => false,
        }
    }

    /// Whether `member` currently stands in `event`'s subscriber set.
    pub fn is_subscribed(&self, event: &Event, member: &BusName) -> (r: bool)
        ensures
            r == self.subscribed(event@, member@),
    {
        find_pair(&self.subs, event, member)
    }
}

} // verus!
