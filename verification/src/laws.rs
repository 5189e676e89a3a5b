//! The bus guarantees, stated once and proved, over the transition
//! relations that the registry operations ensure.

use vstd::prelude::*;
use crate::message::MessageKey;
use crate::name::EventKey;
use crate::registry::{admitted, consumed, delivered, fanned_out, removed, subscribed_now, Registry};

verus! {

/// Uniqueness: a registration is admitted only for a free name, and it
/// leaves the name held — so while one successful registration for a
/// name is outstanding, no second registration of that name can be
/// admitted.
pub proof fn lemma_register_uniqueness(r0: Registry, r1: Registry, r2: Registry, n: Seq<char>)
    requires
        admitted(r0, r1, n),
    ensures
        r1.registered(n),
        !admitted(r1, r2, n),
{
}

/// Stale handles stay stale: a registration admitted for a name is
/// issued a channel no earlier handle can hold, so a send-only handle
/// cached before the name was freed and re-taken fails instead of
/// reaching the new member's queue.
pub proof fn lemma_stale_handle_never_aliases(
    pre: Registry,
    post: Registry,
    n: Seq<char>,
    chan: u64,
)
    requires
        admitted(pre, post, n),
        chan < pre.chan_bound(),
    ensures
        post.chan_of(n) != chan,
{
}

/// Clean teardown: once a member's registration has been removed, the
/// name is no longer registered — so a later point-to-point delivery to
/// it cannot happen — and it stands in no event's subscriber set.
pub proof fn lemma_clean_teardown(pre: Registry, post: Registry, n: Seq<char>, e: EventKey)
    requires
        removed(pre, post, n),
    ensures
        !post.registered(n),
        !post.subscribed(e, n),
        forall|m: MessageKey| !delivered(post, post, n, m),
{
    assert forall|m: MessageKey| !delivered(post, post, n, m) by {}
}

/// Point-to-point ordering: two messages delivered to one destination,
/// one after the other, stand in its queue in delivery order, the first
/// nearer the front.
pub proof fn lemma_point_to_point_order(
    r0: Registry,
    r1: Registry,
    r2: Registry,
    dest: Seq<char>,
    m1: MessageKey,
    m2: MessageKey,
)
    requires
        delivered(r0, r1, dest, m1),
        delivered(r1, r2, dest, m2),
    ensures
        r2.queue_of(dest).len() >= 2,
        r2.queue_of(dest)[r2.queue_of(dest).len() - 2] == m1,
        r2.queue_of(dest)[r2.queue_of(dest).len() - 1] == m2,
{
}

/// Point-to-point ordering, end to end: starting from an empty queue,
/// after two deliveries the first consumption finds the first message
/// at the front, the second finds the second, and nothing remains —
/// the destination reads the messages in the order they were sent.
pub proof fn lemma_send_send_receive_receive(
    r0: Registry,
    r1: Registry,
    r2: Registry,
    r3: Registry,
    r4: Registry,
    dest: Seq<char>,
    m1: MessageKey,
    m2: MessageKey,
)
    requires
        r0.queue_of(dest).len() == 0,
        delivered(r0, r1, dest, m1),
        delivered(r1, r2, dest, m2),
        consumed(r2, r3, dest),
        consumed(r3, r4, dest),
    ensures
        r2.queue_of(dest)[0] == m1,
        r3.queue_of(dest)[0] == m2,
        r4.queue_of(dest).len() == 0,
{
    assert(r2.queue_of(dest) == r0.queue_of(dest).push(m1).push(m2));
    assert(r3.queue_of(dest)[0] == m2);
}

/// Consuming preserves the order of what remains: the queue loses
/// exactly its front element and every later message keeps its place,
/// so repeated consumption yields messages in delivery order.
pub proof fn lemma_consume_in_order(pre: Registry, post: Registry, n: Seq<char>)
    requires
        consumed(pre, post, n),
    ensures
        post.queue_of(n).len() == pre.queue_of(n).len() - 1,
        forall|k: int|
            0 <= k < post.queue_of(n).len() ==> post.queue_of(n)[k] == pre.queue_of(n)[k + 1],
{
}

/// Broadcast fan-out: every name subscribed to the event at the moment
/// of the broadcast finds its own copy of the message at the back of
/// its own queue, whatever the other subscribers' queues held — one
/// subscriber's backlog never touches another's delivery.
pub proof fn lemma_broadcast_fanout(
    pre: Registry,
    post: Registry,
    e: EventKey,
    m: MessageKey,
    a: Seq<char>,
    b: Seq<char>,
)
    requires
        fanned_out(pre, post, e, m),
        pre.subscribed(e, a),
        pre.subscribed(e, b),
    ensures
        post.queue_of(a) == pre.queue_of(a).push(m),
        post.queue_of(b) == pre.queue_of(b).push(m),
        post.queue_of(a).last() == m,
        post.queue_of(b).last() == m,
{
}

/// Idempotent subscription: a subscription only ever adds the one
/// (event, name) pair — the subscriber set afterwards is the old set
/// plus the name — and the registry operations leave a registry that
/// already holds the pair unchanged, so subscribing twice leaves the
/// name in the set exactly once.
pub proof fn lemma_subscribe_idempotent(pre: Registry, post: Registry, e: EventKey, n: Seq<char>)
    requires
        subscribed_now(pre, post, e, n),
    ensures
        post.subscribers(e) == pre.subscribers(e).insert(n),
        post.subscribers(e).contains(n),
        !subscribed_now(post, post, e, n),
{
    assert(post.subscribers(e) =~= pre.subscribers(e).insert(n));
}

} // verus!
