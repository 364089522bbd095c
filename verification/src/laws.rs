//! The laws of the hub, proved about the model transformers that the
//! executable operations are specified against.

use vstd::prelude::*;
use crate::model::{lemma_without_id_props, without_id, HubModel, RegistryModel};
use crate::msg::ServerMessageView;

verus! {

/// After registration, the registry holds a fresh record for the new id —
/// no topic yet — and an empty delivery queue.
pub proof fn law_get_after_add(h: HubModel, id: u128)
    requires
        h.wf(),
    ensures
        h.add_client(id).registry.clients.contains_key(id),
        h.add_client(id).registry.clients[id].id == id,
        h.add_client(id).registry.clients[id].topic is None,
        h.add_client(id).queues.contains_key(id),
        h.add_client(id).queues[id] == Seq::<ServerMessageView>::empty(),
{
}

/// After removal, the registry no longer knows the id, its queue is gone,
/// and no topic lists it.
pub proof fn law_get_after_remove(h: HubModel, id: u128)
    requires
        h.wf(),
    ensures
        !h.remove_client(id).registry.clients.contains_key(id),
        !h.remove_client(id).queues.contains_key(id),
        forall|t: Seq<char>| !h.remove_client(id).registry.members(t).contains(id),
{
    let h2 = h.remove_client(id);
    assert forall|t: Seq<char>| !h2.registry.members(t).contains(id) by {
        if h2.registry.members(t).contains(id) {
            let k = choose|k: int|
                0 <= k < h2.registry.members(t).len() && h2.registry.members(t)[k] == id;
            if h.registry.clients.contains_key(id) {
                match h.registry.clients[id].topic {
                    Some(t_old) => {
                        lemma_without_id_props(h.registry.topics[t_old], id);
                        if t != t_old {
                            assert(h.registry.topics[t][k] == id);
                        }
                    },
                    None => {
                        assert(h.registry.topics[t][k] == id);
                    },
                }
            } else {
                assert(h.registry.topics[t][k] == id);
            }
        }
    }
}

/// Removing a client twice is the same as removing it once: removal of an
/// unknown id is a no-op.
pub proof fn law_remove_twice(h: HubModel, id: u128)
    requires
        h.wf(),
    ensures
        h.remove_client(id).remove_client(id) == h.remove_client(id),
{
    let h1 = h.remove_client(id);
    let h2 = h1.remove_client(id);
    assert(!h1.registry.clients.contains_key(id));
    assert(h2.queues =~= h1.queues);
    assert(h2 == h1);
}

/// A client's record outlives the registration, removal or subscription of
/// any other client.
pub proof fn law_record_stability(h: HubModel, id: u128, other: u128, topic: Seq<char>)
    requires
        h.wf(),
        h.registry.clients.contains_key(id),
        other != id,
    ensures
        h.add_client(other).registry.clients[id] == h.registry.clients[id],
        h.remove_client(other).registry.clients[id] == h.registry.clients[id],
        h.subscribe(other, topic).registry.clients[id] == h.registry.clients[id],
        h.add_client(other).registry.clients.contains_key(id),
        h.remove_client(other).registry.clients.contains_key(id),
        h.subscribe(other, topic).registry.clients.contains_key(id),
{
}

/// Subscribing to a second topic moves the client: the first topic's member
/// list no longer has it, the second one does.
pub proof fn law_resubscribe(m: RegistryModel, id: u128, first: Seq<char>, second: Seq<char>)
    requires
        m.wf(),
        m.clients.contains_key(id),
        first != second,
    ensures
        !m.subscribe(id, first).subscribe(id, second).members(first).contains(id),
        m.subscribe(id, first).subscribe(id, second).members(second).contains(id),
{
    let m1 = m.subscribe(id, first);
    let m2 = m1.subscribe(id, second);
    assert(m1.clients[id].topic == Some(first));
    lemma_without_id_props(m1.topics[first], id);
    if m2.topics.contains_key(first) {
        assert(m2.members(first) == without_id(m1.topics[first], id));
    }
    let joined = m2.topics[second];
    if m1.topics.contains_key(second) {
        assert(joined.last() == id);
        assert(joined.contains(id));
    } else {
        assert(joined[0] == id);
        assert(joined.contains(id));
    }
}

/// A topic never reported while empty: every name a reader may report has a
/// subscriber at that instant.
pub proof fn law_live_topics_nonempty(m: RegistryModel, t: Seq<char>)
    requires
        m.live_topics().contains(t),
    ensures
        m.members(t).len() > 0,
{
}

/// A topic broadcast reaches the queue of every current subscriber of the
/// topic except the excluded client, exactly once, and no other queue — in
/// particular never the excluded client's.
pub proof fn law_broadcast_topic_delivery(
    h: HubModel,
    topic: Seq<char>,
    m: ServerMessageView,
    exclude: u128,
)
    requires
        h.wf(),
    ensures
        forall|id: u128| #[trigger]
            h.queues.contains_key(id) && h.registry.members(topic).contains(id) && id != exclude
                ==> h.broadcast_topic(topic, m, Some(exclude)).queues[id] == h.queues[id].push(m),
        forall|id: u128| #[trigger]
            h.queues.contains_key(id) && !(h.registry.members(topic).contains(id) && id != exclude)
                ==> h.broadcast_topic(topic, m, Some(exclude)).queues[id] == h.queues[id],
        h.queues.contains_key(exclude) ==> h.broadcast_topic(topic, m, Some(exclude)).queues[
            exclude] == h.queues[exclude],
        h.broadcast_topic(topic, m, Some(exclude)).queues.dom() == h.queues.dom(),
{
    assert(h.broadcast_topic(topic, m, Some(exclude)).queues.dom() =~= h.queues.dom());
}

/// A global broadcast delivers the one message — same identifier, same
/// content — to every currently registered client, whatever its topic.
pub proof fn law_broadcast_global_delivery(h: HubModel, m: ServerMessageView)
    requires
        h.wf(),
    ensures
        forall|id: u128| #[trigger]
            h.registry.clients.contains_key(id) ==> h.broadcast_global(m).queues[id]
                == h.queues[id].push(m),
        h.broadcast_global(m).queues.dom() == h.queues.dom(),
{
    assert(h.broadcast_global(m).queues.dom() =~= h.queues.dom());
}

/// A private message to an unregistered id is no error and delivers
/// nothing: the hub is left exactly as it was.
pub proof fn law_send_private_unknown(h: HubModel, id: u128, m: ServerMessageView)
    requires
        h.wf(),
        !h.registry.clients.contains_key(id),
    ensures
        h.send_private(id, m) == h,
{
    assert(!h.queues.contains_key(id));
}

/// Messages enqueued for one client line up in enqueue order: delivery
/// drains the queue from the front, so they leave in this order too.
pub proof fn law_enqueue_order(h: HubModel, id: u128, m1: ServerMessageView, m2: ServerMessageView)
    requires
        h.wf(),
        h.registry.clients.contains_key(id),
    ensures
        h.send_private(id, m1).send_private(id, m2).queues[id] == h.queues[id].push(m1).push(m2),
{
}

/// A private message to a registered client lands on that client's queue
/// alone.
pub proof fn law_send_private_known(h: HubModel, id: u128, m: ServerMessageView)
    requires
        h.wf(),
        h.registry.clients.contains_key(id),
    ensures
        h.send_private(id, m).queues[id] == h.queues[id].push(m),
        forall|o: u128| #[trigger]
            h.queues.contains_key(o) && o != id ==> h.send_private(id, m).queues[o] == h.queues[o],
        h.send_private(id, m).registry == h.registry,
{
}

} // verus!
