//! The mathematical model of the hub.
//!
//! A registry is a map from client identifier to client record together with
//! a topic index: a map from topic name to the sequence of subscribed client
//! identifiers, in subscription order. A hub adds one delivery queue per
//! registered client and the record of acknowledgments. Every operation of
//! the executable registry and manager is specified as a transformer on these
//! models, and the library's laws are proved about the transformers.

use vstd::prelude::*;
use crate::msg::ServerMessageView;

verus! {

/// What the registry knows of one client.
pub struct ClientView {
    pub id: u128,
    pub topic: Option<Seq<char>>,
}

/// One acknowledgment, as recorded for the observability sink.
#[derive(Clone, Copy, PartialEq, Eq, Structural, Debug)]
pub struct Ack {
    pub client_id: u128,
    pub msg_id: u128,
}

/// The abstract state of the registry: the client table and the topic index.
/// A topic entry may outlive its last subscriber; readers filter empty
/// entries rather than pruning them.
pub struct RegistryModel {
    pub clients: Map<u128, ClientView>,
    pub topics: Map<Seq<char>, Seq<u128>>,
}

/// The abstract state of the whole hub: the registry, one delivery queue per
/// registered client, and the acknowledgments seen so far.
pub struct HubModel {
    pub registry: RegistryModel,
    pub queues: Map<u128, Seq<ServerMessageView>>,
    pub acks: Seq<Ack>,
}

impl RegistryModel {
    /// A registry with no clients and no topic entries.
    pub open spec fn empty() -> RegistryModel {
        RegistryModel { clients: Map::empty(), topics: Map::empty() }
    }

    /// Well-formedness: records are keyed by their own id; a subscribed
    /// client is listed exactly once under its topic; every listed id belongs
    /// to a registered client subscribed to that very topic.
    pub open spec fn wf(self) -> bool {
        &&& forall|id: u128| #[trigger]
            self.clients.contains_key(id) ==> self.clients[id].id == id
        &&& forall|id: u128|
            self.clients.contains_key(id) && #[trigger] self.clients[id].topic is Some ==> {
                let t = self.clients[id].topic->0;
                self.topics.contains_key(t) && self.topics[t].contains(id)
            }
        &&& forall|t: Seq<char>, i: int|
            self.topics.contains_key(t) && 0 <= i < self.topics[t].len() ==> {
                let id = #[trigger] self.topics[t][i];
                self.clients.contains_key(id) && self.clients[id].topic == Some(t)
            }
        &&& forall|t: Seq<char>, i: int, j: int|
            self.topics.contains_key(t) && 0 <= i < j < self.topics[t].len() ==> #[trigger]
                self.topics[t][i] != #[trigger] self.topics[t][j]
    }

    /// The identifiers subscribed to a topic, in subscription order; an
    /// unknown topic has no subscribers.
    pub open spec fn members(self, topic: Seq<char>) -> Seq<u128> {
        if self.topics.contains_key(topic) {
            self.topics[topic]
        } else {
            Seq::empty()
        }
    }

    /// The records of a topic's subscribers, in subscription order.
    pub open spec fn member_records(self, topic: Seq<char>) -> Seq<ClientView> {
        self.members(topic).map_values(|id: u128| self.clients[id])
    }

    /// The topic names that a reader may report: those with at least one
    /// subscriber.
    pub open spec fn live_topics(self) -> Set<Seq<char>> {
        self.topics.dom().filter(|t: Seq<char>| self.topics[t].len() > 0)
    }

    /// Registration of a fresh client, not yet subscribed anywhere.
    pub open spec fn add(self, id: u128) -> RegistryModel {
        RegistryModel {
            clients: self.clients.insert(id, ClientView { id, topic: None }),
            topics: self.topics,
        }
    }

    /// Removal of a client: its record goes, and its id leaves the topic
    /// index; the topic entry itself stays, possibly empty. Removing an
    /// unknown id changes nothing.
    pub open spec fn remove(self, id: u128) -> RegistryModel {
        if self.clients.contains_key(id) {
            let topics = match self.clients[id].topic {
                Some(t) => if self.topics.contains_key(t) {
                    self.topics.insert(t, without_id(self.topics[t], id))
                } else {
                    self.topics
                },
                None => self.topics,
            };
            RegistryModel { clients: self.clients.remove(id), topics }
        } else {
            self
        }
    }

    /// Subscription: the client leaves its previous topic's list, if any, and
    /// is appended to the new topic's list, as one step. Subscribing an
    /// unknown id changes nothing.
    pub open spec fn subscribe(self, id: u128, topic: Seq<char>) -> RegistryModel {
        if self.clients.contains_key(id) {
            let cleared = match self.clients[id].topic {
                Some(t) => if self.topics.contains_key(t) {
                    self.topics.insert(t, without_id(self.topics[t], id))
                } else {
                    self.topics
                },
                None => self.topics,
            };
            let joined = if cleared.contains_key(topic) {
                cleared.insert(topic, cleared[topic].push(id))
            } else {
                cleared.insert(topic, seq![id])
            };
            RegistryModel {
                clients: self.clients.insert(id, ClientView { id, topic: Some(topic) }),
                topics: joined,
            }
        } else {
            self
        }
    }
}

/// A member list with every occurrence of one identifier taken out.
pub open spec fn without_id(s: Seq<u128>, id: u128) -> Seq<u128> {
    s.filter(|x: u128| x != id)
}

/// No identifier occurs twice.
pub open spec fn distinct_ids(s: Seq<u128>) -> bool {
    forall|i: int, j: int| 0 <= i < j < s.len() ==> s[i] != s[j]
}

/// What taking one identifier out of a member list leaves: exactly the other
/// identifiers, still distinct if they were.
pub proof fn lemma_without_id_props(s: Seq<u128>, id: u128)
    ensures
        forall|x: u128| #[trigger] without_id(s, id).contains(x) <==> (s.contains(x) && x != id),
        distinct_ids(s) ==> distinct_ids(without_id(s, id)),
        !without_id(s, id).contains(id),
    decreases s.len(),
{
    reveal(Seq::filter);
    let pred = |x: u128| x != id;
    if s.len() == 0 {
    } else {
        let pre = s.drop_last();
        lemma_without_id_props(pre, id);
        assert forall|x: u128| #[trigger] without_id(s, id).contains(x) implies (s.contains(x)
            && x != id) by {
            if without_id(s, id).contains(x) {
                if pred(s.last()) && x == s.last() {
                    assert(s.contains(x)) by {
                        assert(s[s.len() - 1] == x);
                    }
                } else {
                    if pred(s.last()) {
                        // the last element of the filtered list is s.last(),
                        // so x sits among the filtered prefix
                        let f = without_id(s, id);
                        let i = choose|i: int| 0 <= i < f.len() && f[i] == x;
                        if i < f.len() - 1 {
                            assert(without_id(pre, id)[i] == x);
                            assert(without_id(pre, id).contains(x));
                        } else {
                            assert(x == s.last());
                        }
                    } else {
                        assert(without_id(pre, id).contains(x));
                    }
                    assert(pre.contains(x) ==> s.contains(x)) by {
                        if pre.contains(x) {
                            let i = choose|i: int| 0 <= i < pre.len() && pre[i] == x;
                            assert(s[i] == x);
                        }
                    }
                }
            }
        }
        assert forall|x: u128| s.contains(x) && x != id implies #[trigger] without_id(
            s,
            id,
        ).contains(x) by {
            let i = choose|i: int| 0 <= i < s.len() && s[i] == x;
            if i < s.len() - 1 {
                assert(pre[i] == x);
                assert(pre.contains(x));
                assert(without_id(pre, id).contains(x));
                let j = choose|j: int| 0 <= j < without_id(pre, id).len() && without_id(pre, id)[j]
                    == x;
                assert(without_id(s, id)[j] == x);
            } else {
                assert(without_id(s, id).last() == x);
            }
        }
        if distinct_ids(s) {
            assert(distinct_ids(pre));
            if pred(s.last()) {
                assert(!without_id(pre, id).contains(s.last())) by {
                    if without_id(pre, id).contains(s.last()) {
                        assert(pre.contains(s.last()));
                        let i = choose|i: int| 0 <= i < pre.len() && pre[i] == s.last();
                        assert(s[i] == s[s.len() - 1]);
                    }
                }
                let f = without_id(s, id);
                let fp = without_id(pre, id);
                assert forall|i: int, j: int| 0 <= i < j < f.len() implies f[i] != f[j] by {
                    if j < f.len() - 1 {
                        assert(fp[i] == f[i] && fp[j] == f[j]);
                    } else {
                        assert(f[j] == s.last());
                        assert(fp[i] == f[i]);
                        assert(fp.contains(f[i]));
                    }
                }
            }
        }
    }
}

/// Registering a fresh client keeps the registry well formed.
pub proof fn lemma_add_preserves_wf(m: RegistryModel, id: u128)
    requires
        m.wf(),
        !m.clients.contains_key(id),
    ensures
        m.add(id).wf(),
{
    let m2 = m.add(id);
    assert forall|t: Seq<char>, i: int|
        m2.topics.contains_key(t) && 0 <= i < m2.topics[t].len() implies {
        let x = #[trigger] m2.topics[t][i];
        m2.clients.contains_key(x) && m2.clients[x].topic == Some(t)
    } by {
        let x = m2.topics[t][i];
        assert(m.topics[t][i] == x);
        assert(m.clients.contains_key(x));
    }
}

/// Removing a client keeps the registry well formed.
pub proof fn lemma_remove_preserves_wf(m: RegistryModel, id: u128)
    requires
        m.wf(),
    ensures
        m.remove(id).wf(),
{
    if m.clients.contains_key(id) {
        let m2 = m.remove(id);
        match m.clients[id].topic {
            Some(t_old) => {
                assert(m.topics.contains_key(t_old));
                lemma_without_id_props(m.topics[t_old], id);
                assert(distinct_ids(m.topics[t_old]));
                assert forall|x: u128|
                    m2.clients.contains_key(x) && #[trigger] m2.clients[x].topic is Some implies {
                    let t2 = m2.clients[x].topic->0;
                    m2.topics.contains_key(t2) && m2.topics[t2].contains(x)
                } by {
                    let t2 = m2.clients[x].topic->0;
                    assert(m.clients[x].topic == Some(t2));
                    assert(m.topics[t2].contains(x));
                    if t2 == t_old {
                        assert(without_id(m.topics[t_old], id).contains(x));
                    }
                }
                assert forall|t: Seq<char>, i: int|
                    m2.topics.contains_key(t) && 0 <= i < m2.topics[t].len() implies {
                    let x = #[trigger] m2.topics[t][i];
                    m2.clients.contains_key(x) && m2.clients[x].topic == Some(t)
                } by {
                    let x = m2.topics[t][i];
                    if t == t_old {
                        assert(without_id(m.topics[t_old], id).contains(x));
                        assert(m.topics[t_old].contains(x));
                        let k = choose|k: int|
                            0 <= k < m.topics[t_old].len() && m.topics[t_old][k] == x;
                        assert(m.clients.contains_key(x) && m.clients[x].topic == Some(t));
                        assert(x != id);
                    } else {
                        assert(m.topics[t][i] == x);
                        assert(m.clients.contains_key(x) && m.clients[x].topic == Some(t));
                        assert(x != id) by {
                            if x == id {
                                assert(m.clients[id].topic == Some(t));
                            }
                        }
                    }
                }
                assert forall|t: Seq<char>, i: int, j: int|
                    m2.topics.contains_key(t) && 0 <= i < j < m2.topics[t].len() implies #[trigger]
                        m2.topics[t][i] != #[trigger] m2.topics[t][j] by {
                    if t == t_old {
                        assert(distinct_ids(without_id(m.topics[t_old], id)));
                    }
                }
            },
            None => {
                assert forall|t: Seq<char>, i: int|
                    m2.topics.contains_key(t) && 0 <= i < m2.topics[t].len() implies {
                    let x = #[trigger] m2.topics[t][i];
                    m2.clients.contains_key(x) && m2.clients[x].topic == Some(t)
                } by {
                    let x = m2.topics[t][i];
                    assert(m.topics[t][i] == x);
                    assert(m.clients.contains_key(x) && m.clients[x].topic == Some(t));
                    assert(x != id) by {
                        if x == id {
                            assert(m.clients[id].topic == Some(t));
                        }
                    }
                }
            },
        }
    }
}

/// Subscribing keeps the registry well formed.
pub proof fn lemma_subscribe_preserves_wf(m: RegistryModel, id: u128, topic: Seq<char>)
    requires
        m.wf(),
    ensures
        m.subscribe(id, topic).wf(),
{
    if m.clients.contains_key(id) {
        let m2 = m.subscribe(id, topic);
        let cleared = match m.clients[id].topic {
            Some(t) => if m.topics.contains_key(t) {
                m.topics.insert(t, without_id(m.topics[t], id))
            } else {
                m.topics
            },
            None => m.topics,
        };
        if m.clients[id].topic is Some {
            let t_old = m.clients[id].topic->0;
            assert(m.topics.contains_key(t_old));
            lemma_without_id_props(m.topics[t_old], id);
        }
        // After clearing, no list contains id, and the other conditions hold
        // for every client but id.
        assert forall|t: Seq<char>, i: int|
            cleared.contains_key(t) && 0 <= i < cleared[t].len() implies {
            let x = #[trigger] cleared[t][i];
            m.clients.contains_key(x) && m.clients[x].topic == Some(t) && x != id
        } by {
            let x = cleared[t][i];
            if m.clients[id].topic is Some && t == m.clients[id].topic->0 {
                let t_old = m.clients[id].topic->0;
                assert(without_id(m.topics[t_old], id).contains(x));
                assert(m.topics[t_old].contains(x));
                let k = choose|k: int| 0 <= k < m.topics[t_old].len() && m.topics[t_old][k] == x;
                assert(m.clients.contains_key(x) && m.clients[x].topic == Some(t));
            } else {
                assert(m.topics[t][i] == x);
                assert(m.clients.contains_key(x) && m.clients[x].topic == Some(t));
                assert(x != id) by {
                    if x == id {
                        assert(m.clients[id].topic == Some(t));
                    }
                }
            }
        }
        assert forall|t: Seq<char>, i: int, j: int|
            cleared.contains_key(t) && 0 <= i < j < cleared[t].len() implies #[trigger]
                cleared[t][i] != #[trigger] cleared[t][j] by {
            if m.clients[id].topic is Some && t == m.clients[id].topic->0 {
                let t_old = m.clients[id].topic->0;
                assert(distinct_ids(without_id(m.topics[t_old], id)));
            }
        }
        // The joined index restores every condition, now that id sits exactly
        // once under its new topic.
        let joined = m2.topics;
        assert forall|x: u128|
            m2.clients.contains_key(x) && #[trigger] m2.clients[x].topic is Some implies {
            let t2 = m2.clients[x].topic->0;
            m2.topics.contains_key(t2) && m2.topics[t2].contains(x)
        } by {
            let t2 = m2.clients[x].topic->0;
            if x == id {
                assert(t2 == topic);
                if cleared.contains_key(topic) {
                    assert(joined[topic].last() == id);
                } else {
                    assert(joined[topic][0] == id);
                }
            } else {
                assert(m.clients[x].topic == Some(t2));
                assert(m.topics[t2].contains(x));
                let k = choose|k: int| 0 <= k < m.topics[t2].len() && m.topics[t2][k] == x;
                if m.clients[id].topic is Some && t2 == m.clients[id].topic->0 {
                    assert(cleared[t2].contains(x));
                } else {
                    assert(cleared.contains_key(t2) && cleared[t2].contains(x));
                }
                if t2 == topic {
                    let c = cleared[t2];
                    let k2 = choose|k2: int| 0 <= k2 < c.len() && c[k2] == x;
                    assert(joined[t2][k2] == x);
                } else {
                    assert(joined[t2] == cleared[t2]);
                }
            }
        }
        assert forall|t: Seq<char>, i: int|
            m2.topics.contains_key(t) && 0 <= i < m2.topics[t].len() implies {
            let x = #[trigger] m2.topics[t][i];
            m2.clients.contains_key(x) && m2.clients[x].topic == Some(t)
        } by {
            let x = m2.topics[t][i];
            if t == topic {
                if cleared.contains_key(topic) {
                    if i < cleared[topic].len() {
                        assert(cleared[topic][i] == x);
                    } else {
                        assert(x == id);
                    }
                } else {
                    assert(x == id);
                }
            } else {
                assert(cleared[t][i] == x);
            }
        }
        assert forall|t: Seq<char>, i: int, j: int|
            m2.topics.contains_key(t) && 0 <= i < j < m2.topics[t].len() implies #[trigger]
                m2.topics[t][i] != #[trigger] m2.topics[t][j] by {
            if t == topic {
                if cleared.contains_key(topic) {
                    if j == m2.topics[t].len() - 1 {
                        assert(m2.topics[t][j] == id);
                        assert(cleared[topic][i] == m2.topics[t][i]);
                        assert(cleared[topic].contains(cleared[topic][i]));
                        assert(m2.topics[t][i] != id);
                    }
                }
            }
        }
    }
}

/// One step of filtering a prefix: extending the prefix by one element
/// appends it to the filtered list exactly when it is kept.
pub proof fn lemma_without_id_step(s: Seq<u128>, id: u128, i: int)
    requires
        0 <= i < s.len(),
    ensures
        without_id(s.take(i + 1), id) == if s[i] != id {
            without_id(s.take(i), id).push(s[i])
        } else {
            without_id(s.take(i), id)
        },
    decreases s.len(),
{
    reveal(Seq::filter);
    assert(s.take(i + 1).drop_last() =~= s.take(i));
    assert(s.take(i + 1).last() == s[i]);
}

impl HubModel {
    /// A hub with no clients.
    pub open spec fn empty() -> HubModel {
        HubModel { registry: RegistryModel::empty(), queues: Map::empty(), acks: Seq::empty() }
    }

    /// Well-formedness: the registry is well formed and there is exactly one
    /// delivery queue per registered client.
    pub open spec fn wf(self) -> bool {
        &&& self.registry.wf()
        &&& self.queues.dom() == self.registry.clients.dom()
    }

    /// Registration: any stale state under the same identifier is discarded,
    /// then a fresh record and an empty delivery queue appear.
    pub open spec fn add_client(self, id: u128) -> HubModel {
        let cleared = self.remove_client(id);
        HubModel {
            registry: cleared.registry.add(id),
            queues: cleared.queues.insert(id, Seq::empty()),
            acks: cleared.acks,
        }
    }

    /// Removal: the record, the topic membership and the delivery queue of
    /// the client all go; unknown ids are a no-op.
    pub open spec fn remove_client(self, id: u128) -> HubModel {
        HubModel {
            registry: self.registry.remove(id),
            queues: self.queues.remove(id),
            acks: self.acks,
        }
    }

    /// Subscription only touches the registry.
    pub open spec fn subscribe(self, id: u128, topic: Seq<char>) -> HubModel {
        HubModel { registry: self.registry.subscribe(id, topic), queues: self.queues, acks: self.acks }
    }

    /// Private delivery: the one queue grows by the message; an unknown
    /// recipient receives nothing and nothing changes.
    pub open spec fn send_private(self, id: u128, m: ServerMessageView) -> HubModel {
        if self.queues.contains_key(id) {
            HubModel {
                registry: self.registry,
                queues: self.queues.insert(id, self.queues[id].push(m)),
                acks: self.acks,
            }
        } else {
            self
        }
    }

    /// Global broadcast: every registered client's queue grows by the same
    /// message.
    pub open spec fn broadcast_global(self, m: ServerMessageView) -> HubModel {
        HubModel {
            registry: self.registry,
            queues: Map::new(
                |id: u128| self.queues.contains_key(id),
                |id: u128| self.queues[id].push(m),
            ),
            acks: self.acks,
        }
    }

    /// Topic broadcast: the queue of every current subscriber of the topic
    /// but the excluded one grows by the message; every other queue is
    /// untouched.
    pub open spec fn broadcast_topic(
        self,
        topic: Seq<char>,
        m: ServerMessageView,
        exclude: Option<u128>,
    ) -> HubModel {
        HubModel {
            registry: self.registry,
            queues: Map::new(
                |id: u128| self.queues.contains_key(id),
                |id: u128|
                    if self.registry.members(topic).contains(id) && Some(id) != exclude {
                        self.queues[id].push(m)
                    } else {
                        self.queues[id]
                    },
            ),
            acks: self.acks,
        }
    }

    /// Acknowledgment handling records the acknowledgment and routes nothing.
    pub open spec fn acknowledge(self, client_id: u128, msg_id: u128) -> HubModel {
        HubModel {
            registry: self.registry,
            queues: self.queues,
            acks: self.acks.push(Ack { client_id, msg_id }),
        }
    }
}

} // verus!
