//! The client manager: registration, subscription and message fan-out.
//!
//! The manager owns a registry (any `Storage` backend) and one delivery
//! queue per registered client. Producers enqueue; the transport-facing
//! forwarding loop drains one client's queue in order through
//! `next_outgoing`, which decouples producers from any one client's speed.
//! Every operation is specified as a transformer on the `HubModel`.

use vstd::prelude::*;
use crate::ids::fresh_uuid;
use crate::kv::{
    lemma_pairs_map_absent, lemma_pairs_map_at, lemma_pairs_map_contains_at, lemma_pairs_map_dom,
    lemma_pairs_map_push, lemma_pairs_map_remove, lemma_pairs_map_update, pairs_map, unique_keys,
};
use crate::model::{Ack, HubModel};
use crate::msg::{ClientId, MsgId, ServerMessage, ServerMessageView};
use crate::storage::{Client, Storage};

verus! {

/// One client's delivery channel: its ordered, unbounded outbound queue.
struct Channel {
    id: ClientId,
    queue: Vec<ServerMessage>,
}

/// The queue of a channel, as a sequence of message views.
spec fn queue_view(c: Channel) -> Seq<ServerMessageView> {
    c.queue@.map_values(|m: ServerMessage| m@)
}

/// The key-value reading of the channel table.
spec fn channel_pairs(s: Seq<Channel>) -> Seq<(u128, Seq<ServerMessageView>)> {
    s.map_values(|c: Channel| (c.id, queue_view(c)))
}

/// A manager for clients over a generic storage backend.
pub struct ClientManager<S: Storage> {
    storage: S,
    channels: Vec<Channel>,
    acks: Vec<Ack>,
}

impl<S: Storage> ClientManager<S> {
    /// The hub that this manager represents.
    pub closed spec fn model(&self) -> HubModel {
        HubModel {
            registry: self.storage.model(),
            queues: pairs_map(channel_pairs(self.channels@)),
            acks: self.acks@,
        }
    }

    /// The manager's internal invariant: a sound backend, channels keyed
    /// uniquely, and a well-formed hub (exactly one queue per client).
    pub closed spec fn inv(&self) -> bool {
        &&& self.storage.inv()
        &&& unique_keys(channel_pairs(self.channels@))
        &&& self.model().wf()
    }

    /// The position of a client's channel.
    fn find_channel_index(&self, id: ClientId) -> (r: Option<usize>)
        ensures
            match r {
                Some(i) => i < self.channels@.len() && self.channels@[i as int].id == id,
                None => forall|i: int| 0 <= i < self.channels@.len() ==> self.channels@[i].id != id,
            },
    {
        let n = self.channels.len();
        let mut i: usize = 0;
        while i < n
            invariant
                n == self.channels@.len(),
                i <= n,
                forall|j: int| 0 <= j < i ==> self.channels@[j].id != id,
            decreases n - i,
        {
            if self.channels[i].id == id {
                return Some(i);
            }
            i += 1;
        }
        None
    }

    /// Creates a new manager over an empty storage backend.
    pub fn new(storage: S) -> (r: ClientManager<S>)
        requires
            storage.inv(),
            storage.model() == crate::model::RegistryModel::empty(),
        ensures
            r.inv(),
            r.model() == HubModel::empty(),
    {
        let r = ClientManager { storage, channels: Vec::new(), acks: Vec::new() };
        proof {
            assert(channel_pairs(r.channels@) =~= Seq::<(u128, Seq<ServerMessageView>)>::empty());
            assert(r.model().queues =~= Map::<u128, Seq<ServerMessageView>>::empty());
            assert(r.model().acks =~= Seq::<Ack>::empty());
            assert(r.model().queues.dom() =~= r.model().registry.clients.dom());
        }
        r
    }

    /// Registers a new client under a freshly generated identifier, with an
    /// empty delivery queue, and returns the identifier. Any stale state
    /// under the same identifier is discarded first.
    pub fn add_client(&mut self) -> (r: ClientId)
        requires
            old(self).inv(),
        ensures
            final(self).inv(),
            final(self).model() == old(self).model().add_client(r),
    {
        let id = fresh_uuid();
        self.remove_client(&id);
        let ghost m1 = self.model();
        self.storage.add_client(Client { id, topic: None });
        let ghost p1 = channel_pairs(self.channels@);
        proof {
            lemma_pairs_map_dom(p1, id);
            assert forall|k: int| 0 <= k < p1.len() implies p1[k].0 != id by {
                lemma_pairs_map_contains_at(p1, k);
            }
        }
        self.channels.push(Channel { id, queue: Vec::new() });
        proof {
            assert(channel_pairs(self.channels@) =~~= p1.push((id, Seq::empty())));
            lemma_pairs_map_push(p1, (id, Seq::<ServerMessageView>::empty()));
            assert(self.model().queues =~= m1.queues.insert(id, Seq::empty()));
            assert(self.model() == old(self).model().add_client(id));
            self.storage.model_wf();
            assert(self.model().queues.dom() =~= self.model().registry.clients.dom());
        }
        id
    }

    /// Unregisters a client: its record, topic membership and delivery queue
    /// all go. Removing an unknown or already removed id is a no-op.
    pub fn remove_client(&mut self, client_id: &ClientId)
        requires
            old(self).inv(),
        ensures
            final(self).inv(),
            final(self).model() == old(self).model().remove_client(*client_id),
    {
        let _removed = self.storage.remove_client(client_id);
        match self.find_channel_index(*client_id) {
            Some(i) => {
                let ghost p0 = channel_pairs(self.channels@);
                let _ = self.channels.remove(i);
                proof {
                    assert(channel_pairs(self.channels@) =~= p0.remove(i as int));
                    lemma_pairs_map_remove(p0, i as int);
                }
            },
            None => {
                proof {
                    let p0 = channel_pairs(self.channels@);
                    assert forall|k: int| 0 <= k < p0.len() implies p0[k].0 != *client_id by {}
                    lemma_pairs_map_absent(p0, *client_id);
                    assert(self.model().queues =~= self.model().queues.remove(*client_id));
                }
            },
        }
        proof {
            assert(self.model().queues =~= old(self).model().queues.remove(*client_id));
            assert(self.model() == old(self).model().remove_client(*client_id));
            self.storage.model_wf();
            assert(self.model().queues.dom() =~= self.model().registry.clients.dom());
        }
    }

    /// Subscribes a client to a topic; its delivery queue and every other
    /// client are untouched.
    pub fn subscribe_client_to_topic(&mut self, client_id: &ClientId, topic: String)
        requires
            old(self).inv(),
        ensures
            final(self).inv(),
            final(self).model() == old(self).model().subscribe(*client_id, topic@),
    {
        self.storage.subscribe_client_to_topic(client_id, topic);
        proof {
            assert(self.model() == old(self).model().subscribe(*client_id, topic@));
            self.storage.model_wf();
            assert(self.model().queues.dom() =~= self.model().registry.clients.dom());
        }
    }

    /// Enqueues the message for the one client, if it is registered; an
    /// unknown recipient is no error and receives nothing.
    pub fn send_private_message(&mut self, client_id: ClientId, message: ServerMessage)
        requires
            old(self).inv(),
        ensures
            final(self).inv(),
            final(self).model() == old(self).model().send_private(client_id, message@),
    {
        match self.find_channel_index(client_id) {
            Some(i) => {
                let ghost p0 = channel_pairs(self.channels@);
                let ghost mv = message@;
                proof {
                    lemma_pairs_map_at(p0, i as int);
                }
                let mut ch = self.channels.remove(i);
                ch.queue.push(message);
                let ghost new_pair = (ch.id, queue_view(ch));
                self.channels.insert(i, ch);
                proof {
                    assert(new_pair.1 =~= p0[i as int].1.push(mv));
                    assert(channel_pairs(self.channels@) =~= p0.update(i as int, new_pair));
                    lemma_pairs_map_update(p0, i as int, new_pair);
                    lemma_pairs_map_dom(p0, client_id);
                    assert(self.model().queues =~= old(self).model().queues.insert(
                        client_id,
                        old(self).model().queues[client_id].push(mv),
                    ));
                    assert(self.model() == old(self).model().send_private(client_id, mv));
                    assert(self.model().queues.dom() =~= self.model().registry.clients.dom());
                }
            },
            None => {
                proof {
                    let p0 = channel_pairs(self.channels@);
                    assert forall|k: int| 0 <= k < p0.len() implies p0[k].0 != client_id by {}
                    lemma_pairs_map_absent(p0, client_id);
                }
            },
        }
    }

    /// Enqueues the message, cloned per recipient, onto every registered
    /// client's delivery queue.
    pub fn broadcast_global(&mut self, message: ServerMessage)
        requires
            old(self).inv(),
        ensures
            final(self).inv(),
            final(self).model() == old(self).model().broadcast_global(message@),
    {
        let n = self.channels.len();
        let mut i: usize = 0;
        while i < n
            invariant
                self.storage == old(self).storage,
                self.acks == old(self).acks,
                n == self.channels@.len(),
                old(self).channels@.len() == n,
                i <= n,
                forall|j: int|
                    0 <= j < n ==> self.channels@[j].id == old(self).channels@[j].id,
                forall|j: int|
                    0 <= j < i ==> queue_view(#[trigger] self.channels@[j]) == queue_view(
                        old(self).channels@[j],
                    ).push(message@),
                forall|j: int|
                    i <= j < n ==> queue_view(#[trigger] self.channels@[j]) == queue_view(
                        old(self).channels@[j],
                    ),
            decreases n - i,
        {
            let ghost prev = self.channels@;
            let mut ch = self.channels.remove(i);
            ch.queue.push(message.duplicate());
            self.channels.insert(i, ch);
            proof {
                assert(self.channels@ =~= prev.update(i as int, self.channels@[i as int]));
                assert(queue_view(self.channels@[i as int]) =~= queue_view(prev[i as int]).push(
                    message@,
                ));
            }
            i += 1;
        }
        proof {
            self.lemma_pushed_queues(old(self), message@);
            self.storage.model_wf();
            assert(self.model().queues.dom() =~= self.model().registry.clients.dom());
        }
    }

    /// The map-level reading of a loop that pushed one message onto every
    /// channel's queue.
    proof fn lemma_pushed_queues(&self, pre: &Self, m: ServerMessageView)
        requires
            pre.inv(),
            self.storage == pre.storage,
            self.acks == pre.acks,
            self.channels@.len() == pre.channels@.len(),
            forall|j: int|
                0 <= j < self.channels@.len() ==> self.channels@[j].id == pre.channels@[j].id,
            forall|j: int|
                0 <= j < self.channels@.len() ==> queue_view(#[trigger] self.channels@[j])
                    == queue_view(pre.channels@[j]).push(m),
        ensures
            self.inv(),
            self.model() == pre.model().broadcast_global(m),
    {
        let p0 = channel_pairs(pre.channels@);
        let p1 = channel_pairs(self.channels@);
        let q0 = pairs_map(p0);
        let q1 = pairs_map(p1);
        let target = Map::new(
            |id: u128| q0.contains_key(id),
            |id: u128| q0[id].push(m),
        );
        assert forall|j: int| 0 <= j < p1.len() implies #[trigger] p1[j].0 == p0[j].0 by {}
        assert(unique_keys(p1));
        assert forall|id: u128| #[trigger] q1.contains_key(id) == q0.contains_key(id) by {
            lemma_pairs_map_dom(p0, id);
            lemma_pairs_map_dom(p1, id);
            if q1.contains_key(id) {
                let j = choose|j: int| 0 <= j < p1.len() && p1[j].0 == id;
                assert(p0[j].0 == id);
            }
            if q0.contains_key(id) {
                let j = choose|j: int| 0 <= j < p0.len() && p0[j].0 == id;
                assert(p1[j].0 == id);
            }
        }
        assert forall|id: u128| #[trigger] q1.contains_key(id) implies q1[id] == q0[id].push(m) by {
            lemma_pairs_map_dom(p1, id);
            let j = choose|j: int| 0 <= j < p1.len() && p1[j].0 == id;
            lemma_pairs_map_at(p1, j);
            lemma_pairs_map_at(p0, j);
        }
        assert(q1 =~= target);
        assert(self.model() == pre.model().broadcast_global(m));
        assert(q1.dom() =~= q0.dom());
        assert(self.model().queues.dom() == pre.model().registry.clients.dom());
    }

    /// Enqueues the message, cloned per recipient, for every current
    /// subscriber of the topic except the excluded client, if any; no other
    /// queue changes. The exclusion lets a sender not hear its own post.
    pub fn broadcast_to_topic(
        &mut self,
        topic_name: &str,
        message: ServerMessage,
        exclude_id: Option<ClientId>,
    )
        requires
            old(self).inv(),
        ensures
            final(self).inv(),
            final(self).model() == old(self).model().broadcast_topic(
                topic_name@,
                message@,
                exclude_id,
            ),
    {
        let ghost mem_ids = old(self).model().registry.members(topic_name@);
        proof {
            self.storage.model_wf();
            assert forall|k: int| 0 <= k < mem_ids.len() implies {
                &&& old(self).model().registry.clients.contains_key(#[trigger] mem_ids[k])
                &&& old(self).model().registry.clients[mem_ids[k]].id == mem_ids[k]
            } by {
                assert(old(self).model().registry.topics[topic_name@][k] == mem_ids[k]);
            }
        }
        let members = self.storage.get_clients_in_topic(topic_name);
        proof {
            assert(members@.map_values(|c: Client| c@).len() == members@.len());
            assert(old(self).model().registry.member_records(topic_name@).len() == mem_ids.len());
            assert(members@.len() == mem_ids.len());
            assert forall|k: int| 0 <= k < members@.len() implies members@[k]@.id
                == mem_ids[k] by {
                assert(members@.map_values(|c: Client| c@)[k] == old(
                    self,
                ).model().registry.clients[mem_ids[k]]);
            }
        }
        let n = members.len();
        let mut k: usize = 0;
        while k < n
            invariant
                old(self).inv(),
                self.storage == old(self).storage,
                self.acks == old(self).acks,
                n == members@.len(),
                mem_ids.len() == n,
                forall|q: int| 0 <= q < n ==> members@[q]@.id == mem_ids[q],
                forall|q1: int, q2: int| 0 <= q1 < q2 < n ==> mem_ids[q1] != mem_ids[q2],
                forall|q: int|
                    0 <= q < n ==> #[trigger] old(self).model().registry.clients.contains_key(
                        mem_ids[q],
                    ),
                k <= n,
                self.channels@.len() == old(self).channels@.len(),
                forall|j: int|
                    0 <= j < self.channels@.len() ==> self.channels@[j].id == old(
                        self,
                    ).channels@[j].id,
                forall|j: int|
                    0 <= j < self.channels@.len() ==> queue_view(#[trigger] self.channels@[j])
                        == if mem_ids.take(k as int).contains(old(self).channels@[j].id) && Some(
                        old(self).channels@[j].id,
                    ) != exclude_id {
                        queue_view(old(self).channels@[j]).push(message@)
                    } else {
                        queue_view(old(self).channels@[j])
                    },
            decreases n - k,
        {
            let cid = members[k].id;
            let excluded = match exclude_id {
                Some(x) => x == cid,
                None => false,
            };
            proof {
                assert(mem_ids.take(k as int + 1) =~= mem_ids.take(k as int).push(mem_ids[k as int]));
                assert(!mem_ids.take(k as int).contains(cid)) by {
                    if mem_ids.take(k as int).contains(cid) {
                        let q = choose|q: int|
                            0 <= q < k && mem_ids.take(k as int)[q] == cid;
                        assert(mem_ids[q] == mem_ids[k as int]);
                    }
                }
            }
            if !excluded {
                match self.find_channel_index(cid) {
                    Some(i) => {
                        let ghost prev = self.channels@;
                        let mut ch = self.channels.remove(i);
                        ch.queue.push(message.duplicate());
                        self.channels.insert(i, ch);
                        proof {
                            assert(self.channels@ =~= prev.update(
                                i as int,
                                self.channels@[i as int],
                            ));
                            assert(queue_view(self.channels@[i as int]) =~= queue_view(
                                prev[i as int],
                            ).push(message@));
                            let t0 = mem_ids.take(k as int);
                            let t1 = mem_ids.take(k as int + 1);
                            assert(t1[k as int] == cid);
                            assert(t1.contains(cid));
                            assert forall|j: int|
                                0 <= j < self.channels@.len() implies queue_view(
                                #[trigger] self.channels@[j],
                            ) == if mem_ids.take(k as int + 1).contains(
                                old(self).channels@[j].id,
                            ) && Some(old(self).channels@[j].id) != exclude_id {
                                queue_view(old(self).channels@[j]).push(message@)
                            } else {
                                queue_view(old(self).channels@[j])
                            } by {
                                if j != i {
                                    assert(self.channels@[j] == prev[j]);
                                    let p0 = channel_pairs(old(self).channels@);
                                    assert(p0[j].0 == old(self).channels@[j].id);
                                    assert(p0[i as int].0 == old(self).channels@[i as int].id);
                                    assert(old(self).channels@[i as int].id == cid);
                                    let idj = old(self).channels@[j].id;
                                    assert(idj != cid);
                                    assert(t1.contains(idj) == t0.contains(idj)) by {
                                        if t0.contains(idj) {
                                            let q = choose|q: int| 0 <= q < t0.len() && t0[q] == idj;
                                            assert(t1[q] == idj);
                                        }
                                        if t1.contains(idj) {
                                            let q = choose|q: int| 0 <= q < t1.len() && t1[q] == idj;
                                            if q < k as int {
                                                assert(t0[q] == idj);
                                            }
                                        }
                                    }
                                } else {
                                    assert(!t0.contains(cid));
                                    assert(queue_view(prev[i as int]) == queue_view(
                                        old(self).channels@[i as int],
                                    ));
                                }
                            }
                        }
                    },
                    None => {
                        proof {
                            // a topic member is registered, so its channel
                            // exists: the missing channel is impossible
                            let p0 = channel_pairs(old(self).channels@);
                            assert(old(self).model().registry.clients.contains_key(cid));
                            assert(old(self).model().queues.contains_key(cid));
                            lemma_pairs_map_dom(p0, cid);
                            let j = choose|j: int| 0 <= j < p0.len() && p0[j].0 == cid;
                            assert(old(self).channels@[j].id == cid);
                            assert(self.channels@[j].id == cid);
                            assert(false);
                        }
                    },
                }
            } else {
                proof {
                    assert forall|j: int|
                        0 <= j < self.channels@.len() implies queue_view(
                        #[trigger] self.channels@[j],
                    ) == if mem_ids.take(k as int + 1).contains(old(self).channels@[j].id)
                        && Some(old(self).channels@[j].id) != exclude_id {
                        queue_view(old(self).channels@[j]).push(message@)
                    } else {
                        queue_view(old(self).channels@[j])
                    } by {
                        if old(self).channels@[j].id == cid {
                            assert(Some(old(self).channels@[j].id) == exclude_id);
                        }
                    }
                }
            }
            k += 1;
        }
        proof {
            assert(mem_ids.take(n as int) =~= mem_ids);
            self.lemma_pushed_topic_queues(old(self), topic_name@, message@, exclude_id);
            self.storage.model_wf();
            assert(self.model().queues.dom() =~= self.model().registry.clients.dom());
        }
    }

    /// The map-level reading of a loop that pushed one message onto the
    /// queues of a topic's subscribers, minus the excluded client.
    proof fn lemma_pushed_topic_queues(
        &self,
        pre: &Self,
        topic: Seq<char>,
        m: ServerMessageView,
        exclude: Option<u128>,
    )
        requires
            pre.inv(),
            self.storage == pre.storage,
            self.acks == pre.acks,
            self.channels@.len() == pre.channels@.len(),
            forall|j: int|
                0 <= j < self.channels@.len() ==> self.channels@[j].id == pre.channels@[j].id,
            forall|j: int|
                0 <= j < self.channels@.len() ==> queue_view(#[trigger] self.channels@[j])
                    == if pre.model().registry.members(topic).contains(pre.channels@[j].id)
                    && Some(pre.channels@[j].id) != exclude {
                    queue_view(pre.channels@[j]).push(m)
                } else {
                    queue_view(pre.channels@[j])
                },
        ensures
            self.inv(),
            self.model() == pre.model().broadcast_topic(topic, m, exclude),
    {
        let p0 = channel_pairs(pre.channels@);
        let p1 = channel_pairs(self.channels@);
        let q0 = pairs_map(p0);
        let q1 = pairs_map(p1);
        let mem = pre.model().registry.members(topic);
        let target = Map::new(
            |id: u128| q0.contains_key(id),
            |id: u128|
                if mem.contains(id) && Some(id) != exclude {
                    q0[id].push(m)
                } else {
                    q0[id]
                },
        );
        assert forall|j: int| 0 <= j < p1.len() implies #[trigger] p1[j].0 == p0[j].0 by {}
        assert(unique_keys(p1));
        assert forall|id: u128| #[trigger] q1.contains_key(id) == q0.contains_key(id) by {
            lemma_pairs_map_dom(p0, id);
            lemma_pairs_map_dom(p1, id);
            if q1.contains_key(id) {
                let j = choose|j: int| 0 <= j < p1.len() && p1[j].0 == id;
                assert(p0[j].0 == id);
            }
            if q0.contains_key(id) {
                let j = choose|j: int| 0 <= j < p0.len() && p0[j].0 == id;
                assert(p1[j].0 == id);
            }
        }
        assert forall|id: u128| #[trigger] q1.contains_key(id) implies q1[id] == target[id] by {
            lemma_pairs_map_dom(p1, id);
            let j = choose|j: int| 0 <= j < p1.len() && p1[j].0 == id;
            lemma_pairs_map_at(p1, j);
            lemma_pairs_map_at(p0, j);
        }
        assert(q1 =~= target);
        assert(self.model() == pre.model().broadcast_topic(topic, m, exclude));
        assert(q1.dom() =~= q0.dom());
        assert(self.model().queues.dom() == pre.model().registry.clients.dom());
    }

    /// The records of a topic's current subscribers.
    pub fn get_clients_by_topic(&self, topic: &str) -> (r: Vec<Client>)
        requires
            self.inv(),
        ensures
            r@.map_values(|c: Client| c@) == self.model().registry.member_records(topic@),
    {
        self.storage.get_clients_in_topic(topic)
    }

    /// Every registered client's record, each exactly once.
    pub fn get_all_clients(&self) -> (r: Vec<Client>)
        requires
            self.inv(),
        ensures
            forall|i: int|
                0 <= i < r@.len() ==> {
                    let c = #[trigger] r@[i]@;
                    self.model().registry.clients.contains_key(c.id)
                        && self.model().registry.clients[c.id] == c
                },
            forall|id: u128| #[trigger]
                self.model().registry.clients.contains_key(id) ==> exists|i: int|
                    0 <= i < r@.len() && r@[i]@.id == id,
            forall|i: int, j: int| 0 <= i < j < r@.len() ==> r@[i]@.id != r@[j]@.id,
    {
        self.storage.get_all_clients()
    }

    /// The names of the topics with at least one current subscriber, each
    /// exactly once: a name whose subscriber set is empty is never reported.
    pub fn get_all_topics(&self) -> (r: Vec<String>)
        requires
            self.inv(),
        ensures
            forall|i: int|
                0 <= i < r@.len() ==> self.model().registry.live_topics().contains(
                    #[trigger] r@[i]@,
                ),
            forall|t: Seq<char>| #[trigger]
                self.model().registry.live_topics().contains(t) ==> exists|i: int|
                    0 <= i < r@.len() && r@[i]@ == t,
            forall|i: int, j: int| 0 <= i < j < r@.len() ==> r@[i]@ != r@[j]@,
    {
        self.storage.get_all_topics()
    }

    /// Records an acknowledgment for the observability sink; no routing
    /// state changes.
    pub fn handle_message_acknowledgment(&mut self, client_id: ClientId, msg_id: MsgId)
        requires
            old(self).inv(),
        ensures
            final(self).inv(),
            final(self).model() == old(self).model().acknowledge(client_id, msg_id),
    {
        self.acks.push(Ack { client_id, msg_id });
        proof {
            assert(self.model().queues.dom() =~= self.model().registry.clients.dom());
        }
    }

    /// Registers a client exactly as `add_client` does, without a transport
    /// behind it; tests inspect its queue through `queued_messages`.
    pub fn add_test_client(&mut self) -> (r: ClientId)
        requires
            old(self).inv(),
        ensures
            final(self).inv(),
            final(self).model() == old(self).model().add_client(r),
    {
        self.add_client()
    }

    /// A copy of the messages now queued for one client, in enqueue order;
    /// an unknown id has none.
    pub fn queued_messages(&self, client_id: &ClientId) -> (r: Vec<ServerMessage>)
        requires
            self.inv(),
        ensures
            r@.map_values(|m: ServerMessage| m@) == if self.model().queues.contains_key(
                *client_id,
            ) {
                self.model().queues[*client_id]
            } else {
                Seq::<ServerMessageView>::empty()
            },
    {
        match self.find_channel_index(*client_id) {
            Some(i) => {
                proof {
                    lemma_pairs_map_at(channel_pairs(self.channels@), i as int);
                }
                let q = &self.channels[i].queue;
                let n = q.len();
                let mut out: Vec<ServerMessage> = Vec::new();
                let mut k: usize = 0;
                while k < n
                    invariant
                        n == q@.len(),
                        k <= n,
                        out@.len() == k,
                        forall|j: int| 0 <= j < k ==> out@[j]@ == q@[j]@,
                    decreases n - k,
                {
                    out.push(q[k].duplicate());
                    k += 1;
                }
                proof {
                    assert(out@.map_values(|m: ServerMessage| m@) =~= queue_view(
                        self.channels@[i as int],
                    ));
                }
                out
            },
            None => {
                let out: Vec<ServerMessage> = Vec::new();
                proof {
                    let p0 = channel_pairs(self.channels@);
                    assert forall|j: int| 0 <= j < p0.len() implies p0[j].0 != *client_id by {}
                    lemma_pairs_map_absent(p0, *client_id);
                    assert(out@.map_values(|m: ServerMessage| m@) =~= Seq::<
                        ServerMessageView,
                    >::empty());
                }
                out
            },
        }
    }

    /// Takes the next message to forward to one client's transport: the
    /// head of its queue, so that one client's messages leave in enqueue
    /// order. Returns nothing when the queue is empty or the id unknown.
    pub fn next_outgoing(&mut self, client_id: &ClientId) -> (r: Option<ServerMessage>)
        requires
            old(self).inv(),
        ensures
            final(self).inv(),
            match r {
                Some(m) => {
                    &&& old(self).model().queues.contains_key(*client_id)
                    &&& old(self).model().queues[*client_id].len() > 0
                    &&& m@ == old(self).model().queues[*client_id][0]
                    &&& final(self).model() == HubModel {
                        registry: old(self).model().registry,
                        queues: old(self).model().queues.insert(
                            *client_id,
                            old(self).model().queues[*client_id].drop_first(),
                        ),
                        acks: old(self).model().acks,
                    }
                },
                None => {
                    &&& final(self).model() == old(self).model()
                    &&& (old(self).model().queues.contains_key(*client_id) ==> old(
                        self,
                    ).model().queues[*client_id].len() == 0)
                },
            },
    {
        match self.find_channel_index(*client_id) {
            Some(i) => {
                let ghost p0 = channel_pairs(self.channels@);
                proof {
                    lemma_pairs_map_at(p0, i as int);
                }
                if self.channels[i].queue.len() == 0 {
                    return None;
                }
                let mut ch = self.channels.remove(i);
                let head = ch.queue.remove(0);
                let ghost new_pair = (ch.id, queue_view(ch));
                self.channels.insert(i, ch);
                proof {
                    assert(new_pair.1 =~= p0[i as int].1.drop_first());
                    assert(channel_pairs(self.channels@) =~= p0.update(i as int, new_pair));
                    lemma_pairs_map_update(p0, i as int, new_pair);
                    assert(self.model().queues =~= old(self).model().queues.insert(
                        *client_id,
                        old(self).model().queues[*client_id].drop_first(),
                    ));
                    self.storage.model_wf();
                    assert(self.model().queues.dom() =~= self.model().registry.clients.dom());
                }
                Some(head)
            },
            None => {
                proof {
                    let p0 = channel_pairs(self.channels@);
                    assert forall|j: int| 0 <= j < p0.len() implies p0[j].0 != *client_id by {}
                    lemma_pairs_map_absent(p0, *client_id);
                }
                None
            },
        }
    }
}

} // verus!
