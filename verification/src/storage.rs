//! The client registry: a store of client records and the topic index.
//!
//! `Storage` is the capability interface that callers go through, so that
//! other backends stay pluggable; `InMemoryStorage` is the one required
//! implementation. Every operation is specified as a transformer on the
//! `RegistryModel` of `crate::model`.

use vstd::prelude::*;
use crate::kv::{
    lemma_pairs_map_absent, lemma_pairs_map_at, lemma_pairs_map_contains_at, lemma_pairs_map_push,
    lemma_pairs_map_remove, lemma_pairs_map_update, pairs_map, unique_keys,
};
use crate::model::{
    lemma_add_preserves_wf, lemma_remove_preserves_wf, lemma_subscribe_preserves_wf,
    lemma_without_id_step, without_id, ClientView, RegistryModel,
};
use crate::msg::ClientId;

verus! {

/// A connected client's record: its identifier and its current topic, if
/// any. The delivery queue that belongs to the client is held by the
/// manager, keyed by the same identifier.
pub struct Client {
    pub id: ClientId,
    pub topic: Option<String>,
}

impl View for Client {
    type V = ClientView;

    open spec fn view(&self) -> ClientView {
        ClientView {
            id: self.id,
            topic: match self.topic {
                Some(t) => Some(t@),
                None => None,
            },
        }
    }
}

impl Client {
    /// An exact copy of the record.
    pub fn duplicate(&self) -> (r: Client)
        ensures
            r@ == self@,
    {
        Client {
            id: self.id,
            topic: match &self.topic {
                Some(t) => Some(t.clone()),
                None => None,
            },
        }
    }
}

/// One topic of the index: its name and its subscribers in subscription
/// order. The entry stays when its last subscriber leaves; readers filter.
struct TopicEntry {
    name: String,
    members: Vec<ClientId>,
}

/// The key-value reading of the client table.
pub open spec fn client_pairs(s: Seq<Client>) -> Seq<(u128, ClientView)> {
    s.map_values(|c: Client| (c.id, c@))
}

spec fn topic_pairs(s: Seq<TopicEntry>) -> Seq<(Seq<char>, Seq<u128>)> {
    s.map_values(|e: TopicEntry| (e.name@, e.members@))
}

/// The contract for storing client and topic information. Other backends
/// (an external store, say) may stand behind the same interface without
/// changing callers.
pub trait Storage: Sized {
    /// The registry that this store represents.
    spec fn model(&self) -> RegistryModel;

    /// The store's internal invariant.
    spec fn inv(&self) -> bool;

    /// A well-kept store represents a well-formed registry.
    proof fn model_wf(&self)
        requires
            self.inv(),
        ensures
            self.model().wf(),
    ;

    /// Inserts a new record; the identifier is the caller's to make unique,
    /// and a fresh record carries no topic.
    fn add_client(&mut self, client: Client)
        requires
            old(self).inv(),
            !old(self).model().clients.contains_key(client.id),
            client@.topic is None,
        ensures
            final(self).inv(),
            final(self).model() == old(self).model().add(client.id),
    ;

    /// Deletes the record and excises the client from its topic's member
    /// list; returns the removed record, or nothing for an unknown id.
    fn remove_client(&mut self, client_id: &ClientId) -> (r: Option<Client>)
        requires
            old(self).inv(),
        ensures
            final(self).inv(),
            final(self).model() == old(self).model().remove(*client_id),
            r is Some <==> old(self).model().clients.contains_key(*client_id),
            r matches Some(c) ==> c@ == old(self).model().clients[*client_id],
    ;

    /// Looks a record up by id.
    fn get_client(&self, client_id: &ClientId) -> (r: Option<Client>)
        requires
            self.inv(),
        ensures
            r is Some <==> self.model().clients.contains_key(*client_id),
            r matches Some(c) ==> c@ == self.model().clients[*client_id],
    ;

    /// Every record, each exactly once; the order is the store's own.
    fn get_all_clients(&self) -> (r: Vec<Client>)
        requires
            self.inv(),
        ensures
            forall|i: int|
                0 <= i < r@.len() ==> {
                    let c = #[trigger] r@[i]@;
                    self.model().clients.contains_key(c.id) && self.model().clients[c.id] == c
                },
            forall|id: u128| #[trigger]
                self.model().clients.contains_key(id) ==> exists|i: int|
                    0 <= i < r@.len() && r@[i]@.id == id,
            forall|i: int, j: int| 0 <= i < j < r@.len() ==> r@[i]@.id != r@[j]@.id,
    ;

    /// Moves the client from its previous topic's member list, if any, to
    /// the new topic's, and records the new topic; unknown ids are a no-op.
    fn subscribe_client_to_topic(&mut self, client_id: &ClientId, topic: String)
        requires
            old(self).inv(),
        ensures
            final(self).inv(),
            final(self).model() == old(self).model().subscribe(*client_id, topic@),
    ;

    /// The records of a topic's subscribers, in subscription order.
    fn get_clients_in_topic(&self, topic: &str) -> (r: Vec<Client>)
        requires
            self.inv(),
        ensures
            r@.map_values(|c: Client| c@) == self.model().member_records(topic@),
    ;

    /// The names of the topics that currently have a subscriber, each
    /// exactly once.
    fn get_all_topics(&self) -> (r: Vec<String>)
        requires
            self.inv(),
        ensures
            forall|i: int|
                0 <= i < r@.len() ==> self.model().live_topics().contains(#[trigger] r@[i]@),
            forall|t: Seq<char>| #[trigger]
                self.model().live_topics().contains(t) ==> exists|i: int|
                    0 <= i < r@.len() && r@[i]@ == t,
            forall|i: int, j: int| 0 <= i < j < r@.len() ==> r@[i]@ != r@[j]@,
    ;
}

/// The in-memory registry: the client table and the topic index, both kept
/// as vectors read as maps.
pub struct InMemoryStorage {
    clients: Vec<Client>,
    topics: Vec<TopicEntry>,
}

impl Default for InMemoryStorage {
    /// The empty registry.
    fn default() -> (r: InMemoryStorage)
        ensures
            r.inv(),
            r.model() == RegistryModel::empty(),
    {
        InMemoryStorage::new()
    }
}

impl InMemoryStorage {
    /// An empty registry.
    pub fn new() -> (r: InMemoryStorage)
        ensures
            r.inv(),
            r.model() == RegistryModel::empty(),
    {
        let r = InMemoryStorage { clients: Vec::new(), topics: Vec::new() };
        proof {
            assert(r.model().clients =~= Map::<u128, ClientView>::empty());
            assert(r.model().topics =~= Map::<Seq<char>, Seq<u128>>::empty());
        }
        r
    }

    /// The position of a client's record, if it is registered.

    fn find_client_index(&self, id: ClientId) -> (r: Option<usize>)
        ensures
            match r {
                Some(i) => i < self.clients@.len() && self.clients@[i as int].id == id,
                None => forall|i: int| 0 <= i < self.clients@.len() ==> self.clients@[i].id != id,
            },
    {
        let n = self.clients.len();
        let mut i: usize = 0;
        while i < n
            invariant
                n == self.clients@.len(),
                i <= n,
                forall|j: int| 0 <= j < i ==> self.clients@[j].id != id,
            decreases n - i,
        {
            if self.clients[i].id == id {
                return Some(i);
            }
            i += 1;
        }
        None
    }

    /// The position of a topic's entry, if the index has one.
    fn find_topic_index(&self, name: &str) -> (r: Option<usize>)
        ensures
            match r {
                Some(i) => i < self.topics@.len() && self.topics@[i as int].name@ == name@,
                None => forall|i: int|
                    0 <= i < self.topics@.len() ==> self.topics@[i].name@ != name@,
            },
    {
        let n = self.topics.len();
        let mut i: usize = 0;
        while i < n
            invariant
                n == self.topics@.len(),
                i <= n,
                forall|j: int| 0 <= j < i ==> self.topics@[j].name@ != name@,
            decreases n - i,
        {
            if crate::text::str_eq(self.topics[i].name.as_str(), name) {
                return Some(i);
            }
            i += 1;
        }
        None
    }
}

/// Takes every occurrence of one identifier out of a member list, in place.
fn remove_member(members: &mut Vec<ClientId>, id: ClientId)
    ensures
        final(members)@ == without_id(old(members)@, id),
{
    let n = members.len();
    let mut kept: Vec<ClientId> = Vec::new();
    let mut i: usize = 0;
    proof {
        assert(members@.take(0) =~= Seq::<u128>::empty());
        reveal(Seq::filter);
    }
    while i < n
        invariant
            n == members@.len(),
            i <= n,
            kept@ == without_id(members@.take(i as int), id),
        decreases n - i,
    {
        proof {
            lemma_without_id_step(members@, id, i as int);
        }
        if members[i] != id {
            let m = members[i];
            kept.push(m);
        }
        i += 1;
    }
    proof {
        assert(members@.take(n as int) =~= members@);
    }
    *members = kept;
}

impl Storage for InMemoryStorage {
    closed spec fn model(&self) -> RegistryModel {
        RegistryModel {
            clients: pairs_map(client_pairs(self.clients@)),
            topics: pairs_map(topic_pairs(self.topics@)),
        }
    }

    closed spec fn inv(&self) -> bool {
        &&& unique_keys(client_pairs(self.clients@))
        &&& unique_keys(topic_pairs(self.topics@))
        &&& self.model().wf()
    }

    proof fn model_wf(&self) {
    }

    fn add_client(&mut self, client: Client) {
        let ghost old_pairs = client_pairs(self.clients@);
        let ghost p = (client.id, client@);
        self.clients.push(client);
        proof {
            assert(client_pairs(self.clients@) =~= old_pairs.push(p));
            lemma_pairs_map_push(old_pairs, p);
            assert forall|i: int| 0 <= i < old_pairs.len() implies old_pairs[i].0 != p.0 by {
                lemma_pairs_map_contains_at(old_pairs, i);
            }
            lemma_add_preserves_wf(old(self).model(), p.0);
            assert(self.model().clients =~= old(self).model().add(p.0).clients);
        }
    }

    fn remove_client(&mut self, client_id: &ClientId) -> (r: Option<Client>) {
        match self.find_client_index(*client_id) {
            None => {
                proof {
                    let pairs = client_pairs(self.clients@);
                    assert forall|i: int| 0 <= i < pairs.len() implies pairs[i].0
                        != *client_id by {}
                    lemma_pairs_map_absent(pairs, *client_id);
                }
                None
            },
            Some(i) => {
                let ghost m0 = old(self).model();
                let ghost old_cpairs = client_pairs(self.clients@);
                proof {
                    lemma_pairs_map_at(old_cpairs, i as int);
                }
                let removed = self.clients.remove(i);
                proof {
                    assert(client_pairs(self.clients@) =~= old_cpairs.remove(i as int));
                    lemma_pairs_map_remove(old_cpairs, i as int);
                    assert(self.model().clients =~= m0.clients.remove(*client_id));
                }
                match &removed.topic {
                    Some(t_old) => {
                        match self.find_topic_index(t_old.as_str()) {
                            Some(j) => {
                                let ghost old_tpairs = topic_pairs(self.topics@);
                                proof {
                                    lemma_pairs_map_at(old_tpairs, j as int);
                                }
                                let mut entry = self.topics.remove(j);
                                remove_member(&mut entry.members, *client_id);
                                let ghost new_pair = (entry.name@, entry.members@);
                                self.topics.insert(j, entry);
                                proof {
                                    assert(topic_pairs(self.topics@) =~= old_tpairs.update(
                                        j as int,
                                        new_pair,
                                    ));
                                    lemma_pairs_map_update(old_tpairs, j as int, new_pair);
                                    assert(self.model().topics =~= m0.topics.insert(
                                        t_old@,
                                        without_id(m0.topics[t_old@], *client_id),
                                    ));
                                    assert(self.model() == m0.remove(*client_id));
                                    lemma_remove_preserves_wf(m0, *client_id);
                                }
                            },
                            None => {
                                proof {
                                    // The removed record was subscribed, so by
                                    // well-formedness the index has its topic.
                                    let tpairs = topic_pairs(self.topics@);
                                    assert forall|k: int| 0 <= k < tpairs.len() implies tpairs[k].0
                                        != t_old@ by {}
                                    lemma_pairs_map_absent(tpairs, t_old@);
                                    assert(m0.clients[*client_id].topic == Some(t_old@));
                                    assert(false);
                                }
                            },
                        }
                    },
                    None => {
                        proof {
                            assert(self.model() == m0.remove(*client_id));
                            lemma_remove_preserves_wf(m0, *client_id);
                        }
                    },
                }
                Some(removed)
            },
        }
    }

    fn get_client(&self, client_id: &ClientId) -> (r: Option<Client>) {
        match self.find_client_index(*client_id) {
            None => {
                proof {
                    let pairs = client_pairs(self.clients@);
                    lemma_pairs_map_absent(pairs, *client_id);
                }
                None
            },
            Some(i) => {
                proof {
                    lemma_pairs_map_at(client_pairs(self.clients@), i as int);
                }
                Some(self.clients[i].duplicate())
            },
        }
    }

    fn get_all_clients(&self) -> (r: Vec<Client>) {
        let n = self.clients.len();
        let mut out: Vec<Client> = Vec::new();
        let mut i: usize = 0;
        while i < n
            invariant
                n == self.clients@.len(),
                i <= n,
                out@.len() == i,
                forall|j: int| 0 <= j < i ==> out@[j]@ == self.clients@[j]@,
            decreases n - i,
        {
            out.push(self.clients[i].duplicate());
            i += 1;
        }
        proof {
            let pairs = client_pairs(self.clients@);
            assert forall|i2: int| 0 <= i2 < out@.len() implies {
                let c = #[trigger] out@[i2]@;
                self.model().clients.contains_key(c.id) && self.model().clients[c.id] == c
            } by {
                lemma_pairs_map_at(pairs, i2);
            }
            assert forall|id: u128| #[trigger]
                self.model().clients.contains_key(id) implies exists|i2: int|
                0 <= i2 < out@.len() && out@[i2]@.id == id by {
                assert(exists|i2: int| 0 <= i2 < pairs.len() && pairs[i2].0 == id) by {
                    if forall|i2: int| 0 <= i2 < pairs.len() ==> #[trigger] pairs[i2].0 != id {
                        lemma_pairs_map_absent(pairs, id);
                    }
                }
                let i2 = choose|i2: int| 0 <= i2 < pairs.len() && pairs[i2].0 == id;
                assert(out@[i2]@.id == id);
            }
            assert forall|i2: int, j2: int| 0 <= i2 < j2 < out@.len() implies out@[i2]@.id
                != out@[j2]@.id by {
                assert(pairs[i2].0 == out@[i2]@.id);
                assert(pairs[j2].0 == out@[j2]@.id);
            }
        }
        out
    }

    fn subscribe_client_to_topic(&mut self, client_id: &ClientId, topic: String) {
        let ghost m0 = old(self).model();
        match self.find_client_index(*client_id) {
            None => {
                proof {
                    let pairs = client_pairs(self.clients@);
                    assert forall|i: int| 0 <= i < pairs.len() implies pairs[i].0
                        != *client_id by {}
                    lemma_pairs_map_absent(pairs, *client_id);
                }
            },
            Some(i) => {
                let ghost old_cpairs = client_pairs(self.clients@);
                proof {
                    lemma_pairs_map_at(old_cpairs, i as int);
                    lemma_subscribe_preserves_wf(m0, *client_id, topic@);
                }
                let prev = self.clients.remove(i);
                let new_rec = Client { id: *client_id, topic: Some(topic.clone()) };
                self.clients.insert(i, new_rec);
                proof {
                    assert(self.clients@ =~= old(self).clients@.update(
                        i as int,
                        self.clients@[i as int],
                    ));
                    assert(client_pairs(self.clients@) =~= old_cpairs.update(
                        i as int,
                        (*client_id, ClientView { id: *client_id, topic: Some(topic@) }),
                    ));
                    lemma_pairs_map_update(
                        old_cpairs,
                        i as int,
                        (*client_id, ClientView { id: *client_id, topic: Some(topic@) }),
                    );
                    assert(self.model().clients =~= m0.clients.insert(
                        *client_id,
                        ClientView { id: *client_id, topic: Some(topic@) },
                    ));
                }
                // Leave the previous topic's member list, if any.
                match &prev.topic {
                    Some(t_old) => {
                        match self.find_topic_index(t_old.as_str()) {
                            Some(j) => {
                                let ghost old_tpairs = topic_pairs(self.topics@);
                                proof {
                                    lemma_pairs_map_at(old_tpairs, j as int);
                                }
                                let mut entry = self.topics.remove(j);
                                remove_member(&mut entry.members, *client_id);
                                let ghost new_pair = (entry.name@, entry.members@);
                                self.topics.insert(j, entry);
                                proof {
                                    assert(topic_pairs(self.topics@) =~= old_tpairs.update(
                                        j as int,
                                        new_pair,
                                    ));
                                    lemma_pairs_map_update(old_tpairs, j as int, new_pair);
                                    assert(pairs_map(topic_pairs(self.topics@)) =~= m0.topics.insert(
                                        t_old@,
                                        without_id(m0.topics[t_old@], *client_id),
                                    ));
                                }
                            },
                            None => {
                                proof {
                                    let tpairs = topic_pairs(self.topics@);
                                    assert forall|k: int| 0 <= k < tpairs.len() implies tpairs[k].0
                                        != t_old@ by {}
                                    lemma_pairs_map_absent(tpairs, t_old@);
                                    assert(m0.clients[*client_id].topic == Some(t_old@));
                                    assert(false);
                                }
                            },
                        }
                    },
                    None => {},
                }
                let ghost cleared = pairs_map(topic_pairs(self.topics@));
                // Join the new topic's member list.
                match self.find_topic_index(topic.as_str()) {
                    Some(j2) => {
                        let ghost old_tpairs = topic_pairs(self.topics@);
                        proof {
                            lemma_pairs_map_at(old_tpairs, j2 as int);
                        }
                        let mut entry = self.topics.remove(j2);
                        entry.members.push(*client_id);
                        let ghost new_pair = (entry.name@, entry.members@);
                        self.topics.insert(j2, entry);
                        proof {
                            assert(topic_pairs(self.topics@) =~= old_tpairs.update(
                                j2 as int,
                                new_pair,
                            ));
                            lemma_pairs_map_update(old_tpairs, j2 as int, new_pair);
                            assert(pairs_map(topic_pairs(self.topics@)) =~= cleared.insert(
                                topic@,
                                cleared[topic@].push(*client_id),
                            ));
                        }
                    },
                    None => {
                        let ghost old_tpairs = topic_pairs(self.topics@);
                        let mut members: Vec<ClientId> = Vec::new();
                        members.push(*client_id);
                        let ghost new_pair = (topic@, members@);
                        self.topics.push(TopicEntry { name: topic, members });
                        proof {
                            assert forall|k: int| 0 <= k < old_tpairs.len() implies old_tpairs[k].0
                                != new_pair.0 by {}
                            lemma_pairs_map_absent(old_tpairs, new_pair.0);
                            assert(topic_pairs(self.topics@) =~= old_tpairs.push(new_pair));
                            lemma_pairs_map_push(old_tpairs, new_pair);
                            assert(new_pair.1 =~= seq![*client_id]);
                            assert(pairs_map(topic_pairs(self.topics@)) =~= cleared.insert(
                                topic@,
                                seq![*client_id],
                            ));
                        }
                    },
                }
                proof {
                    assert(self.model().clients =~= m0.subscribe(*client_id, topic@).clients);
                    assert(self.model().topics =~= m0.subscribe(*client_id, topic@).topics);
                }
            },
        }
    }

    fn get_clients_in_topic(&self, topic: &str) -> (r: Vec<Client>) {
        match self.find_topic_index(topic) {
            None => {
                let out: Vec<Client> = Vec::new();
                proof {
                    let tpairs = topic_pairs(self.topics@);
                    lemma_pairs_map_absent(tpairs, topic@);
                    assert(self.model().member_records(topic@) =~= Seq::<ClientView>::empty());
                    assert(out@.map_values(|c: Client| c@) =~= Seq::<ClientView>::empty());
                }
                out
            },
            Some(j) => {
                proof {
                    lemma_pairs_map_at(topic_pairs(self.topics@), j as int);
                }
                let ghost ids = self.model().members(topic@);
                let entry = &self.topics[j];
                let n = entry.members.len();
                let mut out: Vec<Client> = Vec::new();
                let mut k: usize = 0;
                while k < n
                    invariant
                        n == ids.len(),
                        entry.members@ == ids,
                        self.inv(),
                        self.model().topics.contains_key(topic@),
                        self.model().topics[topic@] == ids,
                        k <= n,
                        out@.len() == k,
                        forall|q: int|
                            0 <= q < k ==> out@[q]@ == self.model().clients[ids[q]],
                    decreases n - k,
                {
                    let id = entry.members[k];
                    proof {
                        // well-formedness: a listed id is a registered client
                        assert(self.model().topics[topic@][k as int] == id);
                    }
                    match self.find_client_index(id) {
                        Some(ci) => {
                            proof {
                                lemma_pairs_map_at(client_pairs(self.clients@), ci as int);
                            }
                            out.push(self.clients[ci].duplicate());
                        },
                        None => {
                            proof {
                                let cpairs = client_pairs(self.clients@);
                                assert forall|q: int| 0 <= q < cpairs.len() implies cpairs[q].0
                                    != id by {}
                                lemma_pairs_map_absent(cpairs, id);
                                assert(false);
                            }
                        },
                    }
                    k += 1;
                }
                proof {
                    assert(out@.map_values(|c: Client| c@) =~= self.model().member_records(
                        topic@,
                    ));
                }
                out
            },
        }
    }

    fn get_all_topics(&self) -> (r: Vec<String>) {
        let n = self.topics.len();
        let ghost tpairs = topic_pairs(self.topics@);
        let mut out: Vec<String> = Vec::new();
        let mut i: usize = 0;
        while i < n
            invariant
                n == self.topics@.len(),
                tpairs == topic_pairs(self.topics@),
                self.inv(),
                i <= n,
                forall|q: int|
                    0 <= q < out@.len() ==> self.model().live_topics().contains(#[trigger] out@[q]@),
                forall|k: int|
                    0 <= k < i && tpairs[k].1.len() > 0 ==> exists|q: int|
                        0 <= q < out@.len() && out@[q]@ == tpairs[k].0,
                forall|q: int|
                    0 <= q < out@.len() ==> exists|k: int| 0 <= k < i && #[trigger] out@[q]@
                        == tpairs[k].0,
                forall|q1: int, q2: int| 0 <= q1 < q2 < out@.len() ==> out@[q1]@ != out@[q2]@,
            decreases n - i,
        {
            let entry = &self.topics[i];
            if entry.members.len() > 0 {
                proof {
                    lemma_pairs_map_at(tpairs, i as int);
                    assert forall|q1: int| 0 <= q1 < out@.len() implies out@[q1]@
                        != entry.name@ by {
                        let k = choose|k: int| 0 <= k < i && out@[q1]@ == tpairs[k].0;
                    }
                }
                let ghost old_out = out@;
                out.push(entry.name.clone());
                proof {
                    assert(out@[out@.len() - 1]@ == tpairs[i as int].0);
                    assert forall|k: int|
                        0 <= k < i + 1 && tpairs[k].1.len() > 0 implies exists|q: int|
                        0 <= q < out@.len() && out@[q]@ == tpairs[k].0 by {
                        if k < i {
                            let q = choose|q: int|
                                0 <= q < old_out.len() && old_out[q]@ == tpairs[k].0;
                            assert(out@[q]@ == tpairs[k].0);
                        } else {
                            assert(out@[out@.len() - 1]@ == tpairs[k].0);
                        }
                    }
                }
            }
            i += 1;
        }
        proof {
            assert forall|t: Seq<char>| #[trigger]
                self.model().live_topics().contains(t) implies exists|q: int|
                0 <= q < out@.len() && out@[q]@ == t by {
                assert(exists|k: int| 0 <= k < tpairs.len() && tpairs[k].0 == t) by {
                    if forall|k: int| 0 <= k < tpairs.len() ==> #[trigger] tpairs[k].0 != t {
                        lemma_pairs_map_absent(tpairs, t);
                    }
                }
                let k = choose|k: int| 0 <= k < tpairs.len() && tpairs[k].0 == t;
                lemma_pairs_map_at(tpairs, k);
            }
        }
        out
    }
}

} // verus!
