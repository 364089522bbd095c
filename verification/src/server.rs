//! The hub operator's console, behind the parsing: each command maps onto
//! one manager operation, and the lines or confirmations to print are built
//! here. The read-print loop around these handlers is the caller's.

use vstd::prelude::*;
use vstd::string::StringExecFns;
use crate::admin_commands::ListScope;
use crate::ids::{fresh_uuid, uuid_string, uuid_text};
use crate::manager::ClientManager;
use crate::model::{ClientView, HubModel};
use crate::msg::{ClientId, MsgId, ServerMessage, ServerMessageView};
use crate::storage::{Client, Storage};

verus! {

/// The line a client listing shows for one record.
pub open spec fn client_line(c: ClientView) -> Seq<char> {
    "- "@ + uuid_text(c.id) + " (Topic: "@ + (match c.topic {
        Some(t) => t,
        None => "None"@,
    }) + ")"@
}

/// The line a topic listing shows for one name.
pub open spec fn topic_line(t: Seq<char>) -> Seq<char> {
    "- "@ + t
}

/// The line a membership listing shows for one record.
pub open spec fn member_line(c: ClientView) -> Seq<char> {
    "- "@ + uuid_text(c.id)
}

/// The line belongs to some registered client's record.
pub open spec fn in_client_listing(m: Map<u128, ClientView>, line: String) -> bool {
    exists|id: u128| #![auto] m.contains_key(id) && line@ == client_line(m[id])
}

/// The line belongs to some topic that has a subscriber.
pub open spec fn in_topic_listing(live: Set<Seq<char>>, line: String) -> bool {
    exists|t: Seq<char>| #![auto] live.contains(t) && line@ == topic_line(t)
}

/// The operator console over a client manager.
pub struct Server<S: Storage> {
    pub client_manager: ClientManager<S>,
}

impl<S: Storage> Server<S> {
    /// The hub that the console operates on.
    pub open spec fn model(&self) -> HubModel {
        self.client_manager.model()
    }

    /// The console is sound when its manager is.
    pub open spec fn inv(&self) -> bool {
        self.client_manager.inv()
    }

    /// Wraps a manager for the console.
    pub fn new(client_manager: ClientManager<S>) -> (r: Server<S>)
        ensures
            r.client_manager == client_manager,
    {
        Server { client_manager }
    }

    /// The help message the console shows.
    pub fn help_text() -> (r: &'static str)
        ensures
            r@
                == "Morpheus Server Commands:\n/list all                - List all connected clients\n/list topics             - List all active topics\n/list <topic>            - List clients in a specific topic\n/global <msg>            - Send a message to all clients\n/topic <topic> <msg>     - Send a message to a topic\n/private <client_id> <msg> - Send a private message\n/exit                    - Shutdown the server"@,
    {
        "Morpheus Server Commands:\n/list all                - List all connected clients\n/list topics             - List all active topics\n/list <topic>            - List clients in a specific topic\n/global <msg>            - Send a message to all clients\n/topic <topic> <msg>     - Send a message to a topic\n/private <client_id> <msg> - Send a private message\n/exit                    - Shutdown the server"
    }


    /// The listing of every connected client: one line per record.
    fn list_all_lines(&self) -> (r: Vec<String>)
        requires
            self.inv(),
        ensures
            forall|i: int|
                0 <= i < r@.len() ==> in_client_listing(
                    self.model().registry.clients,
                    #[trigger] r@[i],
                ),
            forall|id: u128| #[trigger]
                self.model().registry.clients.contains_key(id) ==> exists|i: int|
                    #![trigger r@[i]]
                    0 <= i < r@.len() && r@[i]@ == client_line(self.model().registry.clients[id]),
    {
        let clients = self.client_manager.get_all_clients();
        let n = clients.len();
        let mut out: Vec<String> = Vec::new();
        let mut i: usize = 0;
        while i < n
            invariant
                n == clients@.len(),
                i <= n,
                out@.len() == i,
                forall|j: int| 0 <= j < i ==> out@[j]@ == client_line(clients@[j]@),
            decreases n - i,
        {
            let c = &clients[i];
            let ustr = uuid_string(c.id);
            let mut line = ("- ").to_owned();
            line.append(ustr.as_str());
            line.append(" (Topic: ");
            match &c.topic {
                Some(t) => {
                    line.append(t.as_str());
                },
                None => {
                    line.append("None");
                },
            }
            line.append(")");
            proof {
                assert(line@ == client_line(clients@[i as int]@));
            }
            out.push(line);
            i += 1;
        }
        proof {
            assert forall|i2: int|
                0 <= i2 < out@.len() implies in_client_listing(
                self.model().registry.clients,
                #[trigger] out@[i2],
            ) by {
                let c = clients@[i2]@;
                assert(self.model().registry.clients.contains_key(c.id)
                    && self.model().registry.clients[c.id] == c);
                assert(out@[i2]@ == client_line(self.model().registry.clients[c.id]));
            }
            assert forall|id: u128| #[trigger]
                self.model().registry.clients.contains_key(id) implies exists|i2: int|
                #![trigger out@[i2]]
                0 <= i2 < out@.len() && out@[i2]@ == client_line(
                    self.model().registry.clients[id],
                ) by {
                let i2 = choose|i2: int|
                    0 <= i2 < clients@.len() && clients@[i2]@.id == id;
                assert(self.model().registry.clients[id] == clients@[i2]@);
                assert(out@[i2]@ == client_line(self.model().registry.clients[id]));
            }
        }
        out
    }

    /// The listing of the topics with a subscriber: one line per name.
    fn list_topic_lines(&self) -> (r: Vec<String>)
        requires
            self.inv(),
        ensures
            forall|i: int|
                0 <= i < r@.len() ==> in_topic_listing(
                    self.model().registry.live_topics(),
                    #[trigger] r@[i],
                ),
            forall|t: Seq<char>| #[trigger]
                self.model().registry.live_topics().contains(t) ==> exists|i: int|
                    #![trigger r@[i]]
                    0 <= i < r@.len() && r@[i]@ == topic_line(t),
    {
        let names = self.client_manager.get_all_topics();
        let n = names.len();
        let mut out: Vec<String> = Vec::new();
        let mut i: usize = 0;
        while i < n
            invariant
                n == names@.len(),
                i <= n,
                out@.len() == i,
                forall|j: int| 0 <= j < i ==> out@[j]@ == topic_line(names@[j]@),
            decreases n - i,
        {
            let mut line = ("- ").to_owned();
            line.append(names[i].as_str());
            out.push(line);
            i += 1;
        }
        proof {
            assert forall|i2: int|
                0 <= i2 < out@.len() implies in_topic_listing(
                self.model().registry.live_topics(),
                #[trigger] out@[i2],
            ) by {
                assert(self.model().registry.live_topics().contains(names@[i2]@));
                assert(out@[i2]@ == topic_line(names@[i2]@));
            }
            assert forall|t: Seq<char>| #[trigger]
                self.model().registry.live_topics().contains(t) implies exists|i2: int|
                #![trigger out@[i2]]
                0 <= i2 < out@.len() && out@[i2]@ == topic_line(t) by {
                let i2 = choose|i2: int| 0 <= i2 < names@.len() && names@[i2]@ == t;
                assert(out@[i2]@ == topic_line(t));
            }
        }
        out
    }

    /// The listing of one topic's members: one line per record, in
    /// subscription order.
    fn list_member_lines(&self, topic: &str) -> (r: Vec<String>)
        requires
            self.inv(),
        ensures
            r@.len() == self.model().registry.member_records(topic@).len(),
            forall|i: int|
                0 <= i < r@.len() ==> r@[i]@ == member_line(
                    #[trigger] self.model().registry.member_records(topic@)[i],
                ),
    {
        let members = self.client_manager.get_clients_by_topic(topic);
        let ghost recs = self.model().registry.member_records(topic@);
        let n = members.len();
        let mut out: Vec<String> = Vec::new();
        let mut i: usize = 0;
        proof {
            assert(members@.map_values(|c: Client| c@).len() == members@.len());
        }
        while i < n
            invariant
                n == members@.len(),
                recs.len() == n,
                forall|j: int| 0 <= j < n ==> members@[j]@ == recs[j],
                i <= n,
                out@.len() == i,
                forall|j: int| 0 <= j < i ==> out@[j]@ == member_line(recs[j]),
            decreases n - i,
        {
            let ustr = uuid_string(members[i].id);
            let mut line = ("- ").to_owned();
            line.append(ustr.as_str());
            proof {
                assert(line@ == member_line(recs[i as int]));
            }
            out.push(line);
            i += 1;
        }
        out
    }

    /// The lines a listing command prints: one per client, topic, or
    /// member, by the scope.
    pub fn handle_list_command(&self, scope: ListScope) -> (r: Vec<String>)
        requires
            self.inv(),
        ensures
            scope@ is All ==> {
                &&& forall|i: int|
                    0 <= i < r@.len() ==> in_client_listing(
                        self.model().registry.clients,
                        #[trigger] r@[i],
                    )
                &&& forall|id: u128| #[trigger]
                    self.model().registry.clients.contains_key(id) ==> exists|i: int|
                        #![trigger r@[i]]
                        0 <= i < r@.len() && r@[i]@ == client_line(
                            self.model().registry.clients[id],
                        )
            },
            scope@ is Topics ==> {
                &&& forall|i: int|
                    0 <= i < r@.len() ==> in_topic_listing(
                        self.model().registry.live_topics(),
                        #[trigger] r@[i],
                    )
                &&& forall|t: Seq<char>| #[trigger]
                    self.model().registry.live_topics().contains(t) ==> exists|i: int|
                        #![trigger r@[i]]
                        0 <= i < r@.len() && r@[i]@ == topic_line(t)
            },
            scope@ matches crate::admin_commands::ListScopeView::Topic(t) ==> {
                &&& r@.len() == self.model().registry.member_records(t).len()
                &&& forall|i: int|
                    0 <= i < r@.len() ==> r@[i]@ == member_line(
                        #[trigger] self.model().registry.member_records(t)[i],
                    )
            },
    {
        match &scope {
            ListScope::All => self.list_all_lines(),
            ListScope::Topics => self.list_topic_lines(),
            ListScope::Topic(t) => self.list_member_lines(t.as_str()),
        }
    }

    pub fn handle_global_command(&mut self, content: String) -> (r: String)
        requires
            old(self).inv(),
        ensures
            final(self).inv(),
            exists|mid: MsgId|
                final(self).model() == #[trigger] old(self).model().broadcast_global(
                    ServerMessageView::Global { id: mid, content: content@ },
                ),
            r@ == "Global message sent: "@ + content@,
    {
        let mid = fresh_uuid();
        let msg = ServerMessage::Global { id: mid, content: content.clone() };
        self.client_manager.broadcast_global(msg);
        proof {
            assert(self.model() == old(self).model().broadcast_global(
                ServerMessageView::Global { id: mid, content: content@ },
            ));
        }
        let mut out = ("Global message sent: ").to_owned();
        out.append(content.as_str());
        out
    }

    /// Sends a fresh message from the operator into a topic and returns the
    /// confirmation to print.
    pub fn handle_topic_command(&mut self, topic: String, content: String) -> (r: String)
        requires
            old(self).inv(),
        ensures
            final(self).inv(),
            exists|mid: MsgId|
                final(self).model() == #[trigger] old(self).model().broadcast_topic(
                    topic@,
                    ServerMessageView::Topic {
                        id: mid,
                        topic: topic@,
                        sender: "Morpheus"@,
                        content: content@,
                    },
                    None,
                ),
            r@ == "Message sent to topic '"@ + topic@ + "': "@ + content@,
    {
        let mid = fresh_uuid();
        let msg = ServerMessage::Topic {
            id: mid,
            topic: topic.clone(),
            sender: ("Morpheus").to_owned(),
            content: content.clone(),
        };
        self.client_manager.broadcast_to_topic(topic.as_str(), msg, None);
        proof {
            assert(self.model() == old(self).model().broadcast_topic(
                topic@,
                ServerMessageView::Topic {
                    id: mid,
                    topic: topic@,
                    sender: "Morpheus"@,
                    content: content@,
                },
                None,
            ));
        }
        let mut out = ("Message sent to topic '").to_owned();
        out.append(topic.as_str());
        out.append("': ");
        out.append(content.as_str());
        out
    }

    /// Sends a fresh private message to the one client — silently dropped
    /// if the id is unknown — and returns the confirmation to print.
    pub fn handle_private_command(&mut self, client_id: ClientId, content: String) -> (r: String)
        requires
            old(self).inv(),
        ensures
            final(self).inv(),
            exists|mid: MsgId|
                #![auto]
                final(self).model() == old(self).model().send_private(
                    client_id,
                    ServerMessageView::Private { id: mid, content: content@ },
                ) && r@ == "Private message (id: "@ + uuid_text(mid) + ") sent to "@ + uuid_text(
                    client_id,
                ) + ": "@ + content@,
    {
        let mid = fresh_uuid();
        let msg = ServerMessage::Private { id: mid, content: content.clone() };
        self.client_manager.send_private_message(client_id, msg);
        proof {
            assert(self.model() == old(self).model().send_private(
                client_id,
                ServerMessageView::Private { id: mid, content: content@ },
            ));
        }
        let mid_str = uuid_string(mid);
        let cid_str = uuid_string(client_id);
        let mut out = ("Private message (id: ").to_owned();
        out.append(mid_str.as_str());
        out.append(") sent to ");
        out.append(cid_str.as_str());
        out.append(": ");
        out.append(content.as_str());
        out
    }
}

} // verus!
