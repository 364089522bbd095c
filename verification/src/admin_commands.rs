//! The hub operator's console commands and their parser.
//!
//! The grammar is the original console one: a leading token names the
//! command (matched after ASCII lowercasing), the rest splits into at most
//! two further fields, and malformed input comes back as `Unknown` with the
//! message the console shows.

use vstd::prelude::*;
use vstd::string::StringExecFns;
use crate::ids::{parse_uuid, uuid_of_text};
use crate::msg::ClientId;
use crate::text::{head_of, lower_ascii, lower_seq, split_first, str_eq, tail_of, trim_spec, trim_str};

verus! {

/// Which clients a listing command asks about.
#[derive(Debug)]
pub enum ListScope {
    All,
    Topic(String),
    Topics,
}

/// A command issued by the hub operator.
#[derive(Debug)]
pub enum Command {
    /// List clients or topics.
    List(ListScope),
    /// Send a global message to all clients.
    Global(String),
    /// Send a message to a topic.
    Topic { topic: String, content: String },
    /// Send a private message to one client.
    Private { client_id: ClientId, content: String },
    /// Show the help message.
    Help,
    /// Shut the hub down.
    Exit,
    /// Unparsable input, with the message to show.
    Unknown(String),
}

/// The mathematical form of a `ListScope`.
pub enum ListScopeView {
    All,
    Topic(Seq<char>),
    Topics,
}

/// The mathematical form of a `Command`.
pub enum CommandView {
    List(ListScopeView),
    Global(Seq<char>),
    Topic { topic: Seq<char>, content: Seq<char> },
    Private { client_id: ClientId, content: Seq<char> },
    Help,
    Exit,
    Unknown(Seq<char>),
}

impl View for ListScope {
    type V = ListScopeView;

    open spec fn view(&self) -> ListScopeView {
        match self {
            ListScope::All => ListScopeView::All,
            ListScope::Topic(t) => ListScopeView::Topic(t@),
            ListScope::Topics => ListScopeView::Topics,
        }
    }
}

impl View for Command {
    type V = CommandView;

    open spec fn view(&self) -> CommandView {
        match self {
            Command::List(s) => CommandView::List(s@),
            Command::Global(c) => CommandView::Global(c@),
            Command::Topic { topic, content } => CommandView::Topic {
                topic: topic@,
                content: content@,
            },
            Command::Private { client_id, content } => CommandView::Private {
                client_id: *client_id,
                content: content@,
            },
            Command::Help => CommandView::Help,
            Command::Exit => CommandView::Exit,
            Command::Unknown(m) => CommandView::Unknown(m@),
        }
    }
}

impl PartialEq for ListScope {
    fn eq(&self, other: &ListScope) -> (r: bool) {
        match (self, other) {
            (ListScope::All, ListScope::All) => true,
            (ListScope::Topics, ListScope::Topics) => true,
            (ListScope::Topic(a), ListScope::Topic(b)) => a.eq(b),
            _ => false,
        }
    }
}

impl vstd::std_specs::cmp::PartialEqSpecImpl for ListScope {
    open spec fn obeys_eq_spec() -> bool {
        true
    }

    open spec fn eq_spec(&self, other: &ListScope) -> bool {
        self@ == other@
    }
}

impl PartialEq for Command {
    fn eq(&self, other: &Command) -> (r: bool) {
        match (self, other) {
            (Command::List(a), Command::List(b)) => a.eq(b),
            (Command::Global(a), Command::Global(b)) => a.eq(b),
            (
                Command::Topic { topic: a, content: b },
                Command::Topic { topic: c, content: d },
            ) => a.eq(c) && b.eq(d),
            (
                Command::Private { client_id: a, content: b },
                Command::Private { client_id: c, content: d },
            ) => *a == *c && b.eq(d),
            (Command::Help, Command::Help) => true,
            (Command::Exit, Command::Exit) => true,
            (Command::Unknown(a), Command::Unknown(b)) => a.eq(b),
            _ => false,
        }
    }
}

impl vstd::std_specs::cmp::PartialEqSpecImpl for Command {
    open spec fn obeys_eq_spec() -> bool {
        true
    }

    open spec fn eq_spec(&self, other: &Command) -> bool {
        self@ == other@
    }
}

/// The rest of the input joined back with single spaces: what a free-text
/// field holds after the command token.
pub open spec fn joined_rest(rest: Option<Seq<char>>) -> Seq<char> {
    match rest {
        None => Seq::empty(),
        Some(r1) => match tail_of(r1) {
            None => head_of(r1),
            Some(r2) => head_of(r1) + " "@ + r2,
        },
    }
}

/// What the operator's input means.
pub open spec fn admin_parse(input: Seq<char>) -> CommandView {
    let t = trim_spec(input);
    let cmd = lower_seq(head_of(t));
    let rest = tail_of(t);
    if cmd == "/help"@ || cmd == "/h"@ {
        CommandView::Help
    } else if cmd == "/exit"@ || cmd == "/e"@ {
        CommandView::Exit
    } else if cmd == "/list"@ || cmd == "/l"@ {
        match rest {
            None => CommandView::List(ListScopeView::All),
            Some(r1) => {
                let scope = head_of(r1);
                if scope == "all"@ {
                    CommandView::List(ListScopeView::All)
                } else if scope == "topics"@ {
                    CommandView::List(ListScopeView::Topics)
                } else {
                    CommandView::List(ListScopeView::Topic(scope))
                }
            },
        }
    } else if cmd == "/global"@ || cmd == "/g"@ {
        let content = joined_rest(rest);
        if content.len() == 0 {
            CommandView::Unknown("Global message content cannot be empty."@)
        } else {
            CommandView::Global(content)
        }
    } else if cmd == "/topic"@ || cmd == "/t"@ {
        let topic = match rest {
            None => Seq::<char>::empty(),
            Some(r1) => head_of(r1),
        };
        let content = match rest {
            None => Seq::<char>::empty(),
            Some(r1) => match tail_of(r1) {
                None => Seq::<char>::empty(),
                Some(r2) => r2,
            },
        };
        if topic.len() == 0 || content.len() == 0 {
            CommandView::Unknown("Usage: /topic <topic_name> <content>"@)
        } else {
            CommandView::Topic { topic, content }
        }
    } else if cmd == "/private"@ || cmd == "/p"@ {
        let id_text = match rest {
            None => Seq::<char>::empty(),
            Some(r1) => head_of(r1),
        };
        let content = match rest {
            None => Seq::<char>::empty(),
            Some(r1) => match tail_of(r1) {
                None => Seq::<char>::empty(),
                Some(r2) => r2,
            },
        };
        if id_text.len() == 0 || content.len() == 0 {
            CommandView::Unknown("Usage: /private <client_id> <content>"@)
        } else {
            match uuid_of_text(id_text) {
                Some(client_id) => CommandView::Private { client_id, content },
                None => CommandView::Unknown("Invalid client ID: "@ + id_text),
            }
        }
    } else if cmd.len() == 0 {
        CommandView::Unknown(Seq::empty())
    } else {
        CommandView::Unknown("Unknown command: "@ + cmd)
    }
}

/// Parses one line from the operator into a `Command`.
pub fn parse_command(input: &str) -> (r: Command)
    ensures
        r@ == admin_parse(input@),
{
    let t = trim_str(input);
    let (tok0, rest) = split_first(t);
    let lowered = lower_ascii(tok0);
    let c = lowered.as_str();
    if str_eq(c, "/help") || str_eq(c, "/h") {
        return Command::Help;
    }
    if str_eq(c, "/exit") || str_eq(c, "/e") {
        return Command::Exit;
    }
    if str_eq(c, "/list") || str_eq(c, "/l") {
        match rest {
            None => {
                return Command::List(ListScope::All);
            },
            Some(r1) => {
                let (scope, _r2) = split_first(r1);
                if str_eq(scope, "all") {
                    return Command::List(ListScope::All);
                }
                if str_eq(scope, "topics") {
                    return Command::List(ListScope::Topics);
                }
                return Command::List(ListScope::Topic(scope.to_owned()));
            },
        }
    }
    if str_eq(c, "/global") || str_eq(c, "/g") {
        let content = join_rest(rest);
        if content.as_str().is_empty() {
            return Command::Unknown(("Global message content cannot be empty.").to_owned());
        }
        return Command::Global(content);
    }
    if str_eq(c, "/topic") || str_eq(c, "/t") {
        match two_fields(rest) {
            Some((topic, content)) => {
                return Command::Topic { topic, content };
            },
            None => {
                return Command::Unknown(("Usage: /topic <topic_name> <content>").to_owned());
            },
        }
    }
    if str_eq(c, "/private") || str_eq(c, "/p") {
        match two_fields(rest) {
            Some((id_text, content)) => {
                match parse_uuid(id_text.as_str()) {
                    Some(client_id) => {
                        return Command::Private { client_id, content };
                    },
                    None => {
                        let mut m = ("Invalid client ID: ").to_owned();
                        m.append(id_text.as_str());
                        return Command::Unknown(m);
                    },
                }
            },
            None => {
                return Command::Unknown(("Usage: /private <client_id> <content>").to_owned());
            },
        }
    }
    if c.is_empty() {
        return Command::Unknown(String::new());
    }
    let mut m = ("Unknown command: ").to_owned();
    m.append(c);
    Command::Unknown(m)
}

/// Joins everything after the command token back with single spaces.
fn join_rest(rest: Option<&str>) -> (r: String)
    ensures
        r@ == joined_rest(match rest {
            Some(s) => Some(s@),
            None => None,
        }),
{
    match rest {
        None => String::new(),
        Some(r1) => {
            let (p1, r2opt) = split_first(r1);
            match r2opt {
                None => p1.to_owned(),
                Some(r2) => {
                    let mut s = p1.to_owned();
                    s.append(" ");
                    s.append(r2);
                    s
                },
            }
        },
    }
}

/// The two fields after the command token — the next token and the whole
/// rest — or nothing when either is empty.
fn two_fields(rest: Option<&str>) -> (r: Option<(String, String)>)
    ensures
        ({
            let f1 = match rest {
                Some(s) => head_of(s@),
                None => Seq::<char>::empty(),
            };
            let f2 = match rest {
                Some(s) => match tail_of(s@) {
                    Some(r2) => r2,
                    None => Seq::<char>::empty(),
                },
                None => Seq::<char>::empty(),
            };
            match r {
                Some(p) => f1.len() > 0 && f2.len() > 0 && p.0@ == f1 && p.1@ == f2,
                None => f1.len() == 0 || f2.len() == 0,
            }
        }),
{
    match rest {
        None => None,
        Some(r1) => {
            let (p1, r2opt) = split_first(r1);
            match r2opt {
                None => None,
                Some(r2) => {
                    if p1.is_empty() || r2.is_empty() {
                        None
                    } else {
                        Some((p1.to_owned(), r2.to_owned()))
                    }
                },
            }
        },
    }
}

} // verus!
