//! The connected user's console commands and their parser.
//!
//! Plain text is a message to the user's topic; a line starting with `/`
//! names a command, matched case-sensitively.

use vstd::prelude::*;
use vstd::string::{StringExecFns, StrSliceExecFns};
use crate::ids::{parse_uuid, uuid_of_text};
use crate::msg::MsgId;
use crate::text::{head_of, split_first, str_eq, tail_of, trim_spec, trim_str};
use crate::admin_commands::joined_rest;

verus! {

/// A command issued by the connected user.
#[derive(Debug)]
pub enum Command {
    /// Send a message to the current topic.
    Message(String),
    /// Reply to a specific message from the hub operator.
    Reply { msg_id: MsgId, content: String },
    /// Show the help message.
    Help,
    /// Unparsable input, with the message to show.
    Unknown(String),
}

/// The mathematical form of a `Command`.
pub enum CommandView {
    Message(Seq<char>),
    Reply { msg_id: MsgId, content: Seq<char> },
    Help,
    Unknown(Seq<char>),
}

impl View for Command {
    type V = CommandView;

    open spec fn view(&self) -> CommandView {
        match self {
            Command::Message(c) => CommandView::Message(c@),
            Command::Reply { msg_id, content } => CommandView::Reply {
                msg_id: *msg_id,
                content: content@,
            },
            Command::Help => CommandView::Help,
            Command::Unknown(m) => CommandView::Unknown(m@),
        }
    }
}

impl PartialEq for Command {
    fn eq(&self, other: &Command) -> (r: bool) {
        match (self, other) {
            (Command::Message(a), Command::Message(b)) => a.eq(b),
            (
                Command::Reply { msg_id: a, content: b },
                Command::Reply { msg_id: c, content: d },
            ) => *a == *c && b.eq(d),
            (Command::Help, Command::Help) => true,
            (Command::Unknown(a), Command::Unknown(b)) => a.eq(b),
            _ => false,
        }
    }
}

impl vstd::std_specs::cmp::PartialEqSpecImpl for Command {
    open spec fn obeys_eq_spec() -> bool {
        true
    }

    open spec fn eq_spec(&self, other: &Command) -> bool {
        self@ == other@
    }
}

/// What the user's input means.
pub open spec fn user_parse(input: Seq<char>) -> CommandView {
    let t = trim_spec(input);
    if t.len() == 0 || t[0] != '/' {
        CommandView::Message(t)
    } else {
        let cmd = head_of(t);
        let rest = tail_of(t);
        if cmd == "/reply"@ || cmd == "/r"@ {
            let id_text = match rest {
                None => Seq::<char>::empty(),
                Some(r1) => head_of(r1),
            };
            let content = match rest {
                None => Seq::<char>::empty(),
                Some(r1) => match tail_of(r1) {
                    None => Seq::<char>::empty(),
                    Some(r2) => r2,
                },
            };
            if content.len() == 0 {
                CommandView::Unknown(
                    "Reply content cannot be empty. Usage: /reply <msg_id> <content>"@,
                )
            } else {
                match uuid_of_text(id_text) {
                    Some(msg_id) => CommandView::Reply { msg_id, content },
                    None => CommandView::Unknown("Invalid message ID for reply: "@ + id_text),
                }
            }
        } else if cmd == "/help"@ || cmd == "/h"@ {
            CommandView::Help
        } else if cmd == "/msg"@ || cmd == "/m"@ {
            let content = joined_rest(rest);
            if content.len() == 0 {
                CommandView::Unknown("Message content cannot be empty."@)
            } else {
                CommandView::Message(content)
            }
        } else {
            CommandView::Unknown("Unknown command: "@ + cmd)
        }
    }
}

/// Parses one line from the user into a `Command`.
pub fn parse_command(input: &str) -> (r: Command)
    ensures
        r@ == user_parse(input@),
{
    let t = trim_str(input);
    if t.is_empty() || t.get_char(0) != '/' {
        return Command::Message(t.to_owned());
    }
    let (tok0, rest) = split_first(t);
    if str_eq(tok0, "/reply") || str_eq(tok0, "/r") {
        let id_text: &str = match rest {
            None => "",
            Some(r1) => {
                let (p1, _r2) = split_first(r1);
                p1
            },
        };
        let content: &str = match rest {
            None => "",
            Some(r1) => {
                let (_p1, r2opt) = split_first(r1);
                match r2opt {
                    None => "",
                    Some(r2) => r2,
                }
            },
        };
        proof {
            reveal_strlit("");
        }
        if content.is_empty() {
            return Command::Unknown(
                ("Reply content cannot be empty. Usage: /reply <msg_id> <content>").to_owned(),
            );
        }
        match parse_uuid(id_text) {
            Some(msg_id) => {
                return Command::Reply { msg_id, content: content.to_owned() };
            },
            None => {
                let mut m = ("Invalid message ID for reply: ").to_owned();
                m.append(id_text);
                return Command::Unknown(m);
            },
        }
    }
    if str_eq(tok0, "/help") || str_eq(tok0, "/h") {
        return Command::Help;
    }
    if str_eq(tok0, "/msg") || str_eq(tok0, "/m") {
        let content = join_rest_user(rest);
        if content.as_str().is_empty() {
            return Command::Unknown(("Message content cannot be empty.").to_owned());
        }
        return Command::Message(content);
    }
    let mut m = ("Unknown command: ").to_owned();
    m.append(tok0);
    Command::Unknown(m)
}

/// Joins everything after the command token back with single spaces.
fn join_rest_user(rest: Option<&str>) -> (r: String)
    ensures
        r@ == joined_rest(match rest {
            Some(s) => Some(s@),
            None => None,
        }),
{
    match rest {
        None => String::new(),
        Some(r1) => {
            let (p1, r2opt) = split_first(r1);
            match r2opt {
                None => p1.to_owned(),
                Some(r2) => {
                    let mut s = p1.to_owned();
                    s.append(" ");
                    s.append(r2);
                    s
                },
            }
        },
    }
}

} // verus!
