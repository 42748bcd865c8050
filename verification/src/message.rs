//! The messages that travel between the hub and its resources.

use crate::text::{contains, is_substring, push_signed, push_text, signed_decimal};
use vstd::prelude::*;

verus! {

/// The kind of a message.
#[derive(Clone, Copy, Debug, PartialEq, Eq, Structural)]
pub enum MessageType {
    Intent,
    Response,
    Reject,
    Finish,
    Register,
    Heartbeat,
    Status,
    Unknown,
}

impl MessageType {
    /// The kind's keyword.
    pub open spec fn name(self) -> Seq<char> {
        match self {
            MessageType::Intent => "Intent"@,
            MessageType::Response => "Response"@,
            MessageType::Reject => "Reject"@,
            MessageType::Finish => "Finish"@,
            MessageType::Register => "Register"@,
            MessageType::Heartbeat => "Heartbeat"@,
            MessageType::Status => "Status"@,
            MessageType::Unknown => "Unknown"@,
        }
    }

    /// The kind's keyword as a string slice.
    pub fn keyword(&self) -> (s: &'static str)
        ensures
            s@ == self.name(),
    {
        match self {
            MessageType::Intent => "Intent",
            MessageType::Response => "Response",
            MessageType::Reject => "Reject",
            MessageType::Finish => "Finish",
            MessageType::Register => "Register",
            MessageType::Heartbeat => "Heartbeat",
            MessageType::Status => "Status",
            MessageType::Unknown => "Unknown",
        }
    }

    /// The kind's keyword as an owned string.
    pub fn to_text(&self) -> (s: String)
        ensures
            s@ == self.name(),
    {
        self.keyword().to_owned()
    }
}

/// A message: its kind, its body and the identifier it answers to.
#[derive(Debug)]
pub struct Message {
    m_type: MessageType,
    m_body: String,
    m_id: Option<i64>,
}

/// What a message holds.
pub struct MessageView {
    pub kind: MessageType,
    pub body: Seq<char>,
    pub id: Option<i64>,
}

impl View for Message {
    type V = MessageView;

    closed spec fn view(&self) -> MessageView {
        MessageView { kind: self.m_type, body: self.m_body@, id: self.m_id }
    }
}

/// The kind guessed for a text that is no well-formed message: that of the
/// first keyword found, trying `Intent`, `Response`, `Register`, `Reject`
/// and `Finish` in this order.
pub open spec fn guessed_kind(text: Seq<char>) -> MessageType {
    if is_substring(MessageType::Intent.name(), text) {
        MessageType::Intent
    } else if is_substring(MessageType::Response.name(), text) {
        MessageType::Response
    } else if is_substring(MessageType::Register.name(), text) {
        MessageType::Register
    } else if is_substring(MessageType::Reject.name(), text) {
        MessageType::Reject
    } else if is_substring(MessageType::Finish.name(), text) {
        MessageType::Finish
    } else {
        MessageType::Unknown
    }
}

/// The plain-text form of a message: keyword, `:`, then the identifier and
/// `:` if there is one, then the body.
pub open spec fn plain_text(m: MessageView) -> Seq<char> {
    match m.id {
        Some(id) => m.kind.name() + seq![':'] + signed_decimal(id as int) + seq![':'] + m.body,
        None => m.kind.name() + seq![':'] + m.body,
    }
}

/// The line sent to a resource that runs commands: the command, `:`, the
/// identifier.
pub open spec fn command_line(command: Seq<char>, id: i64) -> Seq<char> {
    command + seq![':'] + signed_decimal(id as int)
}

impl Message {
    pub fn new(m_type: MessageType, m_body: String, m_id: Option<i64>) -> (m: Self)
        ensures
            m@ == (MessageView { kind: m_type, body: m_body@, id: m_id }),
    {
        Self { m_type, m_body, m_id }
    }

    pub fn get_type(&self) -> (t: &MessageType)
        ensures
            *t == self@.kind,
    {
        &self.m_type
    }

    pub fn get_body(&self) -> (b: String)
        ensures
            b@ == self@.body,
    {
        self.m_body.clone()
    }

    pub fn get_id(&self) -> (id: Option<i64>)
        ensures
            id == self@.id,
    {
        self.m_id
    }

    /// The plain-text form, for a counterpart that reads no structured
    /// messages.
    pub fn to_plain_text(&self) -> (s: String)
        ensures
            s@ == plain_text(self@),
    {
        let mut s = self.m_type.to_text();
        push_text(&mut s, ":");
        proof {
            reveal_strlit(":");
        }
        match self.m_id {
            Some(id) => {
                push_signed(&mut s, id);
                push_text(&mut s, ":");
            },
            None => {},
        }
        push_text(&mut s, self.m_body.as_str());
        s
    }
}

/// Builds the line for a resource that runs commands.
pub fn to_command_line(command: &str, id: i64) -> (s: String)
    ensures
        s@ == command_line(command@, id),
{
    let mut s = command.to_owned();
    push_text(&mut s, ":");
    proof {
        reveal_strlit(":");
    }
    push_signed(&mut s, id);
    s
}

/// Makes a message of a text that could not be decoded: the kind is
/// guessed from the keywords in it, the body is the whole text, and there is
/// no identifier.
pub fn parse_unknown(m: &str) -> (message: Message)
    ensures
        message@ == (MessageView { kind: guessed_kind(m@), body: m@, id: None }),
{
    let m_type = if contains(m, MessageType::Intent.keyword()) {
        MessageType::Intent
    } else if contains(m, MessageType::Response.keyword()) {
        MessageType::Response
    } else if contains(m, MessageType::Register.keyword()) {
        MessageType::Register
    } else if contains(m, MessageType::Reject.keyword()) {
        MessageType::Reject
    } else if contains(m, MessageType::Finish.keyword()) {
        MessageType::Finish
    } else {
        MessageType::Unknown
    };
    Message::new(m_type, m.to_owned(), None)
}

/// The message for a payload: the decoded message where the decoder
/// produced one, else the guess of `parse_unknown`.
pub fn parse_message(message: &str, decoded: Option<Message>) -> (m: Message)
    ensures
        m@ == match decoded {
            Some(d) => d@,
            None => MessageView { kind: guessed_kind(message@), body: message@, id: None },
        },
{
    match decoded {
        Some(d) => d,
        None => parse_unknown(message),
    }
}

} // verus!
