//! The data model: message prefixes, raw structured messages, message targets
//! and typed application events, together with their mathematical views.

use vstd::prelude::*;

verus! {

/// The origin annotation of a protocol line: either a server name or a
/// user mask (`nick[!username]@host`).
#[derive(Debug, PartialEq)]
pub enum Prefix {
    Server { host: String },
    User { nick: String, username: Option<String>, host: String },
}

/// Mathematical view of a `Prefix`: the same shape over character sequences.
pub enum SpecPrefix {
    Server { host: Seq<char> },
    User { nick: Seq<char>, username: Option<Seq<char>>, host: Seq<char> },
}

impl View for Prefix {
    type V = SpecPrefix;

    open spec fn view(&self) -> SpecPrefix {
        match self {
            Prefix::Server { host } => SpecPrefix::Server { host: host@ },
            Prefix::User { nick, username, host } => SpecPrefix::User {
                nick: nick@,
                username: match username {
                    Some(u) => Some(u@),
                    None => None,
                },
                host: host@,
            },
        }
    }
}

/// One structured message decoded from a single protocol line: an optional
/// origin prefix, a command token, and an ordered parameter list in which
/// only a final trailing parameter may contain spaces.
#[derive(Debug, PartialEq)]
pub struct RawEvent {
    pub prefix: Option<Prefix>,
    pub command: String,
    pub params: Vec<String>,
}

/// Mathematical view of a `RawEvent`.
pub struct SpecRawEvent {
    pub prefix: Option<SpecPrefix>,
    pub command: Seq<char>,
    pub params: Seq<Seq<char>>,
}

impl View for RawEvent {
    type V = SpecRawEvent;

    open spec fn view(&self) -> SpecRawEvent {
        SpecRawEvent {
            prefix: match &self.prefix {
                Some(p) => Some(p@),
                None => None,
            },
            command: self.command@,
            params: self.params.deep_view(),
        }
    }
}

/// The destination of a message: a channel name or a user (nick) name.
/// The distinction is a naming convention of a higher layer; both hold
/// plain owned text.
#[derive(Debug, PartialEq)]
pub enum MessageTarget {
    Channel(String),
    User(String),
}

/// Mathematical view of a `MessageTarget`.
pub enum SpecMessageTarget {
    Channel(Seq<char>),
    User(Seq<char>),
}

impl View for MessageTarget {
    type V = SpecMessageTarget;

    open spec fn view(&self) -> SpecMessageTarget {
        match self {
            MessageTarget::Channel(s) => SpecMessageTarget::Channel(s@),
            MessageTarget::User(s) => SpecMessageTarget::User(s@),
        }
    }
}

/// A typed application event. Recognized commands map to their variant;
/// everything else degrades to `Unknown`. An `Event` owns detached copies
/// of its text, independent of the line buffer it was parsed from.
#[derive(Debug, PartialEq)]
pub enum Event {
    Ping { server: String, server2: Option<String> },
    Welcome { server_message: String, host: String, server_created: String, server_info: String },
    ChannelJoined { topic: String },
    NewMessage { target: MessageTarget, message: String },
    NickFailure(String),
    JoinFailure(String),
    Unknown,
}

/// Mathematical view of an `Event`.
pub enum SpecEvent {
    Ping { server: Seq<char>, server2: Option<Seq<char>> },
    Welcome {
        server_message: Seq<char>,
        host: Seq<char>,
        server_created: Seq<char>,
        server_info: Seq<char>,
    },
    ChannelJoined { topic: Seq<char> },
    NewMessage { target: SpecMessageTarget, message: Seq<char> },
    NickFailure(Seq<char>),
    JoinFailure(Seq<char>),
    Unknown,
}

impl View for Event {
    type V = SpecEvent;

    open spec fn view(&self) -> SpecEvent {
        match self {
            Event::Ping { server, server2 } => SpecEvent::Ping {
                server: server@,
                server2: match server2 {
                    Some(s) => Some(s@),
                    None => None,
                },
            },
            Event::Welcome { server_message, host, server_created, server_info } =>
                SpecEvent::Welcome {
                    server_message: server_message@,
                    host: host@,
                    server_created: server_created@,
                    server_info: server_info@,
                },
            Event::ChannelJoined { topic } => SpecEvent::ChannelJoined { topic: topic@ },
            Event::NewMessage { target, message } => SpecEvent::NewMessage {
                target: target@,
                message: message@,
            },
            Event::NickFailure(s) => SpecEvent::NickFailure(s@),
            Event::JoinFailure(s) => SpecEvent::JoinFailure(s@),
            Event::Unknown => SpecEvent::Unknown,
        }
    }
}

} // verus!
