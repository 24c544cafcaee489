//! What can go wrong, and what the user is told about it.

use vstd::prelude::*;
use vstd::string::*;

verus! {

/// The kinds of failure.
#[derive(Clone, Copy, Debug, PartialEq, Eq, Structural)]
pub enum ErrorKind {
    /// No candidate was an endpoint.
    Configuration,
    /// The transport could not be opened, or is not open.
    Connection,
    /// A session is installed already; a second one must not replace it.
    AlreadyInitialized,
    /// A subscriber, publisher or responder could not be declared.
    Subscription,
    /// A message could not be sent.
    Send,
    /// A payload is not a message. Never shown to the user.
    Decode,
    /// A message was to be sent while no room was active.
    NotInRoom,
    /// A room was to be entered while another entry was under way.
    Busy,
}

/// A line of text for the user.
#[derive(Clone, Debug, PartialEq, Eq)]
pub struct Notice {
    pub message: String,
}

impl Notice {
    /// A notice that says `message`.
    pub fn new(message: &str) -> (r: Notice)
        ensures
            r.message@ == message@,
    {
        Notice { message: message.to_owned() }
    }
}

impl ErrorKind {
    /// What the user is told about a failure of this kind; `None` for the
    /// one kind that is passed over in silence.
    pub open spec fn notice_text(self) -> Option<Seq<char>> {
        match self {
            ErrorKind::Configuration => Some("Cannot connect to server."@),
            ErrorKind::Connection => Some("Cannot connect to server."@),
            ErrorKind::AlreadyInitialized => Some("Cannot connect to server."@),
            ErrorKind::Subscription => Some("Cannot enter the room."@),
            ErrorKind::Send => Some("Cannot send the message."@),
            ErrorKind::Decode => None,
            ErrorKind::NotInRoom => Some("Not in a room."@),
            ErrorKind::Busy => Some("Already entering a room."@),
        }
    }

    /// The notice to show for a failure of this kind, if any.
    pub fn notice(&self) -> (r: Option<Notice>)
        ensures
            r is Some <==> self.notice_text() is Some,
            r matches Some(n) ==> self.notice_text() == Some(n.message@),
    {
        match self {
            ErrorKind::Configuration => Some(Notice::new("Cannot connect to server.")),
            ErrorKind::Connection => Some(Notice::new("Cannot connect to server.")),
            ErrorKind::AlreadyInitialized => Some(Notice::new("Cannot connect to server.")),
            ErrorKind::Subscription => Some(Notice::new("Cannot enter the room.")),
            ErrorKind::Send => Some(Notice::new("Cannot send the message.")),
            ErrorKind::Decode => None,
            ErrorKind::NotInRoom => Some(Notice::new("Not in a room.")),
            ErrorKind::Busy => Some(Notice::new("Already entering a room.")),
        }
    }
}

} // verus!
