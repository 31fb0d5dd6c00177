//! The error taxonomy of the multiplexer core.

use vstd::prelude::*;

verus! {

/// Everything a caller of the core can be handed back when an operation
/// fails.
#[derive(Debug)]
pub enum BanchoIrcError {
    /// The outbound relay of a handle is unusable: the conversation or the
    /// session behind it has been torn down.
    SendMsgError,
    /// The inbound side is exhausted: the transport closed, or a drained
    /// conversation was released.
    RecvMsgError,
    /// A subscriber fell behind the bounded fan-out buffer and missed
    /// `missed` events; resubscribing recovers, the events are lost.
    StreamLag { missed: usize },
    /// The server rejected the login credentials; recoverable by retrying
    /// with different ones.
    IrcLoginFailure { detail: String },
    /// The server rejected a JOIN because the channel does not exist.
    ChannelDoesNotExists { detail: String },
    /// Any other error-class server response met during handshake or JOIN.
    ProtocolError { code: u16, detail: String },
}

/// The exact rendering of each error: a fixed text per variant, with the
/// server's detail appended where the error carries one.
pub open spec fn spec_message(e: BanchoIrcError) -> Seq<char> {
    match e {
        BanchoIrcError::SendMsgError => "outbound relay closed"@,
        BanchoIrcError::RecvMsgError => "inbound stream closed"@,
        BanchoIrcError::StreamLag { missed: _ } => "subscriber lagged behind"@,
        BanchoIrcError::IrcLoginFailure { detail } => "IRC login fail, details: "@ + detail@,
        BanchoIrcError::ChannelDoesNotExists { detail } => "Channel does not exist, details: "@
            + detail@,
        BanchoIrcError::ProtocolError { code: _, detail } => "unexpected protocol response: "@
            + detail@,
    }
}

impl BanchoIrcError {
    /// A human-readable rendering of the error, exactly `spec_message`.
    pub fn message(&self) -> (r: String)
        ensures
            r@ == spec_message(*self),
            r@.len() > 0,
    {
        proof {
            reveal_strlit("outbound relay closed");
            reveal_strlit("inbound stream closed");
            reveal_strlit("subscriber lagged behind");
            reveal_strlit("IRC login fail, details: ");
            reveal_strlit("Channel does not exist, details: ");
            reveal_strlit("unexpected protocol response: ");
        }
        match self {
            BanchoIrcError::SendMsgError => "outbound relay closed".to_owned(),
            BanchoIrcError::RecvMsgError => "inbound stream closed".to_owned(),
            BanchoIrcError::StreamLag { missed: _ } => "subscriber lagged behind".to_owned(),
            BanchoIrcError::IrcLoginFailure { detail } => "IRC login fail, details: ".to_owned().concat(
                detail.as_str(),
            ),
            BanchoIrcError::ChannelDoesNotExists { detail } => "Channel does not exist, details: ".to_owned().concat(
                detail.as_str(),
            ),
            BanchoIrcError::ProtocolError { code: _, detail } => "unexpected protocol response: ".to_owned().concat(
                detail.as_str(),
            ),
        }
    }
}

} // verus!
