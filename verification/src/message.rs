//! The wire-independent shapes of protocol traffic that the multiplexer
//! reads and writes. The transport owns the real wire format; the core only
//! sees these plain values.

use vstd::prelude::*;

verus! {

/// Numeric response announcing a successful login handshake.
pub const RPL_WELCOME: u16 = 1;

/// Numeric response rejecting a JOIN for a nonexistent channel.
pub const ERR_NOSUCHCHANNEL: u16 = 403;

/// Numeric response rejecting the login password.
pub const ERR_PASSWDMISMATCH: u16 = 464;

/// An error-class numeric response: any code of 400 and above.
pub open spec fn is_error_code(code: u16) -> bool {
    code >= 400
}

/// An outbound protocol command handed to the transport's sink.
#[derive(Debug)]
pub enum Command {
    /// A chat line addressed to a channel or user.
    PrivMsg { target: String, text: String },
    /// A request to join a channel.
    Join { channel: String },
    /// A notice that a conversation is being left.
    Part { channel: String },
}

/// The mathematical shape of an outbound command.
#[verifier::ext_equal]
pub ghost enum CommandView {
    PrivMsg { target: Seq<char>, text: Seq<char> },
    Join { channel: Seq<char> },
    Part { channel: Seq<char> },
}

impl View for Command {
    type V = CommandView;

    open spec fn view(&self) -> CommandView {
        match self {
            Command::PrivMsg { target, text } => CommandView::PrivMsg {
                target: target@,
                text: text@,
            },
            Command::Join { channel } => CommandView::Join { channel: channel@ },
            Command::Part { channel } => CommandView::Part { channel: channel@ },
        }
    }
}

impl DeepView for Command {
    type V = CommandView;

    open spec fn deep_view(&self) -> CommandView {
        self.view()
    }
}

/// The command carried by one inbound protocol message.
#[derive(Debug)]
pub enum InboundCommand {
    /// A chat line addressed to a channel or user.
    PrivMsg { target: String, text: String },
    /// The server's echo acknowledging a JOIN.
    JoinAck { channel: String },
    /// A numeric response with the server's detail text.
    Response { code: u16, detail: String },
    /// Anything else the transport decoded; the core ignores it.
    Other,
}

/// The mathematical shape of an inbound command.
#[verifier::ext_equal]
pub ghost enum InboundCommandView {
    PrivMsg { target: Seq<char>, text: Seq<char> },
    JoinAck { channel: Seq<char> },
    Response { code: u16, detail: Seq<char> },
    Other,
}

impl View for InboundCommand {
    type V = InboundCommandView;

    open spec fn view(&self) -> InboundCommandView {
        match self {
            InboundCommand::PrivMsg { target, text } => InboundCommandView::PrivMsg {
                target: target@,
                text: text@,
            },
            InboundCommand::JoinAck { channel } => InboundCommandView::JoinAck {
                channel: channel@,
            },
            InboundCommand::Response { code, detail } => InboundCommandView::Response {
                code: *code,
                detail: detail@,
            },
            InboundCommand::Other => InboundCommandView::Other,
        }
    }
}

/// One message from the transport's inbound stream: the decoded command and,
/// where the wire carried one, the sender's nickname.
#[derive(Debug)]
pub struct InboundMessage {
    pub sender: Option<String>,
    pub command: InboundCommand,
}

/// The mathematical shape of one inbound message.
#[verifier::ext_equal]
pub ghost struct InboundMessageView {
    pub sender: Option<Seq<char>>,
    pub command: InboundCommandView,
}

impl View for InboundMessage {
    type V = InboundMessageView;

    open spec fn view(&self) -> InboundMessageView {
        InboundMessageView {
            sender: match self.sender {
                Option::Some(s) => Option::Some(s@),
                Option::None => Option::None,
            },
            command: self.command@,
        }
    }
}

impl DeepView for InboundMessage {
    type V = InboundMessageView;

    open spec fn deep_view(&self) -> InboundMessageView {
        self.view()
    }
}

} // verus!
