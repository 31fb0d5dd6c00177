//! A conversation over the shared connection: its identity, the rule that
//! picks its messages out of the shared inbound stream, and the state of the
//! task that serves its handles.

use vstd::prelude::*;

use crate::error::BanchoIrcError;
use crate::fanout::{
    spec_publish_start, spec_recv_outcome, spec_recv_pos, ChatEvent, ChatEventView, Cursor,
    FanOutSource, RecvSpec,
};
use crate::message::{Command, CommandView, InboundCommandView, InboundMessage, InboundMessageView};

verus! {

/// The ring capacity of every per-conversation fan-out source.
pub const FANOUT_CAPACITY: usize = 128;

/// The bound of every conversation's outbound relay queue: how many sends
/// may sit queued before the sender must wait for the task to drain one
/// onto the shared sink.
pub const RELAY_CAPACITY: usize = 8;

/// The identity of a conversation: a public channel, or a private
/// one-to-one thread with a peer.
#[derive(Debug)]
pub enum ChannelType {
    Public(String),
    Private(String),
}

/// The mathematical shape of a conversation identity.
#[verifier::ext_equal]
pub ghost enum ChannelTypeView {
    Public(Seq<char>),
    Private(Seq<char>),
}

impl View for ChannelType {
    type V = ChannelTypeView;

    open spec fn view(&self) -> ChannelTypeView {
        match self {
            ChannelType::Public(s) => ChannelTypeView::Public(s@),
            ChannelType::Private(s) => ChannelTypeView::Private(s@),
        }
    }
}

/// The bare protocol name of an identity: the channel name, or the peer's
/// nickname.
pub open spec fn ident_name(i: ChannelTypeView) -> Seq<char> {
    match i {
        ChannelTypeView::Public(s) => s,
        ChannelTypeView::Private(s) => s,
    }
}

/// The matching rule of the conversation engine: which inbound messages
/// belong to an identity, and the event published for a match. A public
/// channel takes chat lines addressed to its exact name from a known
/// sender; a private thread takes chat lines whose sender is its peer.
pub open spec fn spec_match(i: ChannelTypeView, m: InboundMessageView) -> Option<ChatEventView> {
    match m.command {
        InboundCommandView::PrivMsg { target, text } => match i {
            ChannelTypeView::Public(name) => match m.sender {
                Option::Some(nick) => if target == name {
                    Option::Some(ChatEventView { sender: nick, text })
                } else {
                    Option::None
                },
                Option::None => Option::None,
            },
            ChannelTypeView::Private(peer) => match m.sender {
                Option::Some(nick) => if nick == peer {
                    Option::Some(ChatEventView { sender: peer, text })
                } else {
                    Option::None
                },
                Option::None => Option::None,
            },
        },
        _ => Option::None,
    }
}

impl ChannelType {
    /// Applies the identity's matching rule to one inbound message and
    /// returns the event to publish, if the message belongs here.
    pub fn handle_msg(&self, msg: &InboundMessage) -> (r: Option<ChatEvent>)
        ensures
            match r {
                Option::Some(ev) => spec_match(self@, msg@) matches Some(v) && ev@ == v,
                Option::None => spec_match(self@, msg@) is None,
            },
    {
        match &msg.command {
            crate::message::InboundCommand::PrivMsg { target, text } => match self {
                ChannelType::Public(name) => match &msg.sender {
                    Option::Some(nick) => if *target == *name {
                        Option::Some(ChatEvent { sender: nick.clone(), text: text.clone() })
                    } else {
                        Option::None
                    },
                    Option::None => Option::None,
                },
                ChannelType::Private(peer) => match &msg.sender {
                    Option::Some(nick) => if *nick == *peer {
                        Option::Some(ChatEvent { sender: peer.clone(), text: text.clone() })
                    } else {
                        Option::None
                    },
                    Option::None => Option::None,
                },
            },
            _ => Option::None,
        }
    }

    /// The bare protocol name of this identity.
    pub fn target(&self) -> (r: &str)
        ensures
            r@ == ident_name(self@),
    {
        match self {
            ChannelType::Public(s) => s.as_str(),
            ChannelType::Private(s) => s.as_str(),
        }
    }

    /// The display form of an identity: `[name]` for a public channel,
    /// `[PM] peer` for a private thread.
    pub fn display_name(&self) -> (r: String)
        ensures
            r@ == spec_display_name(self@),
    {
        proof {
            reveal_strlit("[");
            reveal_strlit("]");
            reveal_strlit("[PM] ");
        }
        match self {
            ChannelType::Public(s) => "[".to_owned().concat(s.as_str()).concat("]"),
            ChannelType::Private(s) => "[PM] ".to_owned().concat(s.as_str()),
        }
    }
}

/// The display form of an identity.
pub open spec fn spec_display_name(i: ChannelTypeView) -> Seq<char> {
    match i {
        ChannelTypeView::Public(s) => "["@ + s + "]"@,
        ChannelTypeView::Private(s) => "[PM] "@ + s,
    }
}

/// The full logical state of one conversation: its identity, the stream of
/// events published to its subscribers so far (with the count already
/// discarded from the bounded ring), the outbound commands queued on its
/// relay, how many handle clones are live, and whether its task has
/// terminated.
#[verifier::ext_equal]
pub ghost struct ConvView {
    pub identity: ChannelTypeView,
    pub history: Seq<ChatEventView>,
    pub start: int,
    pub cap: int,
    pub relay: Seq<CommandView>,
    pub clones: nat,
    pub closed: bool,
}

/// The state of a conversation after its task saw one inbound message: a
/// matching message is published to the fan-out (discarding the oldest
/// retained event if the ring was full); anything else, or a terminated
/// task, leaves the conversation unchanged.
pub open spec fn conv_after_msg(c: ConvView, m: InboundMessageView) -> ConvView {
    match spec_match(c.identity, m) {
        Option::Some(ev) => if c.closed {
            c
        } else {
            ConvView {
                history: c.history.push(ev),
                start: spec_publish_start(c.start, c.history.len() as int, c.cap),
                ..c
            }
        },
        Option::None => c,
    }
}

/// The state of a conversation after a handle queued one chat line: the
/// command is appended to its relay.
pub open spec fn conv_after_send(c: ConvView, text: Seq<char>) -> ConvView {
    ConvView {
        relay: c.relay.push(
            CommandView::PrivMsg { target: ident_name(c.identity), text },
        ),
        ..c
    }
}

/// The state of a conversation after one handle clone is released: the last
/// release closes the task, which queues exactly one part command for its
/// identity on the relay.
pub open spec fn conv_after_release(c: ConvView) -> ConvView {
    if c.clones == 0 {
        c
    } else if c.clones == 1 {
        ConvView {
            clones: 0,
            closed: true,
            relay: c.relay.push((CommandView::Part { channel: ident_name(c.identity) })),
            ..c
        }
    } else {
        ConvView { clones: (c.clones - 1) as nat, ..c }
    }
}

/// A conversation handle together with the state of the task that serves
/// it: the fan-out source its subscribers read, and the relay queue its
/// sends travel through on their way to the shared outbound sink.
pub struct Channel {
    pub ch_type: ChannelType,
    pub fanout: FanOutSource,
    pub relay: Vec<Command>,
    pub clones: usize,
    pub closed: bool,
}

impl View for Channel {
    type V = ConvView;

    open spec fn view(&self) -> ConvView {
        ConvView {
            identity: self.ch_type@,
            history: self.fanout.history@,
            start: self.fanout.start as int,
            cap: self.fanout.cap as int,
            relay: self.relay.deep_view(),
            clones: self.clones as nat,
            closed: self.closed,
        }
    }
}

impl DeepView for Channel {
    type V = ConvView;

    open spec fn deep_view(&self) -> ConvView {
        self.view()
    }
}

impl Channel {
    /// The ring is in shape, the task is terminated exactly when no handle
    /// clone is left, and the relay queue is bounded: a live conversation
    /// holds at most `RELAY_CAPACITY` queued sends, and a terminated one
    /// at most one more — the terminal part command.
    pub open spec fn wf(self) -> bool {
        &&& self.fanout.wf()
        &&& (self.closed <==> self.clones == 0)
        &&& (!self.closed ==> self.relay@.len() <= RELAY_CAPACITY)
        &&& (self.closed ==> self.relay@.len() <= RELAY_CAPACITY + 1)
    }

    /// A fresh conversation for the given identity, with one live handle,
    /// an empty history and an empty relay.
    pub fn new(channel: ChannelType) -> (c: Channel)
        ensures
            c.wf(),
            c@.identity == channel@,
            c@.history == Seq::<ChatEventView>::empty(),
            c@.start == 0,
            c@.cap == FANOUT_CAPACITY as int,
            c@.relay == Seq::<CommandView>::empty(),
            c@.clones == 1,
            !c@.closed,
    {
        Channel {
            ch_type: channel,
            fanout: FanOutSource::new(FANOUT_CAPACITY),
            relay: Vec::new(),
            clones: 1,
            closed: false,
        }
    }

    /// The display form of this conversation's identity: `[name]` for a
    /// public channel, `[PM] peer` for a private thread. Protocol
    /// addressing uses the bare name, `target()`.
    pub fn name(&self) -> (r: String)
        ensures
            r@ == spec_display_name(self@.identity),
    {
        self.ch_type.display_name()
    }

    /// The bare protocol name of this conversation: what outbound chat and
    /// part commands are addressed to.
    pub fn target(&self) -> (r: &str)
        ensures
            r@ == ident_name(self@.identity),
    {
        self.ch_type.target()
    }

    /// The task half of the engine for one inbound message: publish the
    /// event of a matching message to this conversation's subscribers,
    /// ignore everything else.
    pub fn task_inbound(&mut self, msg: &InboundMessage)
        requires
            old(self).wf(),
            old(self)@.history.len() < usize::MAX,
        ensures
            final(self).wf(),
            final(self)@ == conv_after_msg(old(self)@, msg@),
    {
        if self.closed {
            return ;
        }
        match self.ch_type.handle_msg(msg) {
            Option::Some(ev) => self.fanout.publish(ev),
            Option::None => (),
        }
    }

    /// Queues one chat line addressed to this conversation's identity on
    /// the task's relay. Fails exactly when the conversation has been torn
    /// down. The relay is bounded: on a live conversation the caller may
    /// only send when there is room, the rendering of the original's
    /// backpressure — a full queue makes the sender wait for the task to
    /// drain.
    pub fn send_message(&mut self, context: String) -> (r: Result<(), BanchoIrcError>)
        requires
            old(self).wf(),
            !old(self)@.closed ==> old(self)@.relay.len() < RELAY_CAPACITY,
        ensures
            final(self).wf(),
            old(self)@.closed ==> (r matches Err(BanchoIrcError::SendMsgError) && final(self)@
                == old(self)@),
            !old(self)@.closed ==> (r matches Ok(()) && final(self)@ == conv_after_send(
                old(self)@,
                context@,
            )),
    {
        if self.closed {
            return Err(BanchoIrcError::SendMsgError);
        }
        let target = self.ch_type.target().to_owned();
        self.relay.push(Command::PrivMsg { target, text: context });
        Ok(())
    }

    /// A fresh, independent subscription to this conversation's events: it
    /// sees every event published from this moment onward, no history.
    pub fn receiver(&self) -> (c: Cursor)
        requires
            self.wf(),
        ensures
            c@ == self@.history.len(),
    {
        self.fanout.subscribe()
    }

    /// One receive attempt of the subscriber owning `c`: the next retained
    /// event, a lag report if the subscriber fell behind the ring, nothing
    /// if it is current — or, once the conversation is torn down and
    /// drained, the news that no event will ever come.
    pub fn recv(&self, c: &mut Cursor) -> (r: Result<Option<ChatEvent>, BanchoIrcError>)
        requires
            self.wf(),
        ensures
            final(c)@ == spec_recv_pos(self@.history, self@.start, old(c)@),
            match spec_recv_outcome(self@.history, self@.start, old(c)@) {
                RecvSpec::Pending => if self@.closed {
                    r matches Err(BanchoIrcError::RecvMsgError)
                } else {
                    r matches Ok(o) && o is None
                },
                RecvSpec::Lagged { missed } => r matches Err(BanchoIrcError::StreamLag {
                    missed: m,
                }) && m == missed,
                RecvSpec::Item { ev } => r matches Ok(o) && o matches Some(e) && e@ == ev,
            },
    {
        let out = self.fanout.recv(c);
        match out {
            Result::Ok(Option::None) => if self.closed {
                Err(BanchoIrcError::RecvMsgError)
            } else {
                Ok(None)
            },
            other => other,
        }
    }

    /// One more live clone of this conversation's handle.
    pub fn clone_handle(&mut self)
        requires
            old(self).wf(),
            old(self)@.clones >= 1,
            old(self)@.clones < usize::MAX,
        ensures
            final(self).wf(),
            final(self)@ == (ConvView { clones: (old(self)@.clones + 1) as nat, ..old(self)@ }),
    {
        self.clones = self.clones + 1;
    }

    /// Releases one handle clone; with none live this does nothing. The
    /// last release terminates the task, which queues exactly one part
    /// command for this identity and then publishes nothing further.
    pub fn release(&mut self)
        requires
            old(self).wf(),
        ensures
            final(self).wf(),
            final(self)@ == conv_after_release(old(self)@),
    {
        if self.clones == 0 {
            return ;
        }
        if self.clones == 1 {
            let channel = self.ch_type.target().to_owned();
            self.relay.push(Command::Part { channel });
            self.clones = 0;
            self.closed = true;
        } else {
            self.clones = self.clones - 1;
        }
    }
}

/// Message isolation between identities of the same kind: two distinct
/// public channels, or two distinct private threads, never match the same
/// inbound message, so no message of one can be published to a subscriber
/// of the other.
pub proof fn lemma_identity_isolation(
    c1: ChannelTypeView,
    c2: ChannelTypeView,
    m: InboundMessageView,
)
    requires
        (c1 is Public && c2 is Public) || (c1 is Private && c2 is Private),
        c1 != c2,
    ensures
        !(spec_match(c1, m) is Some && spec_match(c2, m) is Some),
{
}

/// A conversation only ever publishes events of messages its own identity
/// matches: any other message leaves its whole state unchanged.
pub proof fn lemma_no_foreign_publish(c: ConvView, m: InboundMessageView)
    requires
        spec_match(c.identity, m) is None,
    ensures
        conv_after_msg(c, m) == c,
{
}

/// Within one conversation, publishes preserve the inbound stream's order:
/// delivering two matching messages appends their events in exactly that
/// order, after everything published before.
pub proof fn lemma_publish_order(c: ConvView, m1: InboundMessageView, m2: InboundMessageView)
    requires
        !c.closed,
        spec_match(c.identity, m1) is Some,
        spec_match(c.identity, m2) is Some,
    ensures
        spec_match(c.identity, m1) matches Some(e1) && spec_match(c.identity, m2) matches Some(e2)
            ==> conv_after_msg(conv_after_msg(c, m1), m2).history == c.history.push(e1).push(e2),
{
}

/// Releasing the last handle clone of a conversation queues exactly one
/// part command for its identity, terminates its task, and no inbound
/// message changes the conversation afterwards.
pub proof fn lemma_release_terminates(c: ConvView, m: InboundMessageView)
    requires
        c.clones == 1,
    ensures
        conv_after_release(c).closed,
        conv_after_release(c).relay == c.relay.push(
            (CommandView::Part { channel: ident_name(c.identity) }),
        ),
        conv_after_release(c).history == c.history,
        conv_after_msg(conv_after_release(c), m) == conv_after_release(c),
{
}

} // verus!
