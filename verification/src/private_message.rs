//! The handle surface of a private one-to-one message thread. The engine is
//! the shared conversation engine; only the identity kind and the display
//! form differ from a public channel.

use vstd::prelude::*;

use crate::channel::{
    conv_after_release, conv_after_send, conv_after_msg, Channel, ChannelType, ChannelTypeView,
    ConvView,
};
use crate::error::BanchoIrcError;
use crate::fanout::{spec_recv_outcome, spec_recv_pos, ChatEvent, Cursor, RecvSpec};
use crate::message::InboundMessage;

verus! {

/// A private message thread with one peer, as a conversation of its own.
pub struct PrivateMessage {
    pub inner: Channel,
}

impl View for PrivateMessage {
    type V = ConvView;

    open spec fn view(&self) -> ConvView {
        self.inner@
    }
}

impl PrivateMessage {
    /// The engine is in shape and the identity really is a private thread.
    pub open spec fn wf(self) -> bool {
        &&& self.inner.wf()
        &&& self@.identity is Private
    }

    /// A fresh private thread with the given peer, with one live handle, an
    /// empty history and an empty relay.
    pub fn new(channel: &str) -> (p: PrivateMessage)
        ensures
            p.wf(),
            p@.identity == ChannelTypeView::Private(channel@),
            p@.history == Seq::<crate::fanout::ChatEventView>::empty(),
            p@.relay == Seq::<crate::message::CommandView>::empty(),
            p@.clones == 1,
            !p@.closed,
    {
        PrivateMessage { inner: Channel::new(ChannelType::Private(channel.to_owned())) }
    }

    /// The display form of this thread's identity: `[PM] peer`. Protocol
    /// addressing uses the bare peer nickname, `target()`.
    pub fn name(&self) -> (r: String)
        ensures
            r@ == crate::channel::spec_display_name(self@.identity),
    {
        self.inner.name()
    }

    /// The peer's bare nickname: what outbound chat and part commands are
    /// addressed to.
    pub fn target(&self) -> (r: &str)
        ensures
            r@ == crate::channel::ident_name(self@.identity),
    {
        self.inner.target()
    }

    /// Queues one chat line addressed to the peer on the task's relay.
    /// Fails exactly when the thread has been torn down; on a live thread
    /// the bounded relay must have room.
    pub fn send_message(&mut self, context: String) -> (r: Result<(), BanchoIrcError>)
        requires
            old(self).wf(),
            !old(self)@.closed ==> old(self)@.relay.len() < crate::channel::RELAY_CAPACITY,
        ensures
            final(self).wf(),
            old(self)@.closed ==> (r matches Err(BanchoIrcError::SendMsgError) && final(self)@
                == old(self)@),
            !old(self)@.closed ==> (r matches Ok(()) && final(self)@ == conv_after_send(
                old(self)@,
                context@,
            )),
    {
        self.inner.send_message(context)
    }

    /// A fresh, independent subscription to this thread's events.
    pub fn receiver(&self) -> (c: Cursor)
        requires
            self.wf(),
        ensures
            c@ == self@.history.len(),
    {
        self.inner.receiver()
    }

    /// One receive attempt of the subscriber owning `c`.
    pub fn recv(&self, c: &mut Cursor) -> (r: Result<Option<ChatEvent>, BanchoIrcError>)
        requires
            self.wf(),
        ensures
            final(c)@ == spec_recv_pos(self@.history, self@.start, old(c)@),
            match spec_recv_outcome(self@.history, self@.start, old(c)@) {
                RecvSpec::Pending => if self@.closed {
                    r matches Err(BanchoIrcError::RecvMsgError)
                } else {
                    r matches Ok(o) && o is None
                },
                RecvSpec::Lagged { missed } => r matches Err(BanchoIrcError::StreamLag {
                    missed: m,
                }) && m == missed,
                RecvSpec::Item { ev } => r matches Ok(o) && o matches Some(e) && e@ == ev,
            },
    {
        self.inner.recv(c)
    }

    /// The task half of the engine for one inbound message: publish the
    /// text of a chat line from the peer, ignore everything else.
    pub fn task_inbound(&mut self, msg: &InboundMessage)
        requires
            old(self).wf(),
            old(self)@.history.len() < usize::MAX,
        ensures
            final(self).wf(),
            final(self)@ == conv_after_msg(old(self)@, msg@),
    {
        self.inner.task_inbound(msg)
    }

    /// Releases one handle clone; the last release terminates the task,
    /// which queues exactly one part command for the peer.
    pub fn release(&mut self)
        requires
            old(self).wf(),
        ensures
            final(self).wf(),
            final(self)@ == conv_after_release(old(self)@),
    {
        self.inner.release()
    }
}

} // verus!
