//! The lossy one-to-many fan-out primitive behind every conversation handle.
//!
//! Published events are kept in a bounded ring: each subscriber owns an
//! independent cursor into the logical stream of all events ever published,
//! and a subscriber that falls more than the capacity behind misses events
//! and is told so, rather than blocking the publisher.

use vstd::prelude::*;

use crate::error::BanchoIrcError;

verus! {

/// One matched chat event as a conversation's subscribers see it.
#[derive(Debug)]
pub struct ChatEvent {
    pub sender: String,
    pub text: String,
}

/// The mathematical shape of a chat event.
#[verifier::ext_equal]
pub ghost struct ChatEventView {
    pub sender: Seq<char>,
    pub text: Seq<char>,
}

impl View for ChatEvent {
    type V = ChatEventView;

    open spec fn view(&self) -> ChatEventView {
        ChatEventView { sender: self.sender@, text: self.text@ }
    }
}

/// A bounded, lossy publish/subscribe source.
///
/// `history` is the full logical stream of published events; only the last
/// `buf.len()` of them (at most `cap`) are still held, the `start` oldest
/// having been discarded to keep the ring bounded.
pub struct FanOutSource {
    pub buf: Vec<ChatEvent>,
    pub start: usize,
    pub cap: usize,
    pub history: Ghost<Seq<ChatEventView>>,
}

/// An independent read position of one subscriber into a fan-out source.
#[derive(Debug)]
pub struct Cursor {
    pub pos: usize,
}

impl View for Cursor {
    type V = int;

    open spec fn view(&self) -> int {
        self.pos as int
    }
}

/// What one receive attempt of a subscriber yields, as a function of the
/// published history, the count of discarded events and the cursor position.
#[verifier::ext_equal]
pub ghost enum RecvSpec {
    /// Nothing published past the cursor yet.
    Pending,
    /// The cursor fell behind the ring: `missed` events were discarded
    /// before it could read them.
    Lagged { missed: int },
    /// The next retained event.
    Item { ev: ChatEventView },
}

/// The count of discarded events after publishing onto a ring that held
/// `len - start` of `cap` slots: a full ring discards its oldest event.
pub open spec fn spec_publish_start(start: int, len: int, cap: int) -> int {
    if len - start == cap {
        start + 1
    } else {
        start
    }
}

/// What a receive at cursor position `pos` yields.
pub open spec fn spec_recv_outcome(history: Seq<ChatEventView>, start: int, pos: int) -> RecvSpec {
    if pos >= history.len() {
        RecvSpec::Pending
    } else if pos < start {
        RecvSpec::Lagged { missed: start - pos }
    } else {
        RecvSpec::Item { ev: history[pos] }
    }
}

/// Where a receive at cursor position `pos` leaves the cursor: a lagged
/// cursor is moved up to the oldest retained event, a served one past the
/// event it read.
pub open spec fn spec_recv_pos(history: Seq<ChatEventView>, start: int, pos: int) -> int {
    if pos >= history.len() {
        pos
    } else if pos < start {
        start
    } else {
        pos + 1
    }
}

impl FanOutSource {
    /// The ring holds the newest events of the history, nothing else, and
    /// never more than its capacity.
    pub open spec fn wf(self) -> bool {
        &&& 1 <= self.cap
        &&& self.start + self.buf@.len() == self.history@.len()
        &&& self.buf@.len() <= self.cap
        &&& self.history@.len() <= usize::MAX
        &&& forall|i: int|
            0 <= i < self.buf@.len() ==> #[trigger] self.buf@[i]@ == self.history@[
                self.start + i
            ]
    }

    /// An empty source with the given ring capacity.
    pub fn new(cap: usize) -> (s: FanOutSource)
        requires
            1 <= cap,
        ensures
            s.wf(),
            s.history@ == Seq::<ChatEventView>::empty(),
            s.start == 0,
            s.cap == cap,
    {
        FanOutSource { buf: Vec::new(), start: 0, cap, history: Ghost(Seq::empty()) }
    }

    /// Appends an event to the logical stream, discarding the oldest
    /// retained event if the ring is full. Publishing never fails: zero
    /// subscribers, or subscribers that lag, are the subscribers' concern.
    pub fn publish(&mut self, ev: ChatEvent)
        requires
            old(self).wf(),
            old(self).history@.len() < usize::MAX,
        ensures
            final(self).wf(),
            final(self).history@ == old(self).history@.push(ev@),
            final(self).cap == old(self).cap,
            final(self).start as int == spec_publish_start(
                old(self).start as int,
                old(self).history@.len() as int,
                old(self).cap as int,
            ),
    {
        let ghost evv = ev@;
        if self.buf.len() == self.cap {
            self.buf.remove(0);
            self.start = self.start + 1;
        }
        self.buf.push(ev);
        proof {
            self.history@ = self.history@.push(evv);
        }
    }

    /// A fresh, independent subscription: it sees every event published
    /// from this moment onward and replays no history.
    pub fn subscribe(&self) -> (c: Cursor)
        requires
            self.wf(),
        ensures
            c@ == self.history@.len(),
    {
        Cursor { pos: self.start + self.buf.len() }
    }

    /// One receive attempt of the subscriber owning `c`: yields the next
    /// retained event, or reports how many events the subscriber missed, or
    /// says that nothing new is published yet.
    pub fn recv(&self, c: &mut Cursor) -> (r: Result<Option<ChatEvent>, BanchoIrcError>)
        requires
            self.wf(),
        ensures
            final(c)@ == spec_recv_pos(self.history@, self.start as int, old(c)@),
            match spec_recv_outcome(self.history@, self.start as int, old(c)@) {
                RecvSpec::Pending => r matches Ok(o) && o is None,
                RecvSpec::Lagged { missed } => r matches Err(BanchoIrcError::StreamLag {
                    missed: m,
                }) && m == missed,
                RecvSpec::Item { ev } => r matches Ok(o) && o matches Some(e) && e@ == ev,
            },
    {
        if c.pos >= self.start + self.buf.len() {
            Ok(None)
        } else if c.pos < self.start {
            let missed = self.start - c.pos;
            c.pos = self.start;
            Err(BanchoIrcError::StreamLag { missed })
        } else {
            let idx = c.pos - self.start;
            let ev = ChatEvent {
                sender: self.buf[idx].sender.clone(),
                text: self.buf[idx].text.clone(),
            };
            c.pos = c.pos + 1;
            Ok(Some(ev))
        }
    }
}

/// Every subscriber that is current at the moment of a publish receives
/// exactly the published event on its next receive, and its cursor moves
/// past it. Any number of subscriptions taken before the publish share the
/// same position, so one published event reaches all of them.
pub proof fn lemma_publish_reaches_current_subscribers(
    history: Seq<ChatEventView>,
    start: int,
    cap: int,
    pos: int,
    ev: ChatEventView,
)
    requires
        0 <= start <= history.len(),
        history.len() - start <= cap,
        1 <= cap,
        pos == history.len(),
    ensures
        spec_recv_outcome(
            history.push(ev),
            spec_publish_start(start, history.len() as int, cap),
            pos,
        ) == (RecvSpec::Item { ev }),
        spec_recv_pos(history.push(ev), spec_publish_start(start, history.len() as int, cap), pos)
            == pos + 1,
{
}

} // verus!
