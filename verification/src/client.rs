//! The session over one authenticated connection: the login handshake, the
//! registry of conversations, the fan-in of the shared inbound stream to
//! every conversation task, and the serialization of every relay onto the
//! one shared outbound sink.

use vstd::prelude::*;

use crate::channel::{
    conv_after_msg, conv_after_release, conv_after_send, ident_name, spec_display_name, Channel,
    ChannelType, ChannelTypeView, ConvView, FANOUT_CAPACITY, RELAY_CAPACITY,
};
use crate::error::BanchoIrcError;
use crate::fanout::{ChatEvent, Cursor};
use crate::message::{
    is_error_code, Command, CommandView, InboundCommand, InboundCommandView, InboundMessage,
    InboundMessageView, ERR_NOSUCHCHANNEL, ERR_PASSWDMISMATCH, RPL_WELCOME,
};

verus! {

/// The full logical state of a session: the login nickname, the registry of
/// conversations in creation order, the inbound messages the transport has
/// delivered but the session has not consumed yet, and the commands already
/// serialized onto the shared outbound sink.
#[verifier::ext_equal]
pub ghost struct ClientView {
    pub nickname: Seq<char>,
    pub convs: Seq<ConvView>,
    pub inbound: Seq<InboundMessageView>,
    pub outbound: Seq<CommandView>,
}

/// A session over one connection. Conversations are owned by the session
/// and addressed by the handle index that `join_channel` or
/// `new_private_message` returned; entries are never removed, a terminated
/// conversation only closes, so handles stay valid.
pub struct OsuIrcClient {
    pub nickname: String,
    pub channel: Vec<Channel>,
    pub inbound: Vec<InboundMessage>,
    pub outbound: Vec<Command>,
}

impl View for OsuIrcClient {
    type V = ClientView;

    open spec fn view(&self) -> ClientView {
        ClientView {
            nickname: self.nickname@,
            convs: self.channel.deep_view(),
            inbound: self.inbound.deep_view(),
            outbound: self.outbound.deep_view(),
        }
    }
}

/// At most one open conversation per identity: the invariant behind the
/// idempotence of joining.
pub open spec fn registry_ok(convs: Seq<ConvView>) -> bool {
    forall|i: int, j: int|
        0 <= i < j < convs.len() && !convs[i].closed && !convs[j].closed ==> convs[i].identity
            != convs[j].identity
}

/// The first open conversation with the given identity, if any.
pub open spec fn find_open(convs: Seq<ConvView>, ident: ChannelTypeView) -> Option<int>
    decreases convs.len(),
{
    if convs.len() == 0 {
        Option::None
    } else if !convs[0].closed && convs[0].identity == ident {
        Option::Some(0)
    } else {
        match find_open(convs.drop_first(), ident) {
            Option::Some(i) => Option::Some(i + 1),
            Option::None => Option::None,
        }
    }
}

/// A conversation as `join_channel` or `new_private_message` first creates
/// it: one live handle, nothing published, nothing queued.
pub open spec fn fresh_conv(ident: ChannelTypeView) -> ConvView {
    ConvView {
        identity: ident,
        history: Seq::empty(),
        start: 0,
        cap: FANOUT_CAPACITY as int,
        relay: Seq::empty(),
        clones: 1,
        closed: false,
    }
}

/// The registry after the session relay fanned one inbound message out to
/// every conversation task.
pub open spec fn convs_after_msg(cs: Seq<ConvView>, m: InboundMessageView) -> Seq<ConvView> {
    cs.map_values(|c: ConvView| conv_after_msg(c, m))
}

/// Machine-limit headroom: every conversation can take `extra` more
/// published events without its event counter leaving `usize`.
pub open spec fn room_for(cs: Seq<ConvView>, extra: int) -> bool {
    forall|i: int| 0 <= i < cs.len() ==> (#[trigger] cs[i]).history.len() + extra <= usize::MAX
}

/// Machine-limit headroom on handle counts: every conversation can take one
/// more handle clone.
pub open spec fn clones_room(cs: Seq<ConvView>) -> bool {
    forall|i: int| 0 <= i < cs.len() ==> (#[trigger] cs[i]).clones < usize::MAX
}

/// What the login handshake makes of a prefix of the inbound stream: the
/// first recognized response decides. A password rejection fails the login
/// with the server's detail; any other error-class response is fatal for
/// the session; a welcome succeeds; everything else is consumed and
/// ignored. An inbound stream that ends without a decision leaves a
/// session that will simply never hear anything.
pub ghost enum HandshakeSpec {
    Success { consumed: int },
    Fail { detail: Seq<char> },
    Fatal { code: u16, detail: Seq<char> },
}

/// Adds `k` already-consumed messages to a handshake outcome.
pub open spec fn hs_add(k: int, h: HandshakeSpec) -> HandshakeSpec {
    match h {
        HandshakeSpec::Success { consumed } => HandshakeSpec::Success { consumed: consumed + k },
        _ => h,
    }
}

/// What the login handshake makes of one inbound message.
pub ghost enum LoginClass {
    Skip,
    Welcome,
    Failure { detail: Seq<char> },
    Fatal { code: u16, detail: Seq<char> },
}

/// Classifies one inbound message for the login handshake.
pub open spec fn login_class(m: InboundMessageView) -> LoginClass {
    match m.command {
        InboundCommandView::Response { code, detail } => if code == ERR_PASSWDMISMATCH {
            LoginClass::Failure { detail }
        } else if is_error_code(code) {
            LoginClass::Fatal { code, detail }
        } else if code == RPL_WELCOME {
            LoginClass::Welcome
        } else {
            LoginClass::Skip
        },
        _ => LoginClass::Skip,
    }
}

/// The handshake outcome on an inbound stream.
pub open spec fn spec_handshake(msgs: Seq<InboundMessageView>) -> HandshakeSpec
    decreases msgs.len(),
{
    if msgs.len() == 0 {
        HandshakeSpec::Success { consumed: 0 }
    } else {
        match login_class(msgs[0]) {
            LoginClass::Failure { detail } => HandshakeSpec::Fail { detail },
            LoginClass::Fatal { code, detail } => HandshakeSpec::Fatal { code, detail },
            LoginClass::Welcome => HandshakeSpec::Success { consumed: 1 },
            LoginClass::Skip => hs_add(1, spec_handshake(msgs.drop_first())),
        }
    }
}

/// The exec mirror of `login_class`, for drivers that read the transport
/// one message at a time and need to know when the handshake can decide.
pub enum LoginStep {
    Pending,
    Welcome,
    Failure { detail: String },
    Fatal { code: u16, detail: String },
}

/// Classifies one inbound message exactly as the login handshake does.
pub fn login_step(msg: &InboundMessage) -> (r: LoginStep)
    ensures
        match r {
            LoginStep::Pending => login_class(msg@) is Skip,
            LoginStep::Welcome => login_class(msg@) is Welcome,
            LoginStep::Failure { detail } => login_class(msg@) matches LoginClass::Failure {
                detail: d,
            } && detail@ == d,
            LoginStep::Fatal { code, detail } => login_class(msg@) matches LoginClass::Fatal {
                code: c,
                detail: d,
            } && code == c && detail@ == d,
        },
{
    match &msg.command {
        InboundCommand::Response { code, detail } => {
            if *code == ERR_PASSWDMISMATCH {
                LoginStep::Failure { detail: detail.clone() }
            } else if *code >= 400 {
                LoginStep::Fatal { code: *code, detail: detail.clone() }
            } else if *code == RPL_WELCOME {
                LoginStep::Welcome
            } else {
                LoginStep::Pending
            }
        },
        _ => LoginStep::Pending,
    }
}

impl OsuIrcClient {
    /// Every conversation's engine is in shape and the registry keeps at
    /// most one open conversation per identity.
    pub open spec fn wf(self) -> bool {
        &&& forall|i: int|
            0 <= i < self.channel@.len() ==> (#[trigger] self.channel@[i]).wf()
        &&& registry_ok(self@.convs)
    }

    /// Creates a session by driving the login handshake over the inbound
    /// stream: messages are consumed one at a time until the server rejects
    /// the password (`IrcLoginFailure`, and no session — so no usable
    /// outbound sink — ever exists), answers with another error-class
    /// response (`ProtocolError`), or welcomes the login, which leaves a
    /// session with no conversations, nothing sent, and the unconsumed
    /// inbound remainder. The transport authenticates with the credentials
    /// itself; the core records the nickname and reads the server's
    /// verdict off the inbound stream.
    #[verifier::loop_isolation(false)]
    pub fn new(username: String, password: String, inbound: Vec<InboundMessage>) -> (r: Result<
        OsuIrcClient,
        BanchoIrcError,
    >)
        ensures
            match spec_handshake(inbound.deep_view()) {
                HandshakeSpec::Success { consumed } => r matches Ok(c) && c.wf() && c@
                    == (ClientView {
                    nickname: username@,
                    convs: Seq::empty(),
                    inbound: inbound.deep_view().skip(consumed),
                    outbound: Seq::empty(),
                }),
                HandshakeSpec::Fail { detail } => r matches Err(BanchoIrcError::IrcLoginFailure {
                    detail: d,
                }) && d@ == detail,
                HandshakeSpec::Fatal { code, detail } => r matches Err(
                    BanchoIrcError::ProtocolError { code: c, detail: d },
                ) && c == code && d@ == detail,
            },
    {
        let _ = password;
        let ghost uname = username@;
        let ghost views = inbound.deep_view();
        let mut q = inbound;
        let ghost k: int = 0;
        loop
            invariant
                0 <= k <= views.len(),
                q.deep_view() == views.skip(k),
                spec_handshake(views) == hs_add(k, spec_handshake(q.deep_view())),
            decreases q@.len(),
        {
            if q.len() == 0 {
                let c = OsuIrcClient {
                    nickname: username,
                    channel: Vec::new(),
                    inbound: q,
                    outbound: Vec::new(),
                };
                proof {
                    assert(c@ =~= (ClientView {
                        nickname: uname,
                        convs: Seq::empty(),
                        inbound: views.skip(k),
                        outbound: Seq::empty(),
                    }));
                }
                return Ok(c);
            }
            let ghost q_pre = q.deep_view();
            let m = q.remove(0);
            proof {
                assert(q.deep_view() =~= q_pre.drop_first());
                assert(q_pre.drop_first() =~= views.skip(k + 1));
            }
            proof {
                assert(q_pre[0] == m@);
            }
            match &m.command {
                InboundCommand::Response { code, detail } => {
                    proof {
                        assert(m@.command matches InboundCommandView::Response {
                            code: cd,
                            detail: dt,
                        } && cd == *code && dt == detail@);
                    }
                    if *code == ERR_PASSWDMISMATCH {
                        return Err(BanchoIrcError::IrcLoginFailure { detail: detail.clone() });
                    } else if *code >= 400 {
                        return Err(BanchoIrcError::ProtocolError {
                            code: *code,
                            detail: detail.clone(),
                        });
                    } else if *code == RPL_WELCOME {
                        let c = OsuIrcClient {
                            nickname: username,
                            channel: Vec::new(),
                            inbound: q,
                            outbound: Vec::new(),
                        };
                        proof {
                            assert(c@ =~= (ClientView {
                                nickname: uname,
                                convs: Seq::empty(),
                                inbound: views.skip(k + 1),
                                outbound: Seq::empty(),
                            }));
                        }
                        return Ok(c);
                    }
                },
                _ => (),
            }
            proof {
                k = k + 1;
            }
        }
    }

    /// Appends one transport-delivered message to the session's inbound
    /// queue.
    pub fn push_inbound(&mut self, msg: InboundMessage)
        requires
            old(self).wf(),
        ensures
            final(self).wf(),
            final(self)@ == (ClientView {
                inbound: old(self)@.inbound.push(msg@),
                ..old(self)@
            }),
    {
        let ghost pre = self@.inbound;
        let ghost mv = msg@;
        self.inbound.push(msg);
        proof {
            assert(self@.inbound =~= pre.push(mv));
        }
    }

    /// The session relay's fan-out of one message: every conversation task
    /// sees it and publishes it to its own subscribers exactly if its
    /// identity matches.
    #[verifier::loop_isolation(false)]
    fn dispatch_msg(&mut self, msg: &InboundMessage)
        requires
            old(self).wf(),
            room_for(old(self)@.convs, 1),
        ensures
            final(self).wf(),
            final(self)@ == (ClientView {
                convs: convs_after_msg(old(self)@.convs, msg@),
                ..old(self)@
            }),
    {
        let ghost orig = self@.convs;
        let n = self.channel.len();
        let mut i: usize = 0;
        while i < n
            invariant
                i <= n,
                n == self.channel@.len(),
                self.nickname == old(self).nickname,
                self.inbound == old(self).inbound,
                self.outbound == old(self).outbound,
                orig == old(self)@.convs,
                orig.len() == n,
                room_for(orig, 1),
                forall|j: int| 0 <= j < n ==> (#[trigger] self.channel@[j]).wf(),
                forall|j: int|
                    0 <= j < i ==> (#[trigger] self.channel@[j])@ == conv_after_msg(
                        orig[j],
                        msg@,
                    ),
                forall|j: int| i <= j < n ==> (#[trigger] self.channel@[j])@ == orig[j],
            decreases n - i,
        {
            proof {
                assert(self.channel@[i as int]@ == orig[i as int]);
                assert(orig[i as int].history.len() + 1 <= usize::MAX);
            }
            let mut c = self.channel.remove(i);
            c.task_inbound(msg);
            self.channel.insert(i, c);
            i = i + 1;
        }
        proof {
            assert(self@.convs =~= convs_after_msg(orig, msg@));
            lemma_convs_after_msg_shape(orig, msg@);
            assert(registry_ok(self@.convs));
            assert(self@ =~= (ClientView {
                convs: convs_after_msg(old(self)@.convs, msg@),
                ..old(self)@
            }));
        }
    }

    /// Consumes the oldest queued inbound message, if any, and fans it out
    /// to every conversation; says whether there was one, so a driver can
    /// pump until the queue is dry.
    pub fn poll_inbound(&mut self) -> (r: bool)
        requires
            old(self).wf(),
            room_for(old(self)@.convs, 1),
        ensures
            final(self).wf(),
            old(self)@.inbound.len() == 0 ==> !r && final(self)@ == old(self)@,
            old(self)@.inbound.len() > 0 ==> r && final(self)@ == (ClientView {
                convs: convs_after_msg(old(self)@.convs, old(self)@.inbound[0]),
                inbound: old(self)@.inbound.drop_first(),
                ..old(self)@
            }),
    {
        if self.inbound.len() == 0 {
            return false;
        }
        let ghost pre = self@.inbound;
        let m = self.inbound.remove(0);
        proof {
            assert(self@.inbound =~= pre.drop_first());
        }
        self.dispatch_msg(&m);
        true
    }
}

/// Every command queued on the relays of the registry's conversations, in
/// the order the relays are drained onto the shared sink: conversation by
/// conversation in registry order, each relay front to back.
pub open spec fn relays_of(cs: Seq<ConvView>) -> Seq<CommandView>
    decreases cs.len(),
{
    if cs.len() == 0 {
        Seq::empty()
    } else {
        relays_of(cs.drop_last()) + cs.last().relay
    }
}

/// The registry after every relay was drained onto the shared sink.
pub open spec fn clear_relays(cs: Seq<ConvView>) -> Seq<ConvView> {
    cs.map_values(|c: ConvView| ConvView { relay: Seq::empty(), ..c })
}

impl OsuIrcClient {
    /// The relay half of every conversation task in one sweep: moves every
    /// queued command of every conversation, in registry order and per
    /// relay front to back, onto the shared outbound sink.
    #[verifier::loop_isolation(false)]
    pub fn flush_outbound(&mut self)
        requires
            old(self).wf(),
        ensures
            final(self).wf(),
            final(self)@ == (ClientView {
                convs: clear_relays(old(self)@.convs),
                outbound: old(self)@.outbound + relays_of(old(self)@.convs),
                ..old(self)@
            }),
    {
        let ghost orig = self@.convs;
        let ghost out0 = self@.outbound;
        let n = self.channel.len();
        let mut i: usize = 0;
        while i < n
            invariant
                i <= n,
                n == self.channel@.len(),
                orig.len() == n,
                self.nickname == old(self).nickname,
                self.inbound == old(self).inbound,
                forall|j: int| 0 <= j < n ==> (#[trigger] self.channel@[j]).wf(),
                forall|j: int|
                    0 <= j < i ==> (#[trigger] self.channel@[j])@ == (ConvView {
                        relay: Seq::empty(),
                        ..orig[j]
                    }),
                forall|j: int| i <= j < n ==> (#[trigger] self.channel@[j])@ == orig[j],
                self@.outbound == out0 + relays_of(orig.take(i as int)),
            decreases n - i,
        {
            let mut c = self.channel.remove(i);
            let ghost chan_snap = self.channel@;
            let ghost r0 = c@.relay;
            let ghost o_in = self@.outbound;
            let ghost d: int = 0;
            while c.relay.len() > 0
                invariant
                    0 <= d <= r0.len(),
                    c@ == (ConvView { relay: r0.skip(d), ..orig[i as int] }),
                    c.wf(),
                    self.nickname == old(self).nickname,
                    self.inbound == old(self).inbound,
                    self.channel@ == chan_snap,
                    self@.outbound == o_in + r0.take(d),
                decreases c.relay@.len(),
            {
                let ghost rel_pre = c@.relay;
                let cmd = c.relay.remove(0);
                proof {
                    assert(rel_pre[0] == cmd@);
                    assert(rel_pre == r0.skip(d));
                    assert(rel_pre.len() > 0);
                    assert(d < r0.len());
                    assert(r0.skip(d)[0] == r0[d]);
                    assert(c@.relay =~= rel_pre.drop_first());
                    assert(rel_pre.drop_first() =~= r0.skip(d + 1));
                }
                let ghost ob_pre = self@.outbound;
                self.outbound.push(cmd);
                proof {
                    assert(self@.outbound =~= ob_pre.push(cmd@));
                    assert(cmd@ == r0[d]);
                    assert((o_in + r0.take(d)).push(r0[d]) =~= o_in + r0.take(d + 1));
                    assert(c@ =~= (ConvView { relay: r0.skip(d + 1), ..orig[i as int] }));
                    d = d + 1;
                }
            }
            proof {
                assert(c@.relay.len() == 0);
                assert(r0.skip(d).len() == 0);
                assert(d == r0.len());
                assert(r0.take(d) =~= r0);
                assert(c@ =~= (ConvView { relay: Seq::empty(), ..orig[i as int] }));
            }
            self.channel.insert(i, c);
            proof {
                assert(orig.take(i + 1).drop_last() =~= orig.take(i as int));
                assert(orig.take(i + 1).last() == orig[i as int]);
                assert(self@.outbound =~= out0 + relays_of(orig.take(i + 1)));
            }
            i = i + 1;
        }
        proof {
            assert(orig.take(n as int) =~= orig);
            assert(self@.convs =~= clear_relays(orig));
            assert(registry_ok(self@.convs));
            assert(self@ =~= (ClientView {
                convs: clear_relays(old(self)@.convs),
                outbound: old(self)@.outbound + relays_of(old(self)@.convs),
                ..old(self)@
            }));
        }
    }

    /// Hands the commands serialized on the shared outbound sink over to
    /// the transport, oldest first, leaving the sink empty.
    pub fn take_outbound(&mut self) -> (out: Vec<Command>)
        requires
            old(self).wf(),
        ensures
            final(self).wf(),
            out.deep_view() == old(self)@.outbound,
            final(self)@ == (ClientView { outbound: Seq::empty(), ..old(self)@ }),
    {
        let mut out: Vec<Command> = Vec::new();
        core::mem::swap(&mut self.outbound, &mut out);
        proof {
            assert(self@.outbound =~= Seq::<CommandView>::empty());
            assert(self@ =~= (ClientView { outbound: Seq::empty(), ..old(self)@ }));
        }
        out
    }

    /// Queues one chat line on the addressed conversation's relay. Fails
    /// exactly when that conversation has been torn down. The relay is
    /// bounded: when it is full, the oldest queued command is forwarded
    /// onto the shared sink first — the send waits for the task to drain
    /// one item, which is the original's backpressure — and then the line
    /// is queued.
    pub fn send_message(&mut self, h: usize, context: String) -> (r: Result<(), BanchoIrcError>)
        requires
            old(self).wf(),
            h < old(self)@.convs.len(),
        ensures
            final(self).wf(),
            old(self)@.convs[h as int].closed ==> (r matches Err(BanchoIrcError::SendMsgError)
                && final(self)@ == old(self)@),
            !old(self)@.convs[h as int].closed ==> (r matches Ok(()) && ({
                let c = old(self)@.convs[h as int];
                if c.relay.len() < RELAY_CAPACITY {
                    final(self)@ == (ClientView {
                        convs: old(self)@.convs.update(h as int, conv_after_send(c, context@)),
                        ..old(self)@
                    })
                } else {
                    final(self)@ == (ClientView {
                        convs: old(self)@.convs.update(
                            h as int,
                            conv_after_send(
                                (ConvView { relay: c.relay.drop_first(), ..c }),
                                context@,
                            ),
                        ),
                        outbound: old(self)@.outbound.push(c.relay[0]),
                        ..old(self)@
                    })
                }
            })),
    {
        let ghost orig = self@.convs;
        let mut c = self.channel.remove(h);
        if !c.closed && c.relay.len() >= RELAY_CAPACITY {
            let ghost rel_pre = c@.relay;
            let cmd = c.relay.remove(0);
            proof {
                assert(rel_pre[0] == cmd@);
                assert(c@.relay =~= rel_pre.drop_first());
            }
            let ghost ob_pre = self@.outbound;
            self.outbound.push(cmd);
            proof {
                assert(self@.outbound =~= ob_pre.push(orig[h as int].relay[0]));
            }
        }
        let r = c.send_message(context);
        self.channel.insert(h, c);
        proof {
            if orig[h as int].closed {
                assert(self@.convs =~= orig);
                assert(self@ =~= old(self)@);
            } else if orig[h as int].relay.len() < RELAY_CAPACITY as int {
                assert(self@.convs =~= orig.update(
                    h as int,
                    conv_after_send(orig[h as int], context@),
                ));
                assert(registry_ok(self@.convs));
                assert(self@ =~= (ClientView {
                    convs: orig.update(h as int, conv_after_send(orig[h as int], context@)),
                    ..old(self)@
                }));
            } else {
                let c1 = ConvView {
                    relay: orig[h as int].relay.drop_first(),
                    ..orig[h as int]
                };
                assert(self@.convs =~= orig.update(h as int, conv_after_send(c1, context@)));
                assert(registry_ok(self@.convs));
                assert(self@ =~= (ClientView {
                    convs: orig.update(h as int, conv_after_send(c1, context@)),
                    outbound: old(self)@.outbound.push(orig[h as int].relay[0]),
                    ..old(self)@
                }));
            }
        }
        r
    }

    /// Releases one handle clone of the addressed conversation; the last
    /// release terminates its task, which queues exactly one part command.
    pub fn release_handle(&mut self, h: usize)
        requires
            old(self).wf(),
            h < old(self)@.convs.len(),
        ensures
            final(self).wf(),
            final(self)@ == (ClientView {
                convs: old(self)@.convs.update(
                    h as int,
                    conv_after_release(old(self)@.convs[h as int]),
                ),
                ..old(self)@
            }),
    {
        let ghost orig = self@.convs;
        let mut c = self.channel.remove(h);
        c.release();
        self.channel.insert(h, c);
        proof {
            let cs2 = orig.update(h as int, conv_after_release(orig[h as int]));
            assert(self@.convs =~= cs2);
            assert forall|i: int, j: int|
                0 <= i < j < cs2.len() && !cs2[i].closed && !cs2[j].closed implies cs2[i].identity
                != cs2[j].identity by {
                assert(cs2[i].identity == orig[i].identity && cs2[j].identity == orig[j].identity);
                assert(!cs2[i].closed ==> !orig[i].closed);
                assert(!cs2[j].closed ==> !orig[j].closed);
            }
            assert(self@ =~= (ClientView { convs: cs2, ..old(self)@ }));
        }
    }

    /// The first open conversation with the given identity, if any.
    #[verifier::loop_isolation(false)]
    fn find_open_idx(&self, ident: &ChannelType) -> (r: Option<usize>)
        requires
            self.wf(),
        ensures
            match r {
                Option::Some(i) => i < self@.convs.len() && find_open(self@.convs, ident@)
                    == Option::Some(i as int),
                Option::None => find_open(self@.convs, ident@) is None,
            },
    {
        let ghost convs = self@.convs;
        proof {
            assert(convs.skip(0) =~= convs);
        }
        let n = self.channel.len();
        let mut i: usize = 0;
        while i < n
            invariant
                i <= n,
                n == convs.len(),
                find_open(convs, ident@) == match find_open(convs.skip(i as int), ident@) {
                    Option::Some(k) => Option::Some(k + i),
                    Option::None => Option::None,
                },
            decreases n - i,
        {
            proof {
                assert(convs.skip(i as int)[0] == convs[i as int]);
                assert(convs.skip(i as int).drop_first() =~= convs.skip(i + 1));
            }
            let c = &self.channel[i];
            if !c.closed {
                let same = match (&c.ch_type, ident) {
                    (ChannelType::Public(a), ChannelType::Public(b)) => *a == *b,
                    (ChannelType::Private(a), ChannelType::Private(b)) => *a == *b,
                    _ => false,
                };
                if same {
                    return Some(i);
                }
            }
            i = i + 1;
        }
        proof {
            assert(convs.skip(n as int) =~= Seq::<ConvView>::empty());
        }
        None
    }

    /// Opens a private message thread with the given peer. No handshake is
    /// involved: an open thread for the peer is returned as it is (one more
    /// handle clone of the same conversation), otherwise a fresh
    /// conversation task is spawned. Never fails.
    pub fn new_private_message(&mut self, name: String) -> (r: Result<usize, BanchoIrcError>)
        requires
            old(self).wf(),
            clones_room(old(self)@.convs),
        ensures
            final(self).wf(),
            match find_open(old(self)@.convs, ChannelTypeView::Private(name@)) {
                Option::Some(i) => r matches Ok(h) && h == i && final(self)@ == (ClientView {
                    convs: old(self)@.convs.update(
                        i,
                        (ConvView {
                            clones: (old(self)@.convs[i].clones + 1) as nat,
                            ..old(self)@.convs[i]
                        }),
                    ),
                    ..old(self)@
                }),
                Option::None => r matches Ok(h) && h == old(self)@.convs.len() && final(self)@
                    == (ClientView {
                    convs: old(self)@.convs.push(fresh_conv(ChannelTypeView::Private(name@))),
                    ..old(self)@
                }),
            },
    {
        let ghost orig = self@.convs;
        let ident = ChannelType::Private(name);
        match self.find_open_idx(&ident) {
            Option::Some(i) => {
                proof {
                    lemma_find_open_some_meaning(orig, ident@);
                }
                let mut c = self.channel.remove(i);
                c.clone_handle();
                self.channel.insert(i, c);
                proof {
                    let cs2 = orig.update(
                        i as int,
                        (ConvView { clones: (orig[i as int].clones + 1) as nat, ..orig[i as int] }),
                    );
                    assert(self@.convs =~= cs2);
                    assert(registry_ok(cs2));
                    assert(self@ =~= (ClientView { convs: cs2, ..old(self)@ }));
                }
                Ok(i)
            },
            Option::None => {
                proof {
                    lemma_find_open_none_meaning(orig, ident@);
                }
                let h = self.channel.len();
                let c = Channel::new(ident);
                self.channel.push(c);
                proof {
                    let cs2 = orig.push(fresh_conv(ChannelTypeView::Private(name@)));
                    assert(self@.convs =~= cs2);
                    assert(registry_ok(cs2));
                    assert(self@ =~= (ClientView { convs: cs2, ..old(self)@ }));
                }
                Ok(h)
            },
        }
    }

    /// How many conversations the registry holds (open or terminated);
    /// every handle returned so far addresses one of them.
    pub fn conversation_count(&self) -> (n: usize)
        ensures
            n == self@.convs.len(),
    {
        self.channel.len()
    }

    /// A fresh, independent subscription to the addressed conversation.
    pub fn subscribe(&self, h: usize) -> (c: Cursor)
        requires
            self.wf(),
            h < self@.convs.len(),
        ensures
            c@ == self@.convs[h as int].history.len(),
    {
        self.channel[h].receiver()
    }

    /// One receive attempt on the addressed conversation for the
    /// subscriber owning `c`.
    pub fn recv_from(&self, h: usize, c: &mut Cursor) -> (r: Result<
        Option<ChatEvent>,
        BanchoIrcError,
    >)
        requires
            self.wf(),
            h < self@.convs.len(),
        ensures
            final(c)@ == crate::fanout::spec_recv_pos(
                self@.convs[h as int].history,
                self@.convs[h as int].start,
                old(c)@,
            ),
            match crate::fanout::spec_recv_outcome(
                self@.convs[h as int].history,
                self@.convs[h as int].start,
                old(c)@,
            ) {
                crate::fanout::RecvSpec::Pending => if self@.convs[h as int].closed {
                    r matches Err(BanchoIrcError::RecvMsgError)
                } else {
                    r matches Ok(o) && o is None
                },
                crate::fanout::RecvSpec::Lagged { missed } => r matches Err(
                    BanchoIrcError::StreamLag { missed: m },
                ) && m == missed,
                crate::fanout::RecvSpec::Item { ev } => r matches Ok(o) && o matches Some(e) && e@
                    == ev,
            },
    {
        self.channel[h].recv(c)
    }

    /// The display form of the addressed conversation's identity:
    /// `[name]` for a public channel, `[PM] peer` for a private thread.
    pub fn name_of(&self, h: usize) -> (r: String)
        requires
            self.wf(),
            h < self@.convs.len(),
        ensures
            r@ == spec_display_name(self@.convs[h as int].identity),
    {
        self.channel[h].name()
    }
}

/// What the JOIN acknowledgment wait makes of one inbound message: the
/// server's JOIN echo for exactly this name succeeds, a no-such-channel
/// response rejects, any other error-class response is fatal, and
/// everything else is handed on to the existing conversations and skipped.
pub ghost enum JoinClass {
    Ack,
    NotFound { detail: Seq<char> },
    Fatal { code: u16, detail: Seq<char> },
    Skip,
}

/// Classifies one inbound message for a JOIN wait on `name`.
pub open spec fn join_class(name: Seq<char>, m: InboundMessageView) -> JoinClass {
    match m.command {
        InboundCommandView::JoinAck { channel } => if channel == name {
            JoinClass::Ack
        } else {
            JoinClass::Skip
        },
        InboundCommandView::Response { code, detail } => if code == ERR_NOSUCHCHANNEL {
            JoinClass::NotFound { detail }
        } else if is_error_code(code) {
            JoinClass::Fatal { code, detail }
        } else {
            JoinClass::Skip
        },
        _ => JoinClass::Skip,
    }
}

/// How a JOIN wait ended.
pub ghost enum JoinOutcome {
    Joined,
    NotFound { detail: Seq<char> },
    Fatal { code: u16, detail: Seq<char> },
    Closed,
}

/// Where a JOIN wait leaves the session: the conversations after every
/// skipped message was fanned out to them, the unconsumed inbound
/// remainder, and the outcome.
#[verifier::ext_equal]
pub ghost struct JoinWaitState {
    pub convs: Seq<ConvView>,
    pub remaining: Seq<InboundMessageView>,
    pub outcome: JoinOutcome,
}

/// The JOIN acknowledgment wait: messages are consumed one at a time; a
/// skipped message is fanned out to the existing conversations (it stays
/// visible to them exactly as if no join were pending) and the first
/// decisive message ends the wait. An inbound stream that ends first means
/// the transport is gone.
pub open spec fn join_wait(
    name: Seq<char>,
    convs: Seq<ConvView>,
    msgs: Seq<InboundMessageView>,
) -> JoinWaitState
    decreases msgs.len(),
{
    if msgs.len() == 0 {
        JoinWaitState { convs, remaining: msgs, outcome: JoinOutcome::Closed }
    } else {
        match join_class(name, msgs[0]) {
            JoinClass::Ack => JoinWaitState {
                convs,
                remaining: msgs.drop_first(),
                outcome: JoinOutcome::Joined,
            },
            JoinClass::NotFound { detail } => JoinWaitState {
                convs,
                remaining: msgs.drop_first(),
                outcome: JoinOutcome::NotFound { detail },
            },
            JoinClass::Fatal { code, detail } => JoinWaitState {
                convs,
                remaining: msgs.drop_first(),
                outcome: JoinOutcome::Fatal { code, detail },
            },
            JoinClass::Skip => join_wait(name, convs_after_msg(convs, msgs[0]), msgs.drop_first()),
        }
    }
}

impl OsuIrcClient {
    /// Joins a public channel. If an open conversation for the name exists
    /// the join is idempotent: the same handle comes back as one more
    /// clone, and nothing is sent. Otherwise one JOIN command goes onto the
    /// shared sink and the inbound stream is consumed until the server's
    /// JOIN echo for exactly this name (a fresh conversation task is
    /// spawned and its handle returned), a no-such-channel response
    /// (`ChannelDoesNotExists`, and no conversation is left behind), any
    /// other error-class response (`ProtocolError`), or the end of the
    /// stream (`RecvMsgError`). Messages consumed while waiting are fanned
    /// out to the existing conversations as usual.
    #[verifier::loop_isolation(false)]
    pub fn join_channel(&mut self, channel: String) -> (r: Result<usize, BanchoIrcError>)
        requires
            old(self).wf(),
            clones_room(old(self)@.convs),
            room_for(old(self)@.convs, old(self)@.inbound.len() as int),
        ensures
            final(self).wf(),
            match find_open(old(self)@.convs, ChannelTypeView::Public(channel@)) {
                Option::Some(i) => r matches Ok(h) && h == i && final(self)@ == (ClientView {
                    convs: old(self)@.convs.update(
                        i,
                        (ConvView {
                            clones: (old(self)@.convs[i].clones + 1) as nat,
                            ..old(self)@.convs[i]
                        }),
                    ),
                    ..old(self)@
                }),
                Option::None => {
                    let w = join_wait(channel@, old(self)@.convs, old(self)@.inbound);
                    let sent = old(self)@.outbound.push(
                        (CommandView::Join { channel: channel@ }),
                    );
                    match w.outcome {
                        JoinOutcome::Joined => r matches Ok(h) && h == w.convs.len()
                            && final(self)@ == (ClientView {
                            nickname: old(self)@.nickname,
                            convs: w.convs.push(fresh_conv(ChannelTypeView::Public(channel@))),
                            inbound: w.remaining,
                            outbound: sent,
                        }),
                        JoinOutcome::NotFound { detail } => r matches Err(
                            BanchoIrcError::ChannelDoesNotExists { detail: d },
                        ) && d@ == detail && final(self)@ == (ClientView {
                            nickname: old(self)@.nickname,
                            convs: w.convs,
                            inbound: w.remaining,
                            outbound: sent,
                        }),
                        JoinOutcome::Fatal { code, detail } => r matches Err(
                            BanchoIrcError::ProtocolError { code: c, detail: d },
                        ) && c == code && d@ == detail && final(self)@ == (ClientView {
                            nickname: old(self)@.nickname,
                            convs: w.convs,
                            inbound: w.remaining,
                            outbound: sent,
                        }),
                        JoinOutcome::Closed => r matches Err(BanchoIrcError::RecvMsgError)
                            && final(self)@ == (ClientView {
                            nickname: old(self)@.nickname,
                            convs: w.convs,
                            inbound: Seq::empty(),
                            outbound: sent,
                        }),
                    }
                },
            },
    {
        match self.begin_join(channel.clone()) {
            Option::Some(h) => Ok(h),
            Option::None => self.await_join(channel),
        }
    }

    /// The request half of joining: an open conversation for the name is
    /// returned at once as one more handle clone; otherwise one JOIN
    /// command is put on the shared sink and the caller must wait for the
    /// server's answer with `await_join`.
    pub fn begin_join(&mut self, channel: String) -> (r: Option<usize>)
        requires
            old(self).wf(),
            clones_room(old(self)@.convs),
        ensures
            final(self).wf(),
            match find_open(old(self)@.convs, ChannelTypeView::Public(channel@)) {
                Option::Some(i) => r matches Some(h) && h == i && final(self)@ == (ClientView {
                    convs: old(self)@.convs.update(
                        i,
                        (ConvView {
                            clones: (old(self)@.convs[i].clones + 1) as nat,
                            ..old(self)@.convs[i]
                        }),
                    ),
                    ..old(self)@
                }),
                Option::None => r is None && final(self)@ == (ClientView {
                    outbound: old(self)@.outbound.push((CommandView::Join { channel: channel@ })),
                    ..old(self)@
                }),
            },
    {
        let ghost orig = self@.convs;
        let ident = ChannelType::Public(channel.clone());
        match self.find_open_idx(&ident) {
            Option::Some(i) => {
                proof {
                    lemma_find_open_some_meaning(orig, ident@);
                }
                let mut c = self.channel.remove(i);
                c.clone_handle();
                self.channel.insert(i, c);
                proof {
                    let cs2 = orig.update(
                        i as int,
                        (ConvView { clones: (orig[i as int].clones + 1) as nat, ..orig[i as int] }),
                    );
                    assert(self@.convs =~= cs2);
                    assert(registry_ok(cs2));
                    assert(self@ =~= (ClientView { convs: cs2, ..old(self)@ }));
                }
                Some(i)
            },
            Option::None => {
                let ghost ob0 = self@.outbound;
                self.outbound.push(Command::Join { channel: channel.clone() });
                proof {
                    assert(self@.outbound =~= ob0.push(
                        (CommandView::Join { channel: channel@ }),
                    ));
                    assert(self@ =~= (ClientView {
                        outbound: ob0.push((CommandView::Join { channel: channel@ })),
                        ..old(self)@
                    }));
                }
                None
            },
        }
    }

    /// The wait half of joining: consumes the inbound stream until the
    /// server answers the pending JOIN, fanning every skipped message out
    /// to the existing conversations; sends nothing itself. A driver that
    /// reads the transport incrementally calls this after each delivery —
    /// `RecvMsgError` says the queue dried up before the server answered.
    #[verifier::loop_isolation(false)]
    pub fn await_join(&mut self, channel: String) -> (r: Result<usize, BanchoIrcError>)
        requires
            old(self).wf(),
            room_for(old(self)@.convs, old(self)@.inbound.len() as int),
            find_open(old(self)@.convs, ChannelTypeView::Public(channel@)) is None,
        ensures
            final(self).wf(),
            ({
                let w = join_wait(channel@, old(self)@.convs, old(self)@.inbound);
                match w.outcome {
                    JoinOutcome::Joined => r matches Ok(h) && h == w.convs.len()
                        && final(self)@ == (ClientView {
                        nickname: old(self)@.nickname,
                        convs: w.convs.push(fresh_conv(ChannelTypeView::Public(channel@))),
                        inbound: w.remaining,
                        outbound: old(self)@.outbound,
                    }),
                    JoinOutcome::NotFound { detail } => r matches Err(
                        BanchoIrcError::ChannelDoesNotExists { detail: d },
                    ) && d@ == detail && final(self)@ == (ClientView {
                        nickname: old(self)@.nickname,
                        convs: w.convs,
                        inbound: w.remaining,
                        outbound: old(self)@.outbound,
                    }),
                    JoinOutcome::Fatal { code, detail } => r matches Err(
                        BanchoIrcError::ProtocolError { code: c, detail: d },
                    ) && c == code && d@ == detail && final(self)@ == (ClientView {
                        nickname: old(self)@.nickname,
                        convs: w.convs,
                        inbound: w.remaining,
                        outbound: old(self)@.outbound,
                    }),
                    JoinOutcome::Closed => r matches Err(BanchoIrcError::RecvMsgError)
                        && final(self)@ == (ClientView {
                        nickname: old(self)@.nickname,
                        convs: w.convs,
                        inbound: Seq::empty(),
                        outbound: old(self)@.outbound,
                    }),
                }
            }),
    {
        let ghost orig = self@.convs;
        let ghost in0 = self@.inbound;
        proof {
            lemma_find_open_none_meaning(orig, ChannelTypeView::Public(channel@));
        }
        loop
            invariant
                self.wf(),
                self@.nickname == old(self)@.nickname,
                self@.outbound == old(self)@.outbound,
                join_wait(channel@, orig, in0) == join_wait(channel@, self@.convs, self@.inbound),
                room_for(self@.convs, self@.inbound.len() as int),
                forall|t: int|
                    0 <= t < self@.convs.len() && !(#[trigger] self@.convs[t]).closed
                        ==> self@.convs[t].identity != ChannelTypeView::Public(channel@),
            decreases self.inbound@.len(),
        {
            if self.inbound.len() == 0 {
                return Err(BanchoIrcError::RecvMsgError);
            }
            let ghost in_pre = self@.inbound;
            let ghost cs_pre = self@.convs;
            let m = self.inbound.remove(0);
            proof {
                assert(in_pre[0] == m@);
                assert(self@.inbound =~= in_pre.drop_first());
            }
            match &m.command {
                InboundCommand::JoinAck { channel: ch } => {
                    if *ch == channel {
                        proof {
                            assert(join_class(channel@, m@) is Ack);
                        }
                        let h = self.channel.len();
                        let c = Channel::new(ChannelType::Public(channel));
                        self.channel.push(c);
                        proof {
                            let cs2 = cs_pre.push(fresh_conv(ChannelTypeView::Public(channel@)));
                            assert(self@.convs =~= cs2);
                            assert(registry_ok(cs2));
                        }
                        return Ok(h);
                    }
                },
                InboundCommand::Response { code, detail } => {
                    if *code == ERR_NOSUCHCHANNEL {
                        proof {
                            assert(join_class(channel@, m@) matches JoinClass::NotFound {
                                detail: dt,
                            } && dt == detail@);
                        }
                        return Err(BanchoIrcError::ChannelDoesNotExists {
                            detail: detail.clone(),
                        });
                    } else if *code >= 400 {
                        proof {
                            assert(join_class(channel@, m@) matches JoinClass::Fatal {
                                code: cd,
                                detail: dt,
                            } && cd == *code && dt == detail@);
                        }
                        return Err(BanchoIrcError::ProtocolError {
                            code: *code,
                            detail: detail.clone(),
                        });
                    }
                },
                _ => {},
            }
            proof {
                assert(join_class(channel@, m@) is Skip);
                assert forall|t: int| 0 <= t < cs_pre.len() implies (#[trigger] cs_pre[
                    t
                ]).history.len() + 1 <= usize::MAX by {
                    assert(cs_pre[t].history.len() + in_pre.len() <= usize::MAX);
                }
            }
            self.dispatch_msg(&m);
            proof {
                lemma_convs_after_msg_shape(cs_pre, m@);
                assert(join_wait(channel@, cs_pre, in_pre) == join_wait(
                    channel@,
                    self@.convs,
                    self@.inbound,
                ));
                assert forall|t: int| 0 <= t < self@.convs.len() implies (#[trigger] self@.convs[
                    t
                ]).history.len() + self@.inbound.len() <= usize::MAX by {
                    assert(cs_pre[t].history.len() + in_pre.len() <= usize::MAX);
                }
            }
        }
    }
}

/// How often a command occurs in a sequence of outbound commands.
pub open spec fn cmd_count(s: Seq<CommandView>, c: CommandView) -> nat
    decreases s.len(),
{
    if s.len() == 0 {
        0
    } else {
        cmd_count(s.drop_last(), c) + if s.last() == c {
            1nat
        } else {
            0nat
        }
    }
}

/// Occurrence counts add up over concatenation.
pub proof fn lemma_cmd_count_append(a: Seq<CommandView>, b: Seq<CommandView>, c: CommandView)
    ensures
        cmd_count(a + b, c) == cmd_count(a, c) + cmd_count(b, c),
    decreases b.len(),
{
    if b.len() == 0 {
        assert(a + b =~= a);
    } else {
        assert((a + b).drop_last() =~= a + b.drop_last());
        assert((a + b).last() == b.last());
        lemma_cmd_count_append(a, b.drop_last(), c);
    }
}

/// Pushing one command onto one conversation's relay raises the occurrence
/// count across all relays by exactly that command, and by nothing else.
pub proof fn lemma_relays_count_update_push(
    cs: Seq<ConvView>,
    h: int,
    cmd: CommandView,
    x: CommandView,
)
    requires
        0 <= h < cs.len(),
    ensures
        cmd_count(
            relays_of(cs.update(h, (ConvView { relay: cs[h].relay.push(cmd), ..cs[h] }))),
            x,
        ) == cmd_count(relays_of(cs), x) + if x == cmd {
            1nat
        } else {
            0nat
        },
    decreases cs.len(),
{
    let c2 = ConvView { relay: cs[h].relay.push(cmd), ..cs[h] };
    let cs2 = cs.update(h, c2);
    if h == cs.len() - 1 {
        assert(cs2.drop_last() =~= cs.drop_last());
        assert(cs2.last() == c2);
        lemma_cmd_count_append(relays_of(cs.drop_last()), c2.relay, x);
        lemma_cmd_count_append(relays_of(cs.drop_last()), cs[h].relay, x);
        assert(c2.relay.drop_last() =~= cs[h].relay);
        assert(c2.relay.last() == cmd);
    } else {
        assert(cs.drop_last()[h] == cs[h]);
        lemma_relays_count_update_push(cs.drop_last(), h, cmd, x);
        assert(cs2.drop_last() =~= cs.drop_last().update(h, c2));
        assert(cs2.last() == cs.last());
        lemma_cmd_count_append(relays_of(cs.drop_last().update(h, c2)), cs.last().relay, x);
        lemma_cmd_count_append(relays_of(cs.drop_last()), cs.last().relay, x);
    }
}

/// One send, one flush, one wire command: queuing `text` on an open
/// conversation's relay and then draining every relay onto the shared sink
/// puts exactly one chat command for that conversation's identity carrying
/// `text` on the sink — no duplication, no loss — provided the same
/// command was not already in flight somewhere.
pub proof fn lemma_send_exactly_once(s: ClientView, h: int, text: Seq<char>)
    requires
        0 <= h < s.convs.len(),
        !s.convs[h].closed,
        cmd_count(
            s.outbound,
            (CommandView::PrivMsg { target: ident_name(s.convs[h].identity), text }),
        ) == 0,
        cmd_count(
            relays_of(s.convs),
            (CommandView::PrivMsg { target: ident_name(s.convs[h].identity), text }),
        ) == 0,
    ensures
        cmd_count(
            s.outbound + relays_of(s.convs.update(h, conv_after_send(s.convs[h], text))),
            (CommandView::PrivMsg { target: ident_name(s.convs[h].identity), text }),
        ) == 1,
{
    let cmd = CommandView::PrivMsg { target: ident_name(s.convs[h].identity), text };
    assert(conv_after_send(s.convs[h], text) == (ConvView {
        relay: s.convs[h].relay.push(cmd),
        ..s.convs[h]
    }));
    lemma_relays_count_update_push(s.convs, h, cmd, cmd);
    lemma_cmd_count_append(
        s.outbound,
        relays_of(s.convs.update(h, conv_after_send(s.convs[h], text))),
        cmd,
    );
}

/// Joining a name twice yields the same conversation and spawns exactly
/// one task: a successful fresh join leaves exactly one open conversation
/// for the name at the end of the registry, the lookup of any further join
/// finds exactly that conversation, and by the join contract the second
/// call then returns the same handle with one more clone and creates,
/// sends and consumes nothing.
pub proof fn lemma_join_idempotent(convs: Seq<ConvView>, name: Seq<char>)
    requires
        find_open(convs, ChannelTypeView::Public(name)) is None,
    ensures
        find_open(
            convs.push(fresh_conv(ChannelTypeView::Public(name))),
            ChannelTypeView::Public(name),
        ) == Option::Some(convs.len() as int),
{
    lemma_find_open_push(convs, fresh_conv(ChannelTypeView::Public(name)), ChannelTypeView::Public(name));
}

/// Appending a conversation to a registry that holds no open match: the
/// lookup finds the new conversation exactly if it is an open match.
pub proof fn lemma_find_open_push(cs: Seq<ConvView>, c: ConvView, ident: ChannelTypeView)
    requires
        find_open(cs, ident) is None,
    ensures
        find_open(cs.push(c), ident) == if !c.closed && c.identity == ident {
            Option::Some(cs.len() as int)
        } else {
            Option::None::<int>
        },
    decreases cs.len(),
{
    if cs.len() == 0 {
        assert(cs.push(c).len() == 1);
        assert(cs.push(c)[0] == c);
        assert(cs.push(c).drop_first() =~= Seq::<ConvView>::empty());
        assert(find_open(Seq::<ConvView>::empty(), ident) is None);
    } else {
        assert(cs[0].closed || cs[0].identity != ident);
        assert(find_open(cs.drop_first(), ident) is None);
        assert(cs.push(c)[0] == cs[0]);
        assert(cs.push(c).drop_first() =~= cs.drop_first().push(c));
        lemma_find_open_push(cs.drop_first(), c, ident);
        assert(cs.drop_first().len() == cs.len() - 1);
        if !c.closed && c.identity == ident {
            assert(find_open(cs.drop_first().push(c), ident) == Option::Some(
                cs.drop_first().len() as int,
            ));
            assert(find_open(cs.push(c), ident) == Option::Some(cs.len() as int));
        } else {
            assert(find_open(cs.drop_first().push(c), ident) is None);
            assert(find_open(cs.push(c), ident) is None);
        }
    }
}

/// At the session level: fanning one message out leaves every conversation
/// whose identity does not match the message untouched — no subscriber of
/// another conversation ever sees it.
pub proof fn lemma_dispatch_isolation(cs: Seq<ConvView>, m: InboundMessageView, j: int)
    requires
        0 <= j < cs.len(),
        crate::channel::spec_match(cs[j].identity, m) is None,
    ensures
        convs_after_msg(cs, m)[j] == cs[j],
{
}

/// A found index really is an open conversation with the identity sought.
pub proof fn lemma_find_open_some_meaning(cs: Seq<ConvView>, ident: ChannelTypeView)
    ensures
        find_open(cs, ident) matches Some(i) ==> 0 <= i < cs.len() && !cs[i].closed && cs[i].identity
            == ident,
    decreases cs.len(),
{
    if cs.len() > 0 {
        lemma_find_open_some_meaning(cs.drop_first(), ident);
    }
}

/// When nothing is found, no open conversation has the identity sought.
pub proof fn lemma_find_open_none_meaning(cs: Seq<ConvView>, ident: ChannelTypeView)
    ensures
        find_open(cs, ident) is None ==> forall|i: int|
            0 <= i < cs.len() && !(#[trigger] cs[i]).closed ==> cs[i].identity != ident,
    decreases cs.len(),
{
    if cs.len() > 0 {
        lemma_find_open_none_meaning(cs.drop_first(), ident);
        if find_open(cs, ident) is None {
            assert forall|i: int|
                0 <= i < cs.len() && !(#[trigger] cs[i]).closed implies cs[i].identity != ident by {
                if i > 0 {
                    assert(cs.drop_first()[i - 1] == cs[i]);
                }
            }
        }
    }
}

/// Fanning a message out changes no conversation's identity, relay, handle
/// count or termination state — it can only publish to fan-out histories.
pub proof fn lemma_convs_after_msg_shape(cs: Seq<ConvView>, m: InboundMessageView)
    ensures
        convs_after_msg(cs, m).len() == cs.len(),
        forall|i: int|
            0 <= i < cs.len() ==> {
                let c2 = #[trigger] convs_after_msg(cs, m)[i];
                c2.identity == cs[i].identity && c2.relay == cs[i].relay && c2.clones == cs[
                    i
                ].clones && c2.closed == cs[i].closed && cs[i].history.len() <= c2.history.len()
                    <= cs[i].history.len() + 1
            },
{
}

} // verus!
