//! The dispatcher as mathematics: the state of a server, what each step
//! makes of it, and what holds of every state that the steps can reach.
//!
//! A connection is named by a number: the first connection that a server
//! accepts is 0, the next is 1, and so on.

use crate::packet::{Address, DatagramView, OutputView, PacketHdrView, PacketTypeView};
use crate::retry::{token_for, token_result, RetryTokenResultView};
use crate::table::purged;
use crate::timer::{has_due, one_per_connection, sorted, with_timer, without_timer, TimerEntry};
use vstd::prelude::*;

verus! {

/// The shortest datagram with which a client can open a connection.
pub const MIN_INITIAL_PACKET_SIZE: usize = 1200;

/// The version that a server speaks.
pub const QUIC_VERSION: u32 = 0x0000_0001;

/// A version that no one speaks, offered beside the real one so that clients
/// stay ready for versions they do not know.
pub const GREASE_VERSION: u32 = 0xaaba_cada;

/// The state of a server.
pub ghost struct ServerView {
    /// The one version that the server speaks.
    pub version: u32,
    /// The names of the certificates for new connections.
    pub certs: Seq<String>,
    /// The ALPN values for new connections, the preferred ones first.
    pub protocols: Seq<String>,
    /// Whether an Initial without a token is answered with a Retry.
    pub require_retry: bool,
    /// Which connection owns which connection ID.
    pub connections: Map<Seq<u8>, usize>,
    /// The connections with events that the host has not fetched, each once.
    pub active: Seq<usize>,
    /// The connections to drive at once, first come first.
    pub waiting: Seq<usize>,
    /// The timers, in the order in which they fall due.
    pub timers: Seq<TimerEntry>,
    /// For each connection the instant of the timer set for it last.
    pub last_timer: Seq<u64>,
}

/// A header with addresses, to be encoded and sent without keeping anything.
pub ghost struct StatelessReplyView {
    pub src: Address,
    pub dst: Address,
    pub hdr: PacketHdrView,
}

/// What the server makes of an inbound datagram.
pub ghost enum Decision {
    /// Nothing comes of it.
    Drop,
    /// It belongs to this connection.
    Deliver(usize),
    /// Its version is not the server's: offer the server's.
    VersionNegotiation,
    /// It opens a connection; the client's first Initial went to this
    /// connection ID, if the server sent it a Retry.
    Accept(Option<Seq<u8>>),
    /// Its sender has to show first that it can be reached: send a Retry.
    Retry,
}

/// What is to be done with an inbound datagram.
pub ghost enum RoutingView {
    /// Nothing.
    Drop,
    /// Hand it to this connection.
    Deliver(usize),
    /// Answer it with this header, and keep nothing.
    Reply(StatelessReplyView),
    /// Make a connection for it, and tell the connection where the client's
    /// first Initial went, if the server sent it a Retry.
    Accept(Option<Seq<u8>>),
}

/// What the host reports to the server.
pub ghost enum EventView {
    Input { hdr: Option<PacketHdrView>, dgram: DatagramView },
    NoInput,
    Processed { c: usize, out: OutputView, has_events: bool, closed: bool },
}

/// What the server asks of the host.
#[allow(inconsistent_fields)]
pub ghost enum ActionView {
    Process { c: usize, dgram: Option<DatagramView> },
    Accept { odcid: Option<Seq<u8>>, dgram: DatagramView },
    Reply(StatelessReplyView),
    Done(OutputView),
}

/// The header of the Version Negotiation packet that answers `h`.
pub open spec fn vn_header(version: u32, h: PacketHdrView) -> PacketHdrView {
    PacketHdrView {
        tbyte: 0,
        tipe: PacketTypeView::VN(seq![version, GREASE_VERSION]),
        version: Some(0u32),
        dcid: h.scid.unwrap(),
        scid: Some(h.dcid),
        pn: 0,
        epoch: 0,
    }
}

/// The header of the Retry packet that answers `h`, sent from the new
/// connection ID `scid`.
pub open spec fn retry_header(version: u32, h: PacketHdrView, scid: Seq<u8>) -> PacketHdrView {
    PacketHdrView {
        tbyte: 0,
        tipe: PacketTypeView::Retry { odcid: h.dcid, token: token_for(h.dcid) },
        version: Some(version),
        dcid: h.scid.unwrap(),
        scid: Some(scid),
        pn: 0,
        epoch: 0,
    }
}

/// The reply with header `hdr` to the sender of `dgram`.
pub open spec fn reply_to(dgram: DatagramView, hdr: PacketHdrView) -> StatelessReplyView {
    StatelessReplyView { src: dgram.dst, dst: dgram.src, hdr }
}

/// The source connection ID of a reply.
pub open spec fn reply_scid(r: StatelessReplyView) -> Seq<u8> {
    match r.hdr.scid {
        Some(cid) => cid,
        None => Seq::empty(),
    }
}

/// The source connection ID of the reply, where a datagram is answered.
pub open spec fn routing_scid(r: RoutingView) -> Seq<u8> {
    match r {
        RoutingView::Reply(r) => reply_scid(r),
        _ => Seq::empty(),
    }
}

/// The source connection ID of the reply, where the host is asked to send
/// one.
pub open spec fn retry_scid(a: ActionView) -> Seq<u8> {
    match a {
        ActionView::Reply(r) => reply_scid(r),
        _ => Seq::empty(),
    }
}

impl ServerView {
    /// A server that has seen nothing yet.
    pub open spec fn init(version: u32, certs: Seq<String>, protocols: Seq<String>) -> ServerView {
        ServerView {
            version,
            certs,
            protocols,
            require_retry: false,
            connections: Map::empty(),
            active: Seq::empty(),
            waiting: Seq::empty(),
            timers: Seq::empty(),
            last_timer: Seq::empty(),
        }
    }

    /// Whether the server has accepted connection `c`.
    pub open spec fn knows(self, c: usize) -> bool {
        c < self.last_timer.len()
    }

    /// Each connection has at most one timer, and that timer falls due at
    /// the instant recorded for the connection.
    pub open spec fn timers_agree(self) -> bool {
        &&& one_per_connection(self.timers)
        &&& forall|i: int|
            0 <= i < self.timers.len() ==> self.knows((#[trigger] self.timers[i]).1)
                && self.timers[i].0 == self.last_timer[self.timers[i].1 as int]
    }

    /// What holds of every state that a server can reach.
    pub open spec fn inv(self) -> bool {
        &&& sorted(self.timers)
        &&& self.timers_agree()
        &&& forall|k: Seq<u8>| #[trigger]
            self.connections.contains_key(k) ==> k.len() > 0 && self.knows(self.connections[k])
        &&& forall|i: int| 0 <= i < self.waiting.len() ==> self.knows(#[trigger] self.waiting[i])
        &&& forall|i: int| 0 <= i < self.active.len() ==> self.knows(#[trigger] self.active[i])
        &&& self.active.no_duplicates()
    }

    /// The policy on Retry changed.
    pub open spec fn set_retry_required(self, require_retry: bool) -> ServerView {
        ServerView { require_retry, ..self }
    }

    /// What the server makes of a datagram whose first header decodes to
    /// `hdr`, or does not decode.
    pub open spec fn decide(self, hdr: Option<PacketHdrView>, dgram: DatagramView) -> Decision {
        match hdr {
            None => Decision::Drop,
            Some(h) => if self.connections.contains_key(h.dcid) {
                Decision::Deliver(self.connections[h.dcid])
            } else if h.tipe == PacketTypeView::Short {
                Decision::Drop
            } else if dgram.d.len() < MIN_INITIAL_PACKET_SIZE {
                Decision::Drop
            } else if h.version != Some(self.version) {
                if h.scid.is_some() {
                    Decision::VersionNegotiation
                } else {
                    Decision::Drop
                }
            } else {
                self.decide_initial(h)
            },
        }
    }

    /// What the server makes of a packet of its own version, long enough,
    /// for a connection ID that no connection owns.
    pub open spec fn decide_initial(self, h: PacketHdrView) -> Decision {
        match token_result(self.require_retry, h.tipe) {
            RetryTokenResultView::Invalid => Decision::Drop,
            RetryTokenResultView::Pass => Decision::Accept(None),
            RetryTokenResultView::Valid(odcid) => Decision::Accept(Some(odcid)),
            RetryTokenResultView::Validate => if h.scid.is_some() {
                Decision::Retry
            } else {
                Decision::Drop
            },
        }
    }

    /// A connection was made and got the next number; its timer is recorded
    /// as `now`, though none is set.
    pub open spec fn accept_connection(self, now: u64) -> ServerView {
        ServerView { last_timer: self.last_timer.push(now), ..self }
    }

    /// Connection `c` was given the connection ID `cid`.
    pub open spec fn register(self, cid: Seq<u8>, c: usize) -> ServerView {
        ServerView { connections: self.connections.insert(cid, c), ..self }
    }

    /// The timer of connection `c` was taken away.
    pub open spec fn remove_timer(self, c: usize) -> ServerView {
        ServerView {
            timers: without_timer(self.timers, self.last_timer[c as int], c),
            ..self
        }
    }

    /// The timer of connection `c` was moved to `next`.
    pub open spec fn set_timer(self, c: usize, next: u64) -> ServerView {
        ServerView {
            timers: with_timer(
                without_timer(self.timers, self.last_timer[c as int], c),
                next,
                c,
            ),
            last_timer: self.last_timer.update(c as int, next),
            ..self
        }
    }

    /// Connection `c` was driven at `now` and answered `out`.
    pub open spec fn schedule(self, c: usize, out: OutputView, now: u64) -> ServerView {
        match out {
            OutputView::Datagram(_) => ServerView { waiting: self.waiting.push(c), ..self },
            OutputView::Callback(delay) => if now + delay != self.last_timer[c as int] {
                self.set_timer(c, (now + delay) as u64)
            } else {
                self
            },
            OutputView::Nothing => self.remove_timer(c),
        }
    }

    /// Connection `c` has events.
    pub open spec fn mark_active(self, c: usize) -> ServerView {
        if self.active.contains(c) {
            self
        } else {
            ServerView { active: self.active.push(c), ..self }
        }
    }

    /// Connection `c` is closed.
    pub open spec fn purge(self, c: usize) -> ServerView {
        ServerView { connections: purged(self.connections, c), ..self }
    }

    /// Connection `c` was driven at `now`, answered `out`, and then said
    /// whether it has events and whether it is closed.
    pub open spec fn process_connection(
        self,
        c: usize,
        out: OutputView,
        has_events: bool,
        closed: bool,
        now: u64,
    ) -> ServerView {
        let s1 = self.schedule(c, out, now);
        let s2 = if has_events {
            s1.mark_active(c)
        } else {
            s1
        };
        if closed {
            s2.purge(c)
        } else {
            s2
        }
    }

    /// The connection to drive next without input: the first that waits, or
    /// else the one whose timer has fallen due first.
    pub open spec fn next_connection(self, now: u64) -> Option<usize> {
        if self.waiting.len() > 0 {
            Some(self.waiting[0])
        } else if has_due(self.timers, now) {
            Some(self.timers[0].1)
        } else {
            None
        }
    }

    /// The connection to drive next was taken from where it stood.
    pub open spec fn take_next(self, now: u64) -> ServerView {
        if self.waiting.len() > 0 {
            ServerView { waiting: self.waiting.skip(1), ..self }
        } else if has_due(self.timers, now) {
            ServerView { timers: self.timers.skip(1), ..self }
        } else {
            self
        }
    }

    /// How long the server can sleep: not at all while a connection waits,
    /// else until the first timer falls due, else for ever.
    pub open spec fn next_time(self, now: u64) -> Option<u64> {
        if self.waiting.len() > 0 {
            Some(0u64)
        } else if self.timers.len() > 0 {
            if self.timers[0].0 > now {
                Some((self.timers[0].0 - now) as u64)
            } else {
                Some(0u64)
            }
        } else {
            None
        }
    }

    /// What the server does when no datagram is at hand.
    pub open spec fn poll(self, now: u64) -> (ServerView, ActionView) {
        match self.next_connection(now) {
            Some(c) => (self.take_next(now), ActionView::Process { c, dgram: None }),
            None => (
                self,
                ActionView::Done(
                    match self.next_time(now) {
                        Some(delay) => OutputView::Callback(delay),
                        None => OutputView::Nothing,
                    },
                ),
            ),
        }
    }

    /// What is to be done with a datagram that the server decided on;
    /// `scid` is the connection ID from which a Retry is sent, if one is.
    pub open spec fn routing_for(
        self,
        d: Decision,
        h: PacketHdrView,
        dgram: DatagramView,
        scid: Seq<u8>,
    ) -> RoutingView {
        match d {
            Decision::Drop => RoutingView::Drop,
            Decision::Deliver(c) => RoutingView::Deliver(c),
            Decision::VersionNegotiation => RoutingView::Reply(
                reply_to(dgram, vn_header(self.version, h)),
            ),
            Decision::Accept(odcid) => RoutingView::Accept(odcid),
            Decision::Retry => RoutingView::Reply(
                reply_to(dgram, retry_header(self.version, h, scid)),
            ),
        }
    }

    /// What is to be done with an inbound datagram whose first header
    /// decodes to `hdr`, or does not decode.
    pub open spec fn routing(
        self,
        hdr: Option<PacketHdrView>,
        dgram: DatagramView,
        scid: Seq<u8>,
    ) -> RoutingView {
        match hdr {
            Some(h) => self.routing_for(self.decide(hdr, dgram), h, dgram, scid),
            None => RoutingView::Drop,
        }
    }

    /// What the server does with an inbound datagram; `scid` is the
    /// connection ID from which a Retry is sent, if one is.
    pub open spec fn input(
        self,
        hdr: Option<PacketHdrView>,
        dgram: DatagramView,
        now: u64,
        scid: Seq<u8>,
    ) -> (ServerView, ActionView) {
        match self.routing(hdr, dgram, scid) {
            RoutingView::Drop => self.poll(now),
            RoutingView::Deliver(c) => (self, ActionView::Process { c, dgram: Some(dgram) }),
            RoutingView::Reply(r) => (self, ActionView::Reply(r)),
            RoutingView::Accept(odcid) => (self, ActionView::Accept { odcid, dgram }),
        }
    }

    /// One step of the server: the state after it, and what the host is to
    /// do next.
    pub open spec fn step(self, ev: EventView, now: u64, scid: Seq<u8>) -> (ServerView, ActionView) {
        match ev {
            EventView::Input { hdr, dgram } => self.input(hdr, dgram, now, scid),
            EventView::NoInput => self.poll(now),
            EventView::Processed { c, out, has_events, closed } => {
                let s1 = self.process_connection(c, out, has_events, closed, now);
                match out {
                    OutputView::Datagram(d) => (s1, ActionView::Done(out)),
                    _ => s1.poll(now),
                }
            },
        }
    }

    /// Whether the host reports a datagram that the server answers with a
    /// Retry.
    pub open spec fn asks_retry(self, ev: EventView) -> bool {
        match ev {
            EventView::Input { hdr, dgram } => self.decide(hdr, dgram) == Decision::Retry,
            _ => false,
        }
    }

    /// The events were fetched.
    pub open spec fn drained(self) -> ServerView {
        ServerView { active: Seq::empty(), ..self }
    }
}

/// Whether the host may report `ev` at `now`: a connection that it reports
/// on is one that the server accepted, and the instant at which it wants to
/// be driven again can be written down.
pub open spec fn event_ok(s: ServerView, ev: EventView, now: u64) -> bool {
    match ev {
        EventView::Processed { c, out, has_events, closed } => s.knows(c) && match out {
            OutputView::Callback(delay) => now + delay <= u64::MAX,
            _ => true,
        },
        _ => true,
    }
}

/// One call that changes a server.
pub ghost enum CallView {
    /// `process`; `scid` is the connection ID from which a Retry is sent, if
    /// one is.
    Process { ev: EventView, now: u64, scid: Seq<u8> },
    /// `accept_connection`.
    AcceptConnection { now: u64 },
    /// `generate_cid` for connection `c`, which made `cid`.
    GenerateCid { cid: Seq<u8>, c: usize },
    /// `set_retry_required`.
    SetRetryRequired { require_retry: bool },
    /// `active_connections`.
    ActiveConnections,
}

/// Whether the call can be made in state `s`.
pub open spec fn call_ok(s: ServerView, call: CallView) -> bool {
    match call {
        CallView::Process { ev, now, scid } => event_ok(s, ev, now),
        CallView::GenerateCid { cid, c } => s.knows(c) && cid.len() > 0,
        _ => true,
    }
}

/// The state after the call was made in state `s`.
pub open spec fn after_call(s: ServerView, call: CallView) -> ServerView {
    match call {
        CallView::Process { ev, now, scid } => s.step(ev, now, scid).0,
        CallView::AcceptConnection { now } => s.accept_connection(now),
        CallView::GenerateCid { cid, c } => s.register(cid, c),
        CallView::SetRetryRequired { require_retry } => s.set_retry_required(require_retry),
        CallView::ActiveConnections => s.drained(),
    }
}

/// The state after the calls were made one after the other, from state `s`.
pub open spec fn after_calls(s: ServerView, calls: Seq<CallView>) -> ServerView
    decreases calls.len(),
{
    if calls.len() == 0 {
        s
    } else {
        after_call(after_calls(s, calls.drop_last()), calls.last())
    }
}

/// Whether the calls can be made one after the other, from state `s`.
pub open spec fn calls_ok(s: ServerView, calls: Seq<CallView>) -> bool
    decreases calls.len(),
{
    calls.len() == 0 || (calls_ok(s, calls.drop_last()) && call_ok(
        after_calls(s, calls.drop_last()),
        calls.last(),
    ))
}

} // verus!
