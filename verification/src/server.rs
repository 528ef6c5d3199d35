//! A server that handles many connections.
//!
//! The server owns the connection table, the queue of connections to drive
//! at once, the timers and the set of connections with events. The
//! connections are the host's: the server names them by number, tells the
//! host which to drive, and is told what each answered.

use crate::laws::{
    lemma_accept_connection_inv, lemma_drained_inv, lemma_mark_active_inv,
    lemma_process_connection_inv, lemma_register_inv, lemma_remove_timer_inv,
    lemma_set_retry_required_inv, lemma_set_timer_inv, lemma_take_next_inv,
};
use crate::model::{
    event_ok, reply_to, retry_header, retry_scid, routing_scid, vn_header, ActionView, Decision,
    EventView, RoutingView, ServerView, StatelessReplyView, GREASE_VERSION,
    MIN_INITIAL_PACKET_SIZE, QUIC_VERSION,
};
use crate::packet::{
    dgram_view, Address, ConnectionId, Datagram, Output, PacketHdr, PacketHdrView, PacketType,
};
use crate::retry::{RetryToken, RetryTokenResult};
use crate::table::ConnectionTable;
use crate::timer::Timer;
use std::collections::VecDeque;
use vstd::prelude::*;

verus! {

/// The source of a server's connection IDs. The host brings it.
pub trait ConnectionIdManager {
    /// A new connection ID. It is never empty: the server enters it in the
    /// connection table as it comes, and relies on the implementation for
    /// that.
    fn generate_cid(&mut self) -> (cid: ConnectionId)
        ensures
            cid@.len() > 0,
    ;
}

/// What the server keeps for each connection: the instant of the timer set
/// for it last. A connection keeps its number, and the server this record,
/// for as long as the server lives.
#[derive(Clone, Copy, Debug)]
pub struct ServerConnectionState {
    pub last_timer: u64,
}

/// A connection with events. Two are equal if they name the same connection.
#[derive(Clone, Copy, Debug, PartialEq, Eq, Hash, Structural)]
pub struct ActiveConnectionRef {
    c: usize,
}

impl View for ActiveConnectionRef {
    type V = usize;

    closed spec fn view(&self) -> usize {
        self.c
    }
}

impl ActiveConnectionRef {
    /// The number of the connection.
    pub fn borrow(&self) -> (c: usize)
        ensures
            c == self@,
    {
        self.c
    }
}

/// A header with addresses, to be encoded and sent without keeping anything.
#[derive(Clone, Debug, PartialEq, Eq)]
pub struct StatelessReply {
    pub src: Address,
    pub dst: Address,
    pub hdr: PacketHdr,
}

impl View for StatelessReply {
    type V = StatelessReplyView;

    open spec fn view(&self) -> StatelessReplyView {
        StatelessReplyView { src: self.src, dst: self.dst, hdr: self.hdr@ }
    }
}

/// What is to be done with an inbound datagram.
#[derive(Clone, Debug, PartialEq, Eq)]
pub enum Routing {
    /// Nothing.
    Drop,
    /// Hand it to this connection.
    Deliver(usize),
    /// Answer it with this header, and keep nothing.
    Reply(StatelessReply),
    /// Make a connection for it, and tell the connection where the client's
    /// first Initial went, if the server sent it a Retry.
    Accept(Option<ConnectionId>),
}

/// The view of an optional connection ID.
pub open spec fn cid_view(cid: Option<ConnectionId>) -> Option<Seq<u8>> {
    match cid {
        Some(cid) => Some(cid@),
        None => None,
    }
}

/// The view of an optional header that is borrowed.
pub open spec fn hdr_ref_view(hdr: Option<&PacketHdr>) -> Option<PacketHdrView> {
    match hdr {
        Some(h) => Some(h@),
        None => None,
    }
}

/// The view of an optional header.
pub open spec fn hdr_view(hdr: Option<PacketHdr>) -> Option<PacketHdrView> {
    match hdr {
        Some(h) => Some(h@),
        None => None,
    }
}

impl View for Routing {
    type V = RoutingView;

    open spec fn view(&self) -> RoutingView {
        match self {
            Routing::Drop => RoutingView::Drop,
            Routing::Deliver(c) => RoutingView::Deliver(*c),
            Routing::Reply(r) => RoutingView::Reply(r@),
            Routing::Accept(odcid) => RoutingView::Accept(cid_view(*odcid)),
        }
    }
}

/// What the host reports to the server.
#[derive(Clone, Debug, PartialEq, Eq)]
pub enum Event {
    /// A datagram came in. `hdr` is its first packet header, or nothing
    /// where it did not decode.
    Input { hdr: Option<PacketHdr>, dgram: Datagram },
    /// No datagram came in, or nothing came of the last one.
    NoInput,
    /// Connection `c` was driven as the server asked and answered `out`;
    /// after that it said whether it has events and whether it is closed.
    Processed { c: usize, out: Output, has_events: bool, closed: bool },
}

impl View for Event {
    type V = EventView;

    open spec fn view(&self) -> EventView {
        match self {
            Event::Input { hdr, dgram } => EventView::Input { hdr: hdr_view(*hdr), dgram: dgram@ },
            Event::NoInput => EventView::NoInput,
            Event::Processed { c, out, has_events, closed } => EventView::Processed {
                c: *c,
                out: out@,
                has_events: *has_events,
                closed: *closed,
            },
        }
    }
}

/// What the server asks of the host.
#[allow(inconsistent_fields)]
#[derive(Clone, Debug, PartialEq, Eq)]
pub enum Action {
    /// Drive connection `c` at the instant of this step, with `dgram` if
    /// there is one, and report `Event::Processed`.
    Process { c: usize, dgram: Option<Datagram> },
    /// Make a new connection. If that fails, report `Event::NoInput`. Else
    /// call `accept_connection` for its number, tell it `odcid` if there is
    /// one, drive it with `dgram`, and report `Event::Processed`.
    Accept { odcid: Option<ConnectionId>, dgram: Datagram },
    /// Encode this header and send it; the step is over.
    Reply(StatelessReply),
    /// The step is over, with this result.
    Done(Output),
}

impl View for Action {
    type V = ActionView;

    open spec fn view(&self) -> ActionView {
        match self {
            Action::Process { c, dgram } => ActionView::Process { c: *c, dgram: dgram_view(*dgram) },
            Action::Accept { odcid, dgram } => ActionView::Accept {
                odcid: cid_view(*odcid),
                dgram: dgram@,
            },
            Action::Reply(r) => ActionView::Reply(r@),
            Action::Done(out) => ActionView::Done(out@),
        }
    }
}

/// A server for many connections.
pub struct Server<M: ConnectionIdManager> {
    /// The version this server supports.
    version: u32,
    /// The names of certificates.
    certs: Vec<String>,
    /// The ALPN values that the server supports.
    protocols: Vec<String>,
    /// The source of connection IDs.
    cid_manager: M,
    /// All connections, by connection ID.
    connections: ConnectionTable,
    /// The connections that have new events.
    active: Vec<ActiveConnectionRef>,
    /// The connections that need immediate processing.
    waiting: VecDeque<usize>,
    /// Outstanding timers for connections.
    timers: Timer,
    /// Whether a Retry packet is sent in response to new Initial packets.
    retry: RetryToken,
    /// What is kept for each connection, by its number.
    states: Vec<ServerConnectionState>,
}

impl<M: ConnectionIdManager> View for Server<M> {
    type V = ServerView;

    closed spec fn view(&self) -> ServerView {
        ServerView {
            version: self.version,
            certs: self.certs@,
            protocols: self.protocols@,
            require_retry: self.retry.required(),
            connections: self.connections@,
            active: self.active@.map_values(|a: ActiveConnectionRef| a@),
            waiting: self.waiting@,
            timers: self.timers@,
            last_timer: self.states@.map_values(|s: ServerConnectionState| s.last_timer),
        }
    }
}

impl<M: ConnectionIdManager> Server<M> {
    /// The server's parts are in order, and so is the state they stand for.
    pub closed spec fn wf(&self) -> bool {
        &&& self.connections.wf()
        &&& self.timers.wf()
        &&& self@.inv()
    }

    /// The source of connection IDs that the server holds.
    pub closed spec fn manager(&self) -> M {
        self.cid_manager
    }

    /// What holds of the state of every server in order.
    pub proof fn lemma_wf(&self)
        requires
            self.wf(),
        ensures
            self@.inv(),
    {
    }

    /// A new server, which speaks `QUIC_VERSION` and asks for no address
    /// validation. `certs` names the certificates, `protocols` is the
    /// preference list of ALPN values, and `cid_manager` makes the
    /// connection IDs.
    pub fn new(certs: Vec<String>, protocols: Vec<String>, cid_manager: M) -> (r: Server<M>)
        ensures
            r.wf(),
            r@ == ServerView::init(QUIC_VERSION, certs@, protocols@),
            r.manager() == cid_manager,
    {
        let r = Server {
            version: QUIC_VERSION,
            certs,
            protocols,
            cid_manager,
            connections: ConnectionTable::new(),
            active: Vec::new(),
            waiting: VecDeque::new(),
            timers: Timer::new(),
            retry: RetryToken::new(),
            states: Vec::new(),
        };
        assert(r@.active =~= Seq::<usize>::empty());
        assert(r@.last_timer =~= Seq::<u64>::empty());
        r
    }

    pub fn version(&self) -> (r: u32)
        ensures
            r == self@.version,
    {
        self.version
    }

    pub fn certs(&self) -> (r: &Vec<String>)
        ensures
            r@ == self@.certs,
    {
        &self.certs
    }

    pub fn protocols(&self) -> (r: &Vec<String>)
        ensures
            r@ == self@.protocols,
    {
        &self.protocols
    }

    /// The source of connection IDs that the server holds, for the host to
    /// decode with.
    pub fn cid_manager(&self) -> (r: &M)
        ensures
            *r == self.manager(),
    {
        &self.cid_manager
    }

    /// Says whether new Initial packets are answered with a Retry.
    pub fn set_retry_required(&mut self, require_retry: bool)
        requires
            old(self).wf(),
        ensures
            final(self).wf(),
            final(self)@ == old(self)@.set_retry_required(require_retry),
            final(self).manager() == old(self).manager(),
    {
        self.retry.set_retry_required(require_retry);
        proof {
            lemma_set_retry_required_inv(old(self)@, require_retry);
        }
    }

    /// The connection that owns `cid`.
    pub fn connection(&self, cid: &ConnectionId) -> (r: Option<usize>)
        requires
            self.wf(),
        ensures
            r == if self@.connections.contains_key(cid@) {
                Some(self@.connections[cid@])
            } else {
                None
            },
    {
        self.connections.get(cid)
    }

    /// The number of connections that the server has accepted.
    pub fn accepted(&self) -> (r: usize)
        ensures
            r == self@.last_timer.len(),
    {
        self.states.len()
    }

    /// The number of timers that are set.
    pub fn timers_len(&self) -> (r: usize)
        ensures
            r == self@.timers.len(),
    {
        self.timers.len()
    }

    /// The number of connections in the queue.
    pub fn waiting_len(&self) -> (r: usize)
        ensures
            r == self@.waiting.len(),
    {
        self.waiting.len()
    }

    /// The number of connection IDs in the table.
    pub fn connections_len(&self) -> (r: usize)
        requires
            self.wf(),
        ensures
            r == self@.connections.dom().len(),
    {
        self.connections.len()
    }

    /// The instant of the timer set last for connection `c`.
    pub fn last_timer(&self, c: usize) -> (r: u64)
        requires
            self@.knows(c),
        ensures
            r == self@.last_timer[c as int],
    {
        self.states[c].last_timer
    }

    /// The Version Negotiation packet that answers `received`, whose first
    /// header is `hdr`: it goes back to where `received` came from, to the
    /// client's source connection ID, and offers the server's version and a
    /// reserved one.
    pub fn create_vn(&self, hdr: &PacketHdr, received: &Datagram) -> (r: StatelessReply)
        requires
            hdr@.scid.is_some(),
        ensures
            r@ == reply_to(received@, vn_header(self@.version, hdr@)),
    {
        let mut versions: Vec<u32> = Vec::new();
        versions.push(self.version);
        versions.push(GREASE_VERSION);
        assert(versions@ =~= seq![self.version, GREASE_VERSION]);
        let dcid = match &hdr.scid {
            Some(cid) => cid.duplicate(),
            None => ConnectionId::new(Vec::new()),
        };
        let vn = PacketHdr::new(
            0,
            PacketType::VN(versions),
            Some(0),
            dcid,
            Some(hdr.dcid.duplicate()),
            0,
            0,
        );
        StatelessReply { src: received.destination(), dst: received.source(), hdr: vn }
    }

    /// The Retry packet that answers `received`, whose first header is
    /// `hdr`, sent from the new connection ID `scid`: it goes back to where
    /// `received` came from, to the client's source connection ID, and
    /// carries the token for the connection ID that the client chose.
    pub fn create_retry(&mut self, hdr: &PacketHdr, received: &Datagram, scid: ConnectionId) -> (r:
        StatelessReply)
        requires
            hdr@.scid.is_some(),
        ensures
            r@ == reply_to(received@, retry_header(old(self)@.version, hdr@, scid@)),
            final(self)@ == old(self)@,
            final(self).manager() == old(self).manager(),
            old(self).wf() ==> final(self).wf(),
    {
        let token = self.retry.generate_token(&hdr.dcid);
        let dcid = match &hdr.scid {
            Some(cid) => cid.duplicate(),
            None => ConnectionId::new(Vec::new()),
        };
        let retry = PacketHdr::new(
            0,
            PacketType::Retry { odcid: hdr.dcid.duplicate(), token },
            Some(self.version),
            dcid,
            Some(scid),
            0,
            0,
        );
        StatelessReply { src: received.destination(), dst: received.source(), hdr: retry }
    }

    /// Takes away the timer of connection `c`, if it has one.
    pub fn remove_timer(&mut self, c: usize)
        requires
            old(self).wf(),
            old(self)@.knows(c),
        ensures
            final(self).wf(),
            final(self)@ == old(self)@.remove_timer(c),
            final(self).manager() == old(self).manager(),
    {
        let last = self.states[c].last_timer;
        self.timers.remove(last, c);
        proof {
            lemma_remove_timer_inv(old(self)@, c);
        }
    }

    /// Moves the timer of connection `c` to `next`.
    fn set_timer(&mut self, c: usize, next: u64)
        requires
            old(self).wf(),
            old(self)@.knows(c),
        ensures
            final(self).wf(),
            final(self)@ == old(self)@.set_timer(c, next),
            final(self).manager() == old(self).manager(),
    {
        self.remove_timer(c);
        self.states.set(c, ServerConnectionState { last_timer: next });
        self.timers.add(next, c);
        proof {
            assert(self@.last_timer =~= old(self)@.last_timer.update(c as int, next));
            lemma_set_timer_inv(old(self)@, c, next);
        }
    }

    /// Puts connection `c` among those with events, unless it is there.
    fn mark_active(&mut self, c: usize)
        requires
            old(self).wf(),
            old(self)@.knows(c),
        ensures
            final(self).wf(),
            final(self)@ == old(self)@.mark_active(c),
            final(self).manager() == old(self).manager(),
    {
        let mut i: usize = 0;
        while i < self.active.len()
            invariant
                0 <= i <= self.active@.len(),
                forall|j: int| 0 <= j < i ==> self.active@[j]@ != c,
                *self == *old(self),
                self.wf(),
            decreases self.active@.len() - i,
        {
            if self.active[i].c == c {
                assert(self@.active[i as int] == c);
                return ;
            }
            i += 1;
        }
        assert(!self@.active.contains(c));
        self.active.push(ActiveConnectionRef { c });
        proof {
            assert(self@.active =~= old(self)@.active.push(c));
            lemma_mark_active_inv(old(self)@, c);
        }
    }

    /// Records what connection `c` answered when it was driven at `now`,
    /// and what it then said of itself. A datagram puts the connection at
    /// the end of the queue; a delay moves its timer to `now` and the delay,
    /// unless the last timer was set for that instant; nothing takes its
    /// timer away. With events it joins the connections with events. Closed,
    /// it loses its connection IDs. The datagram is handed on.
    pub fn process_connection(
        &mut self,
        c: usize,
        out: Output,
        has_events: bool,
        closed: bool,
        now: u64,
    ) -> (r: Option<Datagram>)
        requires
            old(self).wf(),
            event_ok(old(self)@, (EventView::Processed { c, out: out@, has_events, closed }), now),
        ensures
            final(self).wf(),
            final(self)@ == old(self)@.process_connection(c, out@, has_events, closed, now),
            final(self).manager() == old(self).manager(),
            r == match out {
                Output::Datagram(d) => Some(d),
                _ => None,
            },
    {
        proof {
            lemma_process_connection_inv(old(self)@, c, out@, has_events, closed, now);
        }
        match &out {
            Output::Datagram(_) => {
                self.waiting.push_back(c);
            },
            Output::Callback(delay) => {
                let next: u64 = now + *delay;
                if next != self.states[c].last_timer {
                    self.set_timer(c, next);
                }
            },
            Output::Nothing => {
                self.remove_timer(c);
            },
        }
        assert(self@ == old(self)@.schedule(c, out@, now));
        if has_events {
            self.mark_active(c);
        }
        if closed {
            self.connections.purge(c);
        }
        out.dgram()
    }

    /// Records a new connection, with `now` as the instant of its last
    /// timer, and gives its number.
    pub fn accept_connection(&mut self, now: u64) -> (c: usize)
        requires
            old(self).wf(),
        ensures
            final(self).wf(),
            final(self)@ == old(self)@.accept_connection(now),
            final(self).manager() == old(self).manager(),
            c == old(self)@.last_timer.len(),
            final(self)@.knows(c),
    {
        let c = self.states.len();
        self.states.push(ServerConnectionState { last_timer: now });
        proof {
            assert(self@.last_timer =~= old(self)@.last_timer.push(now));
            lemma_accept_connection_inv(old(self)@, now);
        }
        c
    }

    /// Enters the connection ID `cid`, which was made for connection `c`, in
    /// the table, so that datagrams for it reach `c`. If it was in the table,
    /// it is `c`'s from now on.
    pub fn register_cid(&mut self, c: usize, cid: &ConnectionId)
        requires
            old(self).wf(),
            old(self)@.knows(c),
            cid@.len() > 0,
        ensures
            final(self).wf(),
            final(self)@ == old(self)@.register(cid@, c),
            final(self).manager() == old(self).manager(),
    {
        self.connections.insert(cid.duplicate(), c);
        proof {
            lemma_register_inv(old(self)@, cid@, c);
        }
    }

    /// Makes a connection ID for connection `c` and enters it in the table.
    /// A connection calls this for every connection ID that it issues.
    pub fn generate_cid(&mut self, c: usize) -> (cid: ConnectionId)
        requires
            old(self).wf(),
            old(self)@.knows(c),
        ensures
            final(self).wf(),
            cid@.len() > 0,
            final(self)@ == old(self)@.register(cid@, c),
    {
        let cid = self.cid_manager.generate_cid();
        self.register_cid(c, &cid);
        cid
    }

    /// Classifies a packet of the server's version, in a datagram that is
    /// long enough, for a connection ID that no connection owns.
    pub fn handle_initial(&mut self, hdr: &PacketHdr, dgram: &Datagram) -> (r: Routing)
        requires
            old(self).wf(),
        ensures
            final(self).wf(),
            final(self)@ == old(self)@,
            r@ == old(self)@.routing_for(
                old(self)@.decide_initial(hdr@),
                hdr@,
                dgram@,
                routing_scid(r@),
            ),
            old(self)@.decide_initial(hdr@) == Decision::Retry ==> routing_scid(r@).len() > 0,
            old(self)@.decide_initial(hdr@) != Decision::Retry ==> final(self).manager() == old(
                self,
            ).manager(),
    {
        match self.retry.validate(hdr) {
            RetryTokenResult::Invalid => Routing::Drop,
            RetryTokenResult::Pass => Routing::Accept(None),
            RetryTokenResult::Valid(odcid) => Routing::Accept(Some(odcid)),
            RetryTokenResult::Validate => {
                if hdr.scid.is_some() {
                    let scid = self.cid_manager.generate_cid();
                    Routing::Reply(self.create_retry(hdr, dgram, scid))
                } else {
                    Routing::Drop
                }
            },
        }
    }

    /// Decides what is to be done with an inbound datagram, by its first
    /// packet header alone.
    pub fn process_input(&mut self, hdr: Option<&PacketHdr>, dgram: &Datagram) -> (r: Routing)
        requires
            old(self).wf(),
        ensures
            final(self).wf(),
            final(self)@ == old(self)@,
            r@ == old(self)@.routing(hdr_ref_view(hdr), dgram@, routing_scid(r@)),
            old(self)@.decide(hdr_ref_view(hdr), dgram@) == Decision::Retry ==> routing_scid(
                r@,
            ).len() > 0,
            old(self)@.decide(hdr_ref_view(hdr), dgram@) != Decision::Retry ==> final(self).manager()
                == old(self).manager(),
    {
        let hdr = match hdr {
            Some(h) => h,
            None => {
                return Routing::Drop;
            },
        };
        // Finding an existing connection. Should be the most common case.
        if let Some(c) = self.connection(&hdr.dcid) {
            return Routing::Deliver(c);
        }
        if matches!(hdr.tipe, PacketType::Short) {
            return Routing::Drop;
        }
        if dgram.len() < MIN_INITIAL_PACKET_SIZE {
            return Routing::Drop;
        }
        let ours = match hdr.version {
            Some(v) => v == self.version,
            None => false,
        };
        if !ours {
            if hdr.scid.is_some() {
                return Routing::Reply(self.create_vn(hdr, dgram));
            }
            return Routing::Drop;
        }
        self.handle_initial(hdr, dgram)
    }

    /// The connection to drive next without input: the first in the queue,
    /// or else the one whose timer has fallen due first. It is taken from
    /// where it stood.
    pub fn process_next_output(&mut self, now: u64) -> (r: Option<usize>)
        requires
            old(self).wf(),
        ensures
            final(self).wf(),
            r == old(self)@.next_connection(now),
            final(self)@ == old(self)@.take_next(now),
            final(self).manager() == old(self).manager(),
            match r {
                Some(c) => final(self)@.knows(c),
                None => true,
            },
    {
        proof {
            lemma_take_next_inv(old(self)@, now);
        }
        match self.waiting.pop_front() {
            Some(c) => Some(c),
            None => self.timers.take_next(now),
        }
    }

    /// How long the host may wait before the next step: not at all while a
    /// connection is in the queue, else until the first timer falls due,
    /// else as long as no datagram comes in.
    pub fn next_time(&self, now: u64) -> (r: Option<u64>)
        ensures
            r == self@.next_time(now),
    {
        if self.waiting.len() == 0 {
            match self.timers.next_time() {
                Some(x) => Some(
                    if x > now {
                        x - now
                    } else {
                        0
                    },
                ),
                None => None,
            }
        } else {
            Some(0)
        }
    }

    /// What the server does when no datagram is at hand: it asks for the
    /// next connection to be driven, or says how long to wait.
    fn poll(&mut self, now: u64) -> (a: Action)
        requires
            old(self).wf(),
        ensures
            final(self).wf(),
            (final(self)@, a@) == old(self)@.poll(now),
            final(self).manager() == old(self).manager(),
    {
        match self.process_next_output(now) {
            Some(c) => Action::Process { c, dgram: None },
            None => match self.next_time(now) {
                Some(delay) => Action::Done(Output::Callback(delay)),
                None => Action::Done(Output::Nothing),
            },
        }
    }

    /// One step of the server. The host reports a datagram, or none, or
    /// what a connection answered; the server says what to do next. A call
    /// by the host begins with `Event::Input` or `Event::NoInput` and is
    /// over with `Action::Reply` or `Action::Done`; all its steps have the
    /// same `now`.
    pub fn process(&mut self, ev: Event, now: u64) -> (a: Action)
        requires
            old(self).wf(),
            event_ok(old(self)@, ev@, now),
        ensures
            final(self).wf(),
            (final(self)@, a@) == old(self)@.step(ev@, now, retry_scid(a@)),
            old(self)@.asks_retry(ev@) ==> retry_scid(a@).len() > 0,
            !old(self)@.asks_retry(ev@) ==> final(self).manager() == old(self).manager(),
    {
        match ev {
            Event::Input { hdr, dgram } => {
                match self.process_input(hdr.as_ref(), &dgram) {
                    Routing::Drop => self.poll(now),
                    Routing::Deliver(c) => Action::Process { c, dgram: Some(dgram) },
                    Routing::Reply(r) => Action::Reply(r),
                    Routing::Accept(odcid) => Action::Accept { odcid, dgram },
                }
            },
            Event::NoInput => self.poll(now),
            Event::Processed { c, out, has_events, closed } => {
                match self.process_connection(c, out, has_events, closed, now) {
                    Some(d) => Action::Done(Output::Datagram(d)),
                    None => self.poll(now),
                }
            },
        }
    }

    /// The connections that have got events since this was last called.
    /// They are handed over: the server's set is empty afterwards.
    pub fn active_connections(&mut self) -> (r: Vec<ActiveConnectionRef>)
        requires
            old(self).wf(),
        ensures
            final(self).wf(),
            final(self)@ == old(self)@.drained(),
            final(self).manager() == old(self).manager(),
            r@.len() == old(self)@.active.len(),
            forall|i: int| 0 <= i < r@.len() ==> (#[trigger] r@[i])@ == old(self)@.active[i],
    {
        let mut r: Vec<ActiveConnectionRef> = Vec::new();
        std::mem::swap(&mut self.active, &mut r);
        proof {
            assert(self@.active =~= Seq::<usize>::empty());
            lemma_drained_inv(old(self)@);
        }
        r
    }
}

} // verus!
