use quic_dispatch::{
    Action, ActiveConnectionRef, Address, ConnectionId, ConnectionIdManager, Datagram, Event,
    Output, PacketHdr, PacketType, Routing, Server, StatelessReply, GREASE_VERSION,
    MIN_INITIAL_PACKET_SIZE, QUIC_VERSION,
};
use std::collections::VecDeque;

const MS: u64 = 1_000_000;

/// Mints the connection IDs `c0 01`, `c0 02`, and so on.
struct Counter {
    next: u8,
}

impl ConnectionIdManager for Counter {
    fn generate_cid(&mut self) -> ConnectionId {
        self.next += 1;
        ConnectionId::new(vec![0xc0, self.next])
    }
}

/// What a scripted connection does when it is driven once.
struct Tick {
    mint: usize,
    out: Output,
    has_events: bool,
    closed: bool,
}

fn tick(out: Output) -> Tick {
    Tick { mint: 0, out, has_events: false, closed: false }
}

struct Conn {
    script: VecDeque<Tick>,
    seen: Vec<(Option<Datagram>, u64)>,
    cids: Vec<ConnectionId>,
    odcid: Option<ConnectionId>,
}

fn conn(script: Vec<Tick>) -> Conn {
    Conn { script: script.into(), seen: Vec::new(), cids: Vec::new(), odcid: None }
}

#[derive(Debug, PartialEq, Eq)]
enum Sent {
    Out(Output),
    Reply(StatelessReply),
}

struct Host {
    server: Server<Counter>,
    conns: Vec<Conn>,
    to_accept: VecDeque<Conn>,
}

fn host() -> Host {
    let server = Server::new(
        vec![String::from("key")],
        vec![String::from("alpn")],
        Counter { next: 0 },
    );
    Host { server, conns: Vec::new(), to_accept: VecDeque::new() }
}

impl Host {
    fn drive(&mut self, c: usize, dgram: Option<Datagram>, now: u64) -> Event {
        assert!(c < self.server.accepted());
        self.conns[c].seen.push((dgram, now));
        let t = self.conns[c].script.pop_front().unwrap_or(tick(Output::Nothing));
        for _ in 0..t.mint {
            let cid = self.server.generate_cid(c);
            self.conns[c].cids.push(cid);
        }
        if let Output::Callback(delay) = &t.out {
            assert!(now.checked_add(*delay).is_some());
        }
        Event::Processed { c, out: t.out, has_events: t.has_events, closed: t.closed }
    }

    fn process(&mut self, input: Option<(Option<PacketHdr>, Datagram)>, now: u64) -> Sent {
        let mut ev = match input {
            Some((hdr, dgram)) => Event::Input { hdr, dgram },
            None => Event::NoInput,
        };
        loop {
            ev = match self.server.process(ev, now) {
                Action::Process { c, dgram } => self.drive(c, dgram, now),
                Action::Accept { odcid, dgram } => match self.to_accept.pop_front() {
                    None => Event::NoInput,
                    Some(mut conn) => {
                        let c = self.server.accept_connection(now);
                        assert_eq!(c, self.conns.len());
                        conn.odcid = odcid;
                        self.conns.push(conn);
                        self.drive(c, Some(dgram), now)
                    }
                },
                Action::Reply(r) => return Sent::Reply(r),
                Action::Done(out) => return Sent::Out(out),
            };
        }
    }
}

fn client() -> Address {
    Address::V4 { ip: 0x7f00_0001, port: 5000 }
}

fn listener() -> Address {
    Address::V6 { ip: 1, port: 443, flowinfo: 0, scope_id: 0 }
}

fn dgram(len: usize) -> Datagram {
    Datagram::new(client(), listener(), vec![0x5a; len])
}

fn cid(bytes: &[u8]) -> ConnectionId {
    ConnectionId::from_bytes(bytes)
}

fn initial(version: u32, dcid: &[u8], scid: &[u8], token: &[u8]) -> PacketHdr {
    PacketHdr::new(
        0xff,
        PacketType::Initial(token.to_vec()),
        Some(version),
        cid(dcid),
        Some(cid(scid)),
        0,
        0,
    )
}

fn short(dcid: &[u8]) -> PacketHdr {
    PacketHdr::new(0x40, PacketType::Short, None, cid(dcid), None, 7, 3)
}

/// A host with one connection, which owns `c0 01` and, if `two`, `c0 02`.
fn host_with_connection(two: bool, first: Tick) -> Host {
    let mut h = host();
    let mint = if two { 2 } else { 1 };
    h.to_accept.push_back(conn(vec![Tick { mint, ..first }]));
    let out = h.process(Some((Some(initial(QUIC_VERSION, &[9, 9], &[8], &[])), dgram(1200))), 0);
    assert!(matches!(out, Sent::Out(_)));
    h
}

#[test]
fn version_negotiation_reply() {
    let mut h = host();
    assert_eq!(h.server.version(), 0x0000_0001);
    let hdr = initial(0xff00_001d, &[0xde, 0xad, 0xbe, 0xef], &[0xca, 0xfe], &[]);
    let out = h.process(Some((Some(hdr), dgram(1200))), 5);
    let expected = StatelessReply {
        src: listener(),
        dst: client(),
        hdr: PacketHdr::new(
            0,
            PacketType::VN(vec![0x0000_0001, 0xaaba_cada]),
            Some(0),
            cid(&[0xca, 0xfe]),
            Some(cid(&[0xde, 0xad, 0xbe, 0xef])),
            0,
            0,
        ),
    };
    assert_eq!(out, Sent::Reply(expected));
    assert_eq!(h.server.accepted(), 0);
    assert_eq!(h.server.connections_len(), 0);
    assert_eq!(GREASE_VERSION, 0xaaba_cada);
}

#[test]
fn version_negotiation_for_any_long_header() {
    let mut h = host();
    let hdr = PacketHdr::new(
        0xe0,
        PacketType::Handshake,
        Some(2),
        cid(&[1]),
        Some(cid(&[])),
        0,
        2,
    );
    match h.process(Some((Some(hdr), dgram(1500))), 0) {
        Sent::Reply(r) => {
            assert_eq!(r.hdr.tipe, PacketType::VN(vec![QUIC_VERSION, GREASE_VERSION]));
            assert_eq!(r.hdr.dcid, cid(&[]));
            assert_eq!(r.hdr.scid, Some(cid(&[1])));
            assert_eq!(r.src, listener());
            assert_eq!(r.dst, client());
        }
        other => panic!("{:?}", other),
    }
}

#[test]
fn version_missing_is_another_version() {
    let mut h = host();
    let mut hdr = initial(QUIC_VERSION, &[1], &[2], &[]);
    hdr.version = None;
    assert!(matches!(h.process(Some((Some(hdr), dgram(1200))), 0), Sent::Reply(_)));
}

#[test]
fn version_negotiation_needs_source_cid() {
    let mut h = host();
    let mut hdr = initial(7, &[1], &[2], &[]);
    hdr.scid = None;
    assert_eq!(h.process(Some((Some(hdr), dgram(1200))), 0), Sent::Out(Output::Nothing));
}

#[test]
fn short_header_for_unknown_connection_is_dropped() {
    let mut h = host();
    let out = h.process(Some((Some(short(&[1, 2, 3])), dgram(1200))), 0);
    assert_eq!(out, Sent::Out(Output::Nothing));
    assert_eq!(h.server.accepted(), 0);
}

#[test]
fn undecodable_datagram_is_dropped() {
    let mut h = host();
    assert_eq!(h.process(Some((None, dgram(1300))), 0), Sent::Out(Output::Nothing));
    assert_eq!(h.server.process_input(None, &dgram(1300)), Routing::Drop);
}

#[test]
fn retry_then_accept() {
    let mut h = host();
    h.server.set_retry_required(true);
    h.to_accept.push_back(conn(vec![Tick { mint: 1, ..tick(Output::Nothing) }]));

    let first = initial(QUIC_VERSION, &[0x11, 0x22, 0x33, 0x44], &[0xaa], &[]);
    let reply = match h.process(Some((Some(first), dgram(1200))), 0) {
        Sent::Reply(r) => r,
        other => panic!("{:?}", other),
    };
    assert_eq!(reply.src, listener());
    assert_eq!(reply.dst, client());
    assert_eq!(reply.hdr.version, Some(QUIC_VERSION));
    assert_eq!(reply.hdr.dcid, cid(&[0xaa]));
    assert_eq!(reply.hdr.scid, Some(cid(&[0xc0, 1])));
    let token = match reply.hdr.tipe {
        PacketType::Retry { odcid, token } => {
            assert_eq!(odcid, cid(&[0x11, 0x22, 0x33, 0x44]));
            token
        }
        other => panic!("{:?}", other),
    };
    assert_eq!(token, vec![0x01, 0x02, 0x03, 0x11, 0x22, 0x33, 0x44]);
    // Nothing is kept for a Retry.
    assert_eq!(h.server.accepted(), 0);
    assert_eq!(h.server.connections_len(), 0);
    assert_eq!(h.to_accept.len(), 1);

    let second = initial(QUIC_VERSION, &[0xc0, 1], &[0xaa], &token);
    let out = h.process(Some((Some(second), dgram(1200))), 1);
    assert_eq!(out, Sent::Out(Output::Nothing));
    assert_eq!(h.server.accepted(), 1);
    assert_eq!(h.conns[0].odcid, Some(cid(&[0x11, 0x22, 0x33, 0x44])));
    assert_eq!(h.conns[0].seen, vec![(Some(dgram(1200)), 1)]);
}

#[test]
fn retry_needs_source_cid() {
    let mut h = host();
    h.server.set_retry_required(true);
    let mut hdr = initial(QUIC_VERSION, &[1], &[2], &[]);
    hdr.scid = None;
    assert_eq!(h.server.handle_initial(&hdr, &dgram(1200)), Routing::Drop);
}

#[test]
fn no_retry_unless_required() {
    let mut h = host();
    h.to_accept.push_back(conn(vec![]));
    let out = h.process(Some((Some(initial(QUIC_VERSION, &[1], &[2], &[])), dgram(1200))), 0);
    assert_eq!(out, Sent::Out(Output::Nothing));
    assert_eq!(h.conns.len(), 1);
    assert_eq!(h.conns[0].odcid, None);
    h.server.set_retry_required(true);
    h.server.set_retry_required(false);
    assert_eq!(
        h.server.handle_initial(&initial(QUIC_VERSION, &[1], &[2], &[]), &dgram(1200)),
        Routing::Accept(None)
    );
}

#[test]
fn invalid_token_is_dropped() {
    let mut h = host();
    h.to_accept.push_back(conn(vec![]));
    let hdr = initial(QUIC_VERSION, &[1], &[2], &[1, 2, 4, 9]);
    assert_eq!(h.process(Some((Some(hdr), dgram(1200))), 0), Sent::Out(Output::Nothing));
    assert_eq!(h.server.accepted(), 0);
    assert_eq!(h.to_accept.len(), 1);
}

#[test]
fn handshake_for_unknown_connection_is_dropped() {
    let mut h = host();
    let hdr = PacketHdr::new(
        0xe0,
        PacketType::Handshake,
        Some(QUIC_VERSION),
        cid(&[1]),
        Some(cid(&[2])),
        0,
        2,
    );
    assert_eq!(h.server.process_input(Some(&hdr), &dgram(1200)), Routing::Drop);
}

#[test]
fn every_minted_cid_routes() {
    let mut h = host_with_connection(true, tick(Output::Nothing));
    let a = cid(&[0xc0, 1]);
    let b = cid(&[0xc0, 2]);
    assert_eq!(h.conns[0].cids, vec![a.clone(), b.clone()]);
    assert_eq!(h.server.connection(&a), Some(0));
    assert_eq!(h.server.connection(&b), Some(0));
    assert_eq!(h.server.connections_len(), 2);

    assert_eq!(h.process(Some((Some(short(&[0xc0, 1])), dgram(40))), 1), Sent::Out(Output::Nothing));
    assert_eq!(h.process(Some((Some(short(&[0xc0, 2])), dgram(41))), 2), Sent::Out(Output::Nothing));
    assert_eq!(
        h.conns[0].seen,
        vec![(Some(dgram(1200)), 0), (Some(dgram(40)), 1), (Some(dgram(41)), 2)]
    );
}

#[test]
fn routing_reaches_the_owner_only() {
    let mut h = host_with_connection(false, tick(Output::Nothing));
    h.to_accept.push_back(conn(vec![Tick { mint: 1, ..tick(Output::Nothing) }]));
    h.process(Some((Some(initial(QUIC_VERSION, &[7], &[8], &[])), dgram(1200))), 1);
    assert_eq!(h.conns.len(), 2);
    assert_eq!(h.server.connection(&cid(&[0xc0, 1])), Some(0));
    assert_eq!(h.server.connection(&cid(&[0xc0, 2])), Some(1));

    // The action names the owner, and carries the datagram.
    let a = h.server.process(Event::Input { hdr: Some(short(&[0xc0, 2])), dgram: dgram(33) }, 2);
    assert_eq!(a, Action::Process { c: 1, dgram: Some(dgram(33)) });
    let a = h.server.process(
        Event::Processed { c: 1, out: Output::Nothing, has_events: false, closed: false },
        2,
    );
    assert_eq!(a, Action::Done(Output::Nothing));

    h.process(Some((Some(short(&[0xc0, 1])), dgram(34))), 3);
    assert_eq!(h.conns[0].seen.len(), 2);
    assert_eq!(h.conns[1].seen.len(), 1);
    assert_eq!(h.conns[0].seen[1], (Some(dgram(34)), 3));
}

#[test]
fn coalesced_packets_go_by_the_first_header() {
    let mut h = host_with_connection(false, tick(Output::Nothing));
    // Two packets in one datagram; the second names another connection ID.
    let mut payload = vec![0x40, 0xc0, 0x01, 1, 2, 3];
    payload.extend_from_slice(&[0x40, 0xee, 0xee, 4, 5, 6]);
    let d = Datagram::new(client(), listener(), payload);
    let a = h.server.process(Event::Input { hdr: Some(short(&[0xc0, 1])), dgram: d.clone() }, 1);
    assert_eq!(a, Action::Process { c: 0, dgram: Some(d) });
}

#[test]
fn known_connection_takes_any_length_and_type() {
    let mut h = host_with_connection(false, tick(Output::Nothing));
    let hdr = initial(77, &[0xc0, 1], &[5], &[9, 9]);
    assert_eq!(h.server.process_input(Some(&hdr), &dgram(10)), Routing::Deliver(0));
}

#[test]
fn short_initial_is_dropped() {
    let mut h = host();
    h.to_accept.push_back(conn(vec![]));
    let hdr = initial(QUIC_VERSION, &[1], &[2], &[]);
    assert_eq!(h.process(Some((Some(hdr.clone()), dgram(1199))), 0), Sent::Out(Output::Nothing));
    assert_eq!(h.server.accepted(), 0);
    assert_eq!(h.server.process_input(Some(&hdr), &dgram(0)), Routing::Drop);
    // Too short comes before the wrong version.
    let other = initial(99, &[1], &[2], &[]);
    assert_eq!(h.server.process_input(Some(&other), &dgram(1199)), Routing::Drop);
    assert_eq!(MIN_INITIAL_PACKET_SIZE, 1200);
    assert_eq!(h.server.process_input(Some(&hdr), &dgram(1200)), Routing::Accept(None));
}

#[test]
fn accept_failure_keeps_nothing() {
    let mut h = host();
    let hdr = initial(QUIC_VERSION, &[1], &[2], &[]);
    assert_eq!(h.process(Some((Some(hdr), dgram(1200))), 0), Sent::Out(Output::Nothing));
    assert_eq!(h.server.accepted(), 0);
    assert_eq!(h.server.connections_len(), 0);
    assert_eq!(h.server.timers_len(), 0);
}

#[test]
fn timer_is_moved_not_doubled() {
    let mut h = host_with_connection(false, tick(Output::Callback(100 * MS)));
    assert_eq!(h.server.timers_len(), 1);
    assert_eq!(h.server.last_timer(0), 100 * MS);
    assert_eq!(h.server.next_time(0), Some(100 * MS));

    h.conns[0].script.push_back(tick(Output::Callback(50 * MS)));
    let out = h.process(Some((Some(short(&[0xc0, 1])), dgram(20))), 10 * MS);
    assert_eq!(out, Sent::Out(Output::Callback(50 * MS)));
    assert_eq!(h.server.timers_len(), 1);
    assert_eq!(h.server.last_timer(0), 60 * MS);
    assert_eq!(h.server.next_time(10 * MS), Some(50 * MS));
}

#[test]
fn dormant_without_work() {
    let mut h = host();
    assert_eq!(h.process(None, 123), Sent::Out(Output::Nothing));
    let mut h = host_with_connection(false, tick(Output::Nothing));
    assert_eq!(h.process(None, 5), Sent::Out(Output::Nothing));
    assert_eq!(h.conns[0].seen.len(), 1);
}

#[test]
fn callback_until_the_earliest_timer() {
    let mut h = host_with_connection(false, tick(Output::Callback(30 * MS)));
    h.to_accept.push_back(conn(vec![Tick { mint: 1, ..tick(Output::Callback(20 * MS)) }]));
    let out = h.process(Some((Some(initial(QUIC_VERSION, &[7], &[8], &[])), dgram(1200))), 5 * MS);
    // 5 + 20 is earlier than 0 + 30.
    assert_eq!(out, Sent::Out(Output::Callback(20 * MS)));
    assert_eq!(h.process(None, 24 * MS), Sent::Out(Output::Callback(MS)));
    assert_eq!(h.conns[0].seen.len(), 1);
    assert_eq!(h.conns[1].seen.len(), 1);

    // At 25 ms the second connection is driven, and only it.
    assert_eq!(h.process(None, 25 * MS), Sent::Out(Output::Callback(5 * MS)));
    assert_eq!(h.conns[0].seen.len(), 1);
    assert_eq!(h.conns[1].seen, vec![(Some(dgram(1200)), 5 * MS), (None, 25 * MS)]);
    assert_eq!(h.server.timers_len(), 1);

    // At 40 ms the first one is overdue.
    assert_eq!(h.process(None, 40 * MS), Sent::Out(Output::Nothing));
    assert_eq!(h.conns[0].seen.len(), 2);
    assert_eq!(h.server.timers_len(), 0);
}

#[test]
fn next_time_is_never_negative() {
    let h = host_with_connection(false, tick(Output::Callback(30 * MS)));
    assert_eq!(h.server.next_time(31 * MS), Some(0));
    assert_eq!(h.server.next_time(30 * MS), Some(0));
    assert_eq!(h.server.next_time(29 * MS), Some(MS));
}

#[test]
fn same_deadline_is_not_set_again() {
    // A connection that is accepted at `now` and asks to come back at once
    // names the instant its state was made with: no timer is set.
    let mut h = host();
    h.to_accept.push_back(conn(vec![Tick { mint: 1, ..tick(Output::Callback(0)) }]));
    let out = h.process(Some((Some(initial(QUIC_VERSION, &[7], &[8], &[])), dgram(1200))), 9);
    assert_eq!(out, Sent::Out(Output::Nothing));
    assert_eq!(h.server.timers_len(), 0);
    assert_eq!(h.server.last_timer(0), 9);

    // The same target twice leaves the one timer where it is.
    h.conns[0].script.push_back(tick(Output::Callback(11)));
    h.conns[0].script.push_back(tick(Output::Callback(10)));
    h.process(Some((Some(short(&[0xc0, 1])), dgram(20))), 9);
    h.process(Some((Some(short(&[0xc0, 1])), dgram(20))), 10);
    assert_eq!(h.server.timers_len(), 1);
    assert_eq!(h.server.last_timer(0), 20);
}

#[test]
fn nothing_removes_the_timer() {
    let mut h = host_with_connection(false, tick(Output::Callback(30 * MS)));
    assert_eq!(h.server.timers_len(), 1);
    let out = h.process(Some((Some(short(&[0xc0, 1])), dgram(20))), MS);
    assert_eq!(out, Sent::Out(Output::Nothing));
    assert_eq!(h.server.timers_len(), 0);
    assert_eq!(h.server.last_timer(0), 30 * MS);
}

#[test]
fn datagram_puts_connection_in_waiting() {
    let reply = Datagram::new(listener(), client(), vec![1, 2, 3]);
    let mut h = host_with_connection(false, tick(Output::Nothing));
    h.conns[0].script.push_back(tick(Output::Datagram(reply.clone())));
    h.conns[0].script.push_back(tick(Output::Datagram(reply.clone())));
    h.conns[0].script.push_back(tick(Output::Callback(4 * MS)));

    let out = h.process(Some((Some(short(&[0xc0, 1])), dgram(20))), MS);
    assert_eq!(out, Sent::Out(Output::Datagram(reply.clone())));
    assert_eq!(h.server.waiting_len(), 1);
    assert_eq!(h.server.next_time(MS), Some(0));

    // Without input the waiting connection is driven again.
    assert_eq!(h.process(None, MS), Sent::Out(Output::Datagram(reply)));
    assert_eq!(h.server.waiting_len(), 1);
    assert_eq!(h.process(None, MS), Sent::Out(Output::Callback(4 * MS)));
    assert_eq!(h.server.waiting_len(), 0);
    assert_eq!(h.conns[0].seen.len(), 4);
}

#[test]
fn waiting_is_first_come_first_served() {
    let reply = Datagram::new(listener(), client(), vec![1]);
    let mut h = host_with_connection(false, tick(Output::Datagram(reply.clone())));
    h.to_accept.push_back(conn(vec![Tick { mint: 1, ..tick(Output::Datagram(reply.clone())) }]));
    h.process(Some((Some(initial(QUIC_VERSION, &[7], &[8], &[])), dgram(1200))), 0);
    assert_eq!(h.server.waiting_len(), 2);
    assert_eq!(h.server.process_next_output(0), Some(0));
    assert_eq!(h.server.process_next_output(0), Some(1));
    assert_eq!(h.server.process_next_output(0), None);
}

#[test]
fn waiting_comes_before_timers() {
    let reply = Datagram::new(listener(), client(), vec![1]);
    let mut h = host_with_connection(false, tick(Output::Callback(1)));
    h.to_accept.push_back(conn(vec![Tick { mint: 1, ..tick(Output::Datagram(reply)) }]));
    h.process(Some((Some(initial(QUIC_VERSION, &[7], &[8], &[])), dgram(1200))), 0);
    assert_eq!(h.server.process_next_output(50), Some(1));
    assert_eq!(h.server.process_next_output(50), Some(0));
    assert_eq!(h.server.process_next_output(50), None);
}

#[test]
fn closed_connection_is_purged() {
    let mut h = host_with_connection(true, tick(Output::Callback(5)));
    h.to_accept.push_back(conn(vec![Tick { mint: 1, ..tick(Output::Nothing) }]));
    h.process(Some((Some(initial(QUIC_VERSION, &[7], &[8], &[])), dgram(1200))), 0);
    assert_eq!(h.server.connections_len(), 3);

    h.conns[0].script.push_back(Tick { closed: true, ..tick(Output::Nothing) });
    h.process(Some((Some(short(&[0xc0, 2])), dgram(20))), 1);
    assert_eq!(h.server.connection(&cid(&[0xc0, 1])), None);
    assert_eq!(h.server.connection(&cid(&[0xc0, 2])), None);
    assert_eq!(h.server.connection(&cid(&[0xc0, 3])), Some(1));
    assert_eq!(h.server.connections_len(), 1);

    // Its datagrams are dropped from now on.
    let seen = h.conns[0].seen.len();
    assert_eq!(h.process(Some((Some(short(&[0xc0, 1])), dgram(20))), 2), Sent::Out(Output::Nothing));
    assert_eq!(h.process(Some((Some(short(&[0xc0, 2])), dgram(20))), 2), Sent::Out(Output::Nothing));
    assert_eq!(h.conns[0].seen.len(), seen);
}

#[test]
fn closing_in_the_first_step_purges_what_it_minted() {
    let h = host_with_connection(true, Tick { closed: true, ..tick(Output::Nothing) });
    assert_eq!(h.server.accepted(), 1);
    assert_eq!(h.server.connections_len(), 0);
}

#[test]
fn active_connections_drain() {
    let mut h = host_with_connection(false, Tick { has_events: true, ..tick(Output::Nothing) });
    h.to_accept.push_back(conn(vec![Tick { mint: 1, has_events: true, ..tick(Output::Nothing) }]));
    h.process(Some((Some(initial(QUIC_VERSION, &[7], &[8], &[])), dgram(1200))), 0);
    // Events twice on one connection count once.
    h.conns[0].script.push_back(Tick { has_events: true, ..tick(Output::Nothing) });
    h.process(Some((Some(short(&[0xc0, 1])), dgram(20))), 1);

    let first: Vec<usize> = h.server.active_connections().iter().map(|a| a.borrow()).collect();
    assert_eq!(first, vec![0, 1]);
    let second: Vec<ActiveConnectionRef> = h.server.active_connections();
    assert!(second.is_empty());

    // Without events nothing is listed.
    h.process(Some((Some(short(&[0xc0, 1])), dgram(20))), 2);
    assert!(h.server.active_connections().is_empty());
}

#[test]
fn active_refs_compare_by_connection() {
    let mut h = host_with_connection(false, Tick { has_events: true, ..tick(Output::Nothing) });
    let a = h.server.active_connections();
    h.conns[0].script.push_back(Tick { has_events: true, ..tick(Output::Nothing) });
    h.process(Some((Some(short(&[0xc0, 1])), dgram(20))), 1);
    let b = h.server.active_connections();
    assert_eq!(a, b);
    assert_eq!(a[0].borrow(), 0);
}

#[test]
fn reused_cid_goes_to_the_last_owner() {
    struct Fixed;
    impl ConnectionIdManager for Fixed {
        fn generate_cid(&mut self) -> ConnectionId {
            ConnectionId::new(vec![1])
        }
    }
    let mut s = Server::new(Vec::new(), Vec::new(), Fixed);
    let a = s.accept_connection(0);
    let b = s.accept_connection(0);
    assert_eq!((a, b), (0, 1));
    assert_eq!(s.generate_cid(a), ConnectionId::new(vec![1]));
    assert_eq!(s.connection(&ConnectionId::new(vec![1])), Some(0));
    s.generate_cid(b);
    assert_eq!(s.connection(&ConnectionId::new(vec![1])), Some(1));
    assert_eq!(s.connections_len(), 1);
    s.register_cid(a, &ConnectionId::new(vec![2, 3]));
    assert_eq!(s.connection(&ConnectionId::new(vec![2, 3])), Some(0));
    assert_eq!(s.connection(&ConnectionId::new(vec![1])), Some(1));
    assert_eq!(s.connections_len(), 2);
}

#[test]
fn new_server_holds_its_configuration() {
    let h = host();
    assert_eq!(h.server.version(), QUIC_VERSION);
    assert_eq!(h.server.certs(), &vec![String::from("key")]);
    assert_eq!(h.server.protocols(), &vec![String::from("alpn")]);
    assert_eq!(h.server.cid_manager().next, 0);
    assert_eq!(h.server.accepted(), 0);
    assert_eq!(h.server.next_time(0), None);
}

#[test]
fn create_vn_and_retry_swap_addresses() {
    let mut h = host();
    let hdr = initial(5, &[1, 2], &[3], &[]);
    let vn = h.server.create_vn(&hdr, &dgram(1200));
    assert_eq!((vn.src, vn.dst), (listener(), client()));
    assert_eq!(vn.hdr.version, Some(0));
    let retry = h.server.create_retry(&hdr, &dgram(1200), cid(&[6, 6]));
    assert_eq!((retry.src, retry.dst), (listener(), client()));
    assert_eq!(
        retry.hdr,
        PacketHdr::new(
            0,
            PacketType::Retry { odcid: cid(&[1, 2]), token: vec![1, 2, 3, 1, 2] },
            Some(QUIC_VERSION),
            cid(&[3]),
            Some(cid(&[6, 6])),
            0,
            0,
        )
    );
}

#[test]
fn remove_timer_by_hand() {
    let mut h = host_with_connection(false, tick(Output::Callback(30)));
    h.server.remove_timer(0);
    assert_eq!(h.server.timers_len(), 0);
    h.server.remove_timer(0);
    assert_eq!(h.server.timers_len(), 0);
}
