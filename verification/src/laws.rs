//! What holds of the dispatcher whatever the host reports: the invariant is
//! kept by every step, and the rules of routing, of replies without state,
//! of timers and of dormancy follow from the steps' definitions.

use crate::model::{
    after_call, after_calls, call_ok, calls_ok, event_ok, reply_to, retry_header, vn_header,
    ActionView, CallView, Decision, EventView, ServerView, GREASE_VERSION,
    MIN_INITIAL_PACKET_SIZE,
};
use crate::packet::{DatagramView, OutputView, PacketHdrView, PacketTypeView};
use crate::retry::{fixed_token, lemma_token_round_trip, token_for};
use crate::table::owns_some;
use crate::timer::{has_due, lemma_with_timer, lemma_without_timer, with_timer, without_timer};
use vstd::prelude::*;

verus! {

/// A server that has seen nothing yet is in order.
pub proof fn lemma_init_inv(version: u32, certs: Seq<String>, protocols: Seq<String>)
    ensures
        ServerView::init(version, certs, protocols).inv(),
{
}

/// A change of the policy on Retry keeps the server in order.
pub proof fn lemma_set_retry_required_inv(s: ServerView, require_retry: bool)
    requires
        s.inv(),
    ensures
        s.set_retry_required(require_retry).inv(),
{
    let t = s.set_retry_required(require_retry);
    assert(t.timers == s.timers);
    assert forall|i: int| 0 <= i < t.timers.len() implies t.knows((#[trigger] t.timers[i]).1)
        && t.timers[i].0 == t.last_timer[t.timers[i].1 as int] by {
        assert(s.knows(s.timers[i].1));
    }
}

/// Taking the timer of a connection away keeps the server in order, and
/// leaves the connection without a timer.
pub proof fn lemma_remove_timer_inv(s: ServerView, c: usize)
    requires
        s.inv(),
        s.knows(c),
    ensures
        s.remove_timer(c).inv(),
        forall|i: int|
            0 <= i < s.remove_timer(c).timers.len() ==> (#[trigger] s.remove_timer(
                c,
            ).timers[i]).1 != c,
{
    let last = s.last_timer[c as int];
    let w = without_timer(s.timers, last, c);
    lemma_without_timer(s.timers, last, c);
    assert forall|i: int| 0 <= i < w.len() implies s.knows((#[trigger] w[i]).1) && w[i].0
        == s.last_timer[w[i].1 as int] && w[i].1 != c by {
        assert(w.contains(w[i]));
        assert(s.timers.contains(w[i]));
        let j = choose|j: int| 0 <= j < s.timers.len() && s.timers[j] == w[i];
        assert(s.knows(s.timers[j].1));
        if w[i].1 == c {
            assert(s.timers[j] == (last, c));
            assert(s.timers.contains((last, c)));
        }
    }
}

/// Moving the timer of a connection keeps the server in order.
pub proof fn lemma_set_timer_inv(s: ServerView, c: usize, next: u64)
    requires
        s.inv(),
        s.knows(c),
    ensures
        s.set_timer(c, next).inv(),
{
    let last = s.last_timer[c as int];
    let w = without_timer(s.timers, last, c);
    lemma_remove_timer_inv(s, c);
    assert(s.remove_timer(c).timers == w);
    lemma_with_timer(w, next, c);
    let r = with_timer(w, next, c);
    let t = s.set_timer(c, next);
    assert(t.timers == r);
    assert forall|i: int| 0 <= i < r.len() implies t.knows((#[trigger] r[i]).1) && r[i].0
        == t.last_timer[r[i].1 as int] by {
        assert(r.contains(r[i]));
        if r[i] != (next, c) {
            assert(w.contains(r[i]));
            let j = choose|j: int| 0 <= j < w.len() && w[j] == r[i];
            assert(s.remove_timer(c).knows(w[j].1));
            assert(w[j].1 != c);
        }
    }
}

/// A connection that joins those with events keeps the server in order.
pub proof fn lemma_mark_active_inv(s: ServerView, c: usize)
    requires
        s.inv(),
        s.knows(c),
    ensures
        s.mark_active(c).inv(),
{
}

/// Fetching the events keeps the server in order.
pub proof fn lemma_drained_inv(s: ServerView)
    requires
        s.inv(),
    ensures
        s.drained().inv(),
{
}

/// Recording what a connection answered keeps the server in order.
pub proof fn lemma_schedule_inv(s: ServerView, c: usize, out: OutputView, now: u64)
    requires
        s.inv(),
        s.knows(c),
    ensures
        s.schedule(c, out, now).inv(),
{
    match out {
        OutputView::Datagram(_) => {},
        OutputView::Callback(delay) => {
            if now + delay != s.last_timer[c as int] {
                lemma_set_timer_inv(s, c, (now + delay) as u64);
            }
        },
        OutputView::Nothing => {
            lemma_remove_timer_inv(s, c);
        },
    }
}

/// Whatever a connection reports, the server stays in order.
pub proof fn lemma_process_connection_inv(
    s: ServerView,
    c: usize,
    out: OutputView,
    has_events: bool,
    closed: bool,
    now: u64,
)
    requires
        s.inv(),
        s.knows(c),
    ensures
        s.process_connection(c, out, has_events, closed, now).inv(),
{
    lemma_schedule_inv(s, c, out, now);
    let s1 = s.schedule(c, out, now);
    assert(s1.knows(c));
    let s2 = if has_events {
        s1.mark_active(c)
    } else {
        s1
    };
    assert(s2.inv());
}

/// Taking the next connection from where it stood keeps the server in
/// order, and that connection is one that the server accepted.
pub proof fn lemma_take_next_inv(s: ServerView, now: u64)
    requires
        s.inv(),
    ensures
        s.take_next(now).inv(),
        match s.next_connection(now) {
            Some(c) => s.knows(c),
            None => true,
        },
{
    if s.waiting.len() > 0 {
        assert(s.knows(s.waiting[0]));
        let w = s.waiting.skip(1);
        assert forall|i: int| 0 <= i < w.len() implies s.knows(#[trigger] w[i]) by {
            assert(w[i] == s.waiting[i + 1]);
        }
    } else if has_due(s.timers, now) {
        assert(s.knows(s.timers[0].1));
        let t = s.timers.skip(1);
        assert forall|i: int| 0 <= i < t.len() implies t[i] == s.timers[i + 1] by {}
        let r = s.take_next(now);
        assert(r.timers == t);
        assert forall|i: int| 0 <= i < t.len() implies r.knows((#[trigger] t[i]).1) && t[i].0
            == r.last_timer[t[i].1 as int] by {
            assert(t[i] == s.timers[i + 1]);
        }
        assert forall|i: int, j: int|
            0 <= i < t.len() && 0 <= j < t.len() && i != j implies t[i].1 != t[j].1 by {
            assert(t[i] == s.timers[i + 1]);
            assert(t[j] == s.timers[j + 1]);
        }
        assert forall|i: int, j: int| 0 <= i <= j < t.len() implies t[i].0 <= t[j].0 by {
            assert(t[i] == s.timers[i + 1]);
            assert(t[j] == s.timers[j + 1]);
        }
    }
}

/// A new connection keeps the server in order.
pub proof fn lemma_accept_connection_inv(s: ServerView, now: u64)
    requires
        s.inv(),
    ensures
        s.accept_connection(now).inv(),
        s.accept_connection(now).knows(s.last_timer.len() as usize),
{
}

/// A new connection ID that is not empty, for a connection that the server
/// accepted, keeps the server in order.
pub proof fn lemma_register_inv(s: ServerView, cid: Seq<u8>, c: usize)
    requires
        s.inv(),
        s.knows(c),
        cid.len() > 0,
    ensures
        s.register(cid, c).inv(),
{
}

/// Every step keeps the server in order: each connection has at most one
/// timer, which falls due at the instant recorded for the connection, and
/// every connection that the table, the queue, the timers or the events
/// name is one that the server accepted.
pub proof fn lemma_step_inv(s: ServerView, ev: EventView, now: u64, scid: Seq<u8>)
    requires
        s.inv(),
        event_ok(s, ev, now),
    ensures
        s.step(ev, now, scid).0.inv(),
{
    match ev {
        EventView::Input { hdr, dgram } => {
            lemma_take_next_inv(s, now);
        },
        EventView::NoInput => {
            lemma_take_next_inv(s, now);
        },
        EventView::Processed { c, out, has_events, closed } => {
            lemma_process_connection_inv(s, c, out, has_events, closed, now);
            lemma_take_next_inv(s.process_connection(c, out, has_events, closed, now), now);
        },
    }
}

/// Every call keeps the server in order.
pub proof fn lemma_call_inv(s: ServerView, call: CallView)
    requires
        s.inv(),
        call_ok(s, call),
    ensures
        after_call(s, call).inv(),
{
    match call {
        CallView::Process { ev, now, scid } => lemma_step_inv(s, ev, now, scid),
        CallView::AcceptConnection { now } => lemma_accept_connection_inv(s, now),
        CallView::GenerateCid { cid, c } => lemma_register_inv(s, cid, c),
        CallView::SetRetryRequired { require_retry } => lemma_set_retry_required_inv(
            s,
            require_retry,
        ),
        CallView::ActiveConnections => lemma_drained_inv(s),
    }
}

/// After any sequence of calls on a new server, each connection has at most
/// one timer, and that timer falls due at the instant recorded for the
/// connection.
pub proof fn lemma_timers_agree_always(
    version: u32,
    certs: Seq<String>,
    protocols: Seq<String>,
    calls: Seq<CallView>,
)
    requires
        calls_ok(ServerView::init(version, certs, protocols), calls),
    ensures
        after_calls(ServerView::init(version, certs, protocols), calls).inv(),
        after_calls(ServerView::init(version, certs, protocols), calls).timers_agree(),
    decreases calls.len(),
{
    let s = ServerView::init(version, certs, protocols);
    if calls.len() == 0 {
        lemma_init_inv(version, certs, protocols);
    } else {
        lemma_timers_agree_always(version, certs, protocols, calls.drop_last());
        lemma_call_inv(after_calls(s, calls.drop_last()), calls.last());
    }
}

/// A datagram for a connection ID in the table goes to the connection that
/// owns it, whole, and to no other; nothing else changes.
pub proof fn lemma_routing(
    s: ServerView,
    hdr: PacketHdrView,
    dgram: DatagramView,
    now: u64,
    scid: Seq<u8>,
)
    requires
        s.connections.contains_key(hdr.dcid),
    ensures
        s.step(EventView::Input { hdr: Some(hdr), dgram }, now, scid) == (
            s,
            ActionView::Process { c: s.connections[hdr.dcid], dgram: Some(dgram) },
        ),
{
}

/// Where a datagram goes depends on its first header alone: two datagrams
/// with the same first header, for a connection ID in the table, go to the
/// same connection, each as one piece.
pub proof fn lemma_coalescing(
    s: ServerView,
    hdr: PacketHdrView,
    d1: DatagramView,
    d2: DatagramView,
    now: u64,
    scid: Seq<u8>,
)
    requires
        s.connections.contains_key(hdr.dcid),
    ensures
        s.step(EventView::Input { hdr: Some(hdr), dgram: d1 }, now, scid).1
            == (ActionView::Process { c: s.connections[hdr.dcid], dgram: Some(d1) }),
        s.step(EventView::Input { hdr: Some(hdr), dgram: d2 }, now, scid).1
            == (ActionView::Process { c: s.connections[hdr.dcid], dgram: Some(d2) }),
{
}

/// A datagram of fewer than 1200 bytes for a connection ID that is not in
/// the table is dropped: the server goes on as if none had come.
pub proof fn lemma_short_datagram_dropped(
    s: ServerView,
    hdr: PacketHdrView,
    dgram: DatagramView,
    now: u64,
    scid: Seq<u8>,
)
    requires
        !s.connections.contains_key(hdr.dcid),
        dgram.d.len() < MIN_INITIAL_PACKET_SIZE,
    ensures
        s.decide(Some(hdr), dgram) == Decision::Drop,
        s.step(EventView::Input { hdr: Some(hdr), dgram }, now, scid) == s.step(
            EventView::NoInput,
            now,
            scid,
        ),
{
}

/// A packet with a short header for a connection ID that is not in the
/// table is dropped, and so is a datagram whose first header does not
/// decode.
pub proof fn lemma_unknown_dropped(
    s: ServerView,
    hdr: Option<PacketHdrView>,
    dgram: DatagramView,
    now: u64,
    scid: Seq<u8>,
)
    requires
        match hdr {
            Some(h) => !s.connections.contains_key(h.dcid) && h.tipe == PacketTypeView::Short,
            None => true,
        },
    ensures
        s.decide(hdr, dgram) == Decision::Drop,
        s.step(EventView::Input { hdr, dgram }, now, scid) == s.step(
            EventView::NoInput,
            now,
            scid,
        ),
{
}

/// A connection is opened only for a datagram of 1200 bytes or more, whose
/// first packet is an Initial of the server's version for a connection ID
/// that is not in the table.
pub proof fn lemma_accept_needs_initial(
    s: ServerView,
    hdr: Option<PacketHdrView>,
    dgram: DatagramView,
    odcid: Option<Seq<u8>>,
)
    requires
        s.decide(hdr, dgram) == Decision::Accept(odcid),
    ensures
        dgram.d.len() >= MIN_INITIAL_PACKET_SIZE,
        hdr.is_some(),
        hdr.unwrap().tipe is Initial,
        hdr.unwrap().version == Some(s.version),
        !s.connections.contains_key(hdr.unwrap().dcid),
{
}

/// An Initial with a token that this server did not make is dropped.
pub proof fn lemma_foreign_token_dropped(
    s: ServerView,
    hdr: PacketHdrView,
    dgram: DatagramView,
    token: Seq<u8>,
)
    requires
        !s.connections.contains_key(hdr.dcid),
        hdr.tipe == PacketTypeView::Initial(token),
        token.len() > 0,
        !fixed_token().is_prefix_of(token),
    ensures
        s.decide(Some(hdr), dgram) == Decision::Drop || s.decide(Some(hdr), dgram)
            == Decision::VersionNegotiation,
        hdr.version == Some(s.version) ==> s.decide(Some(hdr), dgram) == Decision::Drop,
{
}

/// A long-header packet of another version, in a datagram of 1200 bytes or
/// more, for a connection ID that is not in the table, is answered with a
/// Version Negotiation packet: addresses and connection IDs change places,
/// and the versions offered are the server's and the reserved one. The
/// server keeps nothing of it.
pub proof fn lemma_version_negotiation(
    s: ServerView,
    hdr: PacketHdrView,
    dgram: DatagramView,
    now: u64,
    scid: Seq<u8>,
)
    requires
        !s.connections.contains_key(hdr.dcid),
        hdr.tipe != PacketTypeView::Short,
        hdr.scid.is_some(),
        dgram.d.len() >= MIN_INITIAL_PACKET_SIZE,
        hdr.version != Some(s.version),
    ensures
        s.step(EventView::Input { hdr: Some(hdr), dgram }, now, scid).0 == s,
        s.step(EventView::Input { hdr: Some(hdr), dgram }, now, scid).1 == ActionView::Reply(
            reply_to(dgram, vn_header(s.version, hdr)),
        ),
        reply_to(dgram, vn_header(s.version, hdr)).src == dgram.dst,
        reply_to(dgram, vn_header(s.version, hdr)).dst == dgram.src,
        vn_header(s.version, hdr).dcid == hdr.scid.unwrap(),
        vn_header(s.version, hdr).scid == Some(hdr.dcid),
        vn_header(s.version, hdr).tipe == PacketTypeView::VN(seq![s.version, GREASE_VERSION]),
{
}

/// Where the server asks for address validation, an Initial without a token
/// is answered with a Retry that carries the token for the Initial's
/// destination connection ID, and the server keeps nothing of it. An Initial
/// that brings this token back is accepted, whatever its own connection IDs
/// and whatever the policy by then, and the new connection is told the
/// destination connection ID of the first Initial.
pub proof fn lemma_retry_round_trip(
    s: ServerView,
    first: PacketHdrView,
    d1: DatagramView,
    t: ServerView,
    second: PacketHdrView,
    d2: DatagramView,
    now: u64,
    scid: Seq<u8>,
)
    requires
        s.require_retry,
        first.tipe == PacketTypeView::Initial(Seq::empty()),
        first.scid.is_some(),
        first.version == Some(s.version),
        !s.connections.contains_key(first.dcid),
        d1.d.len() >= MIN_INITIAL_PACKET_SIZE,
        second.tipe == PacketTypeView::Initial(token_for(first.dcid)),
        second.version == Some(t.version),
        !t.connections.contains_key(second.dcid),
        d2.d.len() >= MIN_INITIAL_PACKET_SIZE,
    ensures
        s.step(EventView::Input { hdr: Some(first), dgram: d1 }, now, scid) == (
            s,
            ActionView::Reply(reply_to(d1, retry_header(s.version, first, scid))),
        ),
        retry_header(s.version, first, scid).tipe == (PacketTypeView::Retry {
            odcid: first.dcid,
            token: token_for(first.dcid),
        }),
        retry_header(s.version, first, scid).dcid == first.scid.unwrap(),
        retry_header(s.version, first, scid).scid == Some(scid),
        t.step(EventView::Input { hdr: Some(second), dgram: d2 }, now, scid) == (
            t,
            ActionView::Accept { odcid: Some(first.dcid), dgram: d2 },
        ),
{
    lemma_token_round_trip(t.require_retry, first.dcid);
}

/// Where nothing waits and no timer is set, a server without input goes
/// dormant. Where nothing waits and the first timer has not fallen due, it
/// asks to be called after the time that is left until then, and no timer
/// falls due earlier.
pub proof fn lemma_dormancy(s: ServerView, now: u64, scid: Seq<u8>)
    requires
        s.inv(),
        s.waiting.len() == 0,
    ensures
        s.timers.len() == 0 ==> s.step(EventView::NoInput, now, scid) == (
            s,
            ActionView::Done(OutputView::Nothing),
        ),
        s.timers.len() > 0 && s.timers[0].0 > now ==> s.step(EventView::NoInput, now, scid) == (
            s,
            ActionView::Done(OutputView::Callback((s.timers[0].0 - now) as u64)),
        ),
        forall|i: int| 0 <= i < s.timers.len() ==> s.timers[0].0 <= (#[trigger] s.timers[i]).0,
{
}

/// When a connection reports that it is closed, none of its connection IDs
/// stays in the table, and every other connection keeps its own.
pub proof fn lemma_closed_purged(
    s: ServerView,
    c: usize,
    out: OutputView,
    has_events: bool,
    now: u64,
    scid: Seq<u8>,
)
    ensures
        !owns_some(s.process_connection(c, out, has_events, true, now).connections, c),
        !owns_some(
            s.step(EventView::Processed { c, out, has_events, closed: true }, now, scid).0.connections,
            c,
        ),
        forall|k: Seq<u8>|
            s.connections.contains_key(k) && s.connections[k] != c ==> #[trigger] s.process_connection(
                c,
                out,
                has_events,
                true,
                now,
            ).connections.contains_key(k) && s.process_connection(
                c,
                out,
                has_events,
                true,
                now,
            ).connections[k] == s.connections[k],
{
    let s1 = s.process_connection(c, out, has_events, true, now);
    let s2 = s.step(EventView::Processed { c, out, has_events, closed: true }, now, scid).0;
    assert(s2.connections == s1.connections);
}

/// Once the events are fetched, fetching them again finds none, and changes
/// nothing.
pub proof fn lemma_drained_twice(s: ServerView)
    ensures
        s.drained().active == Seq::<usize>::empty(),
        s.drained().drained() == s.drained(),
{
}

} // verus!
