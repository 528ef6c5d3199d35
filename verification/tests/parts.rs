use quic_dispatch::{
    Address, ConnectionId, ConnectionTable, Datagram, InitialResult, Output, PacketHdr,
    PacketType, RetryToken, RetryTokenResult, Timer,
};

fn hdr(tipe: PacketType) -> PacketHdr {
    PacketHdr::new(
        0,
        tipe,
        Some(1),
        ConnectionId::new(vec![1]),
        Some(ConnectionId::new(vec![2])),
        0,
        0,
    )
}

#[test]
fn token_is_prefix_and_cid() {
    let mut r = RetryToken::new();
    let token = r.generate_token(&ConnectionId::new(vec![0x11, 0x22, 0x33, 0x44]));
    assert_eq!(token, vec![1, 2, 3, 0x11, 0x22, 0x33, 0x44]);
    assert_eq!(r.generate_token(&ConnectionId::new(vec![])), vec![1, 2, 3]);
    assert!(!r.is_retry_required());
}

#[test]
fn validate_empty_token() {
    let mut r = RetryToken::default();
    assert!(!r.is_retry_required());
    assert_eq!(r.validate(&hdr(PacketType::Initial(vec![]))), RetryTokenResult::Pass);
    r.set_retry_required(true);
    assert!(r.is_retry_required());
    assert_eq!(r.validate(&hdr(PacketType::Initial(vec![]))), RetryTokenResult::Validate);
    r.set_retry_required(false);
    assert_eq!(r.validate(&hdr(PacketType::Initial(vec![]))), RetryTokenResult::Pass);
}

#[test]
fn validate_own_token() {
    let mut r = RetryToken::new();
    for required in [false, true] {
        r.set_retry_required(required);
        assert_eq!(
            r.validate(&hdr(PacketType::Initial(vec![1, 2, 3, 9, 8, 7]))),
            RetryTokenResult::Valid(ConnectionId::new(vec![9, 8, 7]))
        );
        assert_eq!(
            r.validate(&hdr(PacketType::Initial(vec![1, 2, 3]))),
            RetryTokenResult::Valid(ConnectionId::new(vec![]))
        );
        let cid = ConnectionId::new(vec![5; 20]);
        let token = r.generate_token(&cid);
        assert_eq!(r.validate(&hdr(PacketType::Initial(token))), RetryTokenResult::Valid(cid));
    }
}

#[test]
fn validate_foreign_token() {
    let mut r = RetryToken::new();
    for required in [false, true] {
        r.set_retry_required(required);
        for token in [vec![1], vec![1, 2], vec![0, 2, 3, 4], vec![1, 2, 4], vec![3, 2, 1, 1, 2, 3]] {
            assert_eq!(r.validate(&hdr(PacketType::Initial(token))), RetryTokenResult::Invalid);
        }
    }
}

#[test]
fn validate_other_packet_types() {
    let mut r = RetryToken::new();
    r.set_retry_required(true);
    assert_eq!(r.validate(&hdr(PacketType::Short)), RetryTokenResult::Invalid);
    assert_eq!(r.validate(&hdr(PacketType::Handshake)), RetryTokenResult::Invalid);
    assert_eq!(r.validate(&hdr(PacketType::ZeroRTT)), RetryTokenResult::Invalid);
    assert_eq!(r.validate(&hdr(PacketType::VN(vec![1]))), RetryTokenResult::Invalid);
    let retry = PacketType::Retry { odcid: ConnectionId::new(vec![1]), token: vec![1, 2, 3, 4] };
    assert_eq!(r.validate(&hdr(retry)), RetryTokenResult::Invalid);
}

#[test]
fn initial_result_variants() {
    assert_ne!(InitialResult::Accept, InitialResult::Drop);
    assert_eq!(InitialResult::Retry(vec![1, 2, 3]), InitialResult::Retry(vec![1, 2, 3]));
}

#[test]
fn connection_id_bytes() {
    let a = ConnectionId::from_bytes(&[1, 2, 3]);
    assert_eq!(a.as_bytes(), &[1, 2, 3]);
    assert_eq!(a.len(), 3);
    assert!(!a.is_empty());
    assert!(ConnectionId::new(Vec::new()).is_empty());
    assert!(a.same(&ConnectionId::new(vec![1, 2, 3])));
    assert!(!a.same(&ConnectionId::new(vec![1, 2])));
    assert!(!a.same(&ConnectionId::new(vec![1, 2, 4])));
    assert_eq!(a.duplicate(), a);
}

#[test]
fn datagram_parts() {
    let src = Address::V4 { ip: 1, port: 2 };
    let dst = Address::V6 { ip: 3, port: 4, flowinfo: 5, scope_id: 6 };
    let d = Datagram::new(src, dst, vec![7, 8]);
    assert_eq!(d.source(), src);
    assert_eq!(d.destination(), dst);
    assert_eq!(d.len(), 2);
    assert_eq!(d.data(), &[7, 8]);
}

#[test]
fn output_dgram() {
    let d = Datagram::new(Address::V4 { ip: 1, port: 2 }, Address::V4 { ip: 3, port: 4 }, vec![]);
    assert_eq!(Output::Datagram(d.clone()).dgram(), Some(d));
    assert_eq!(Output::Callback(5).dgram(), None);
    assert_eq!(Output::Nothing.dgram(), None);
}

#[test]
fn timers_fall_due_in_order() {
    let mut t = Timer::new();
    assert_eq!(t.next_time(), None);
    assert_eq!(t.take_next(100), None);
    t.add(30, 3);
    t.add(10, 1);
    t.add(20, 2);
    t.add(10, 4);
    assert_eq!(t.len(), 4);
    assert_eq!(t.next_time(), Some(10));
    assert_eq!(t.take_next(9), None);
    // Of two timers for one instant, the one set first comes first.
    assert_eq!(t.take_next(10), Some(1));
    assert_eq!(t.take_next(10), Some(4));
    assert_eq!(t.take_next(10), None);
    assert_eq!(t.next_time(), Some(20));
    assert_eq!(t.take_next(1000), Some(2));
    assert_eq!(t.take_next(1000), Some(3));
    assert_eq!(t.take_next(1000), None);
    assert_eq!(t.len(), 0);
}

#[test]
fn timer_remove_needs_instant_and_connection() {
    let mut t = Timer::new();
    t.add(10, 1);
    t.add(10, 2);
    t.add(20, 1);
    assert!(!t.remove(10, 3));
    assert!(!t.remove(15, 1));
    assert_eq!(t.len(), 3);
    assert!(t.remove(10, 1));
    assert!(!t.remove(10, 1));
    assert_eq!(t.len(), 2);
    assert_eq!(t.take_next(100), Some(2));
    assert_eq!(t.take_next(100), Some(1));
}

#[test]
fn table_insert_get_purge() {
    let mut t = ConnectionTable::new();
    let a = ConnectionId::new(vec![1]);
    let b = ConnectionId::new(vec![1, 0]);
    let c = ConnectionId::new(vec![2]);
    assert_eq!(t.get(&a), None);
    assert_eq!(t.insert(a.clone(), 7), None);
    assert_eq!(t.insert(b.clone(), 8), None);
    assert_eq!(t.insert(c.clone(), 7), None);
    assert_eq!(t.len(), 3);
    assert_eq!(t.get(&a), Some(7));
    assert_eq!(t.get(&b), Some(8));
    assert_eq!(t.insert(b.clone(), 9), Some(8));
    assert_eq!(t.get(&b), Some(9));
    assert_eq!(t.len(), 3);
    t.purge(7);
    assert_eq!(t.get(&a), None);
    assert_eq!(t.get(&c), None);
    assert_eq!(t.get(&b), Some(9));
    assert_eq!(t.len(), 1);
    t.purge(7);
    assert_eq!(t.len(), 1);
}
