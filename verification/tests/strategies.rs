//! Strategies that acknowledge packets before they have been received.
use quic_oack::connection::{Connection, Path};
use quic_oack::error::Error;
use quic_oack::flow::{FlowControl, Stream};
use quic_oack::oack::{OpportunistAck, OpportunistConstant, OpportunistMaxPn};
use quic_oack::packet::PktNumSpaces;
use quic_oack::time::{Duration, Instant};
use std::collections::{HashMap, HashSet};

const STREAM: u64 = 4;
const AT_ONCE: Option<Duration> = Some(Duration { nanos: 0 });
const GONE: Result<Stream, Error> = Err(Error::Done);

fn at(nanos: u64) -> Instant {
    Instant { nanos }
}

fn connection(max_data: u64) -> Connection {
    let flow_control = FlowControl { consumed: 0, max_data, window: 10_000 };
    let mut streams = HashMap::new();
    streams.insert(STREAM, Stream { drain: false, fin_off: None, flow_control });
    Connection {
        pkt_num_spaces: PktNumSpaces::new(at(0)),
        paths: vec![Path { recv_count: 0, recv_bytes: 0, rtt: Duration { nanos: 0 } }],
        streams,
        almost_full_streams: HashSet::new(),
        flow_control,
        rx_data: 0,
        almost_full: false,
        recv_count: 0,
        recv_bytes: 0,
        handshake_completed: true,
        ack_eliciting_sent: false,
        tx_cap_outdated: false,
        oack_scaling_factor: None,
        oack_first_app_pn: None,
        oack_max_app_pn: 0,
    }
}

/// The first and the last packet number that are to be acknowledged, and how many there are.
fn acknowledged(conn: &Connection) -> Option<(u64, u64, usize)> {
    let set = &conn.pkt_num_spaces.application.recv_pkt_need_ack;
    let last = set.last()?;
    let numbers: Vec<u64> = (0..last + 1).filter(|pn| set.contains(*pn)).collect();
    Some((numbers[0], last, numbers.len()))
}

#[test]
fn acknowledgments_run_ahead_of_the_received_packets() {
    let mut conn = connection(10_000_000);
    let mut strategy = OpportunistMaxPn::new(Some(10), None);
    assert_eq!(strategy.timeout(), None);

    // The shift grows by two with each packet, to 12 and then to 14.
    strategy.on_new_max_recv_pn(5);
    assert_eq!(strategy.timeout(), AT_ONCE);
    assert_eq!(strategy.on_timeout(&mut conn, STREAM, at(1), GONE), Ok(()));
    assert_eq!(acknowledged(&conn), Some((5, 16, 12)));
    assert_eq!(conn.recv_count, 12);
    assert_eq!(strategy.timeout(), None);

    strategy.on_new_max_recv_pn(16);
    assert_eq!(strategy.timeout(), AT_ONCE);
    assert_eq!(strategy.on_timeout(&mut conn, STREAM, at(2), GONE), Ok(()));
    assert_eq!(acknowledged(&conn), Some((5, 29, 25)));
    // The packets from 17 on are new: packet 16 was the last one to be acknowledged.
    assert_eq!(conn.recv_count, 25);
}

#[test]
fn same_packet_is_taken_note_of_once() {
    let mut conn = connection(10_000_000);
    let mut strategy = OpportunistMaxPn::new(Some(10), None);
    strategy.on_new_max_recv_pn(5);
    strategy.on_new_max_recv_pn(5);
    assert_eq!(strategy.on_timeout(&mut conn, STREAM, at(1), GONE), Ok(()));
    assert_eq!(acknowledged(&conn), Some((5, 16, 12)));
    strategy.on_new_max_recv_pn(5);
    assert_eq!(strategy.timeout(), None);
}

#[test]
fn packets_are_acknowledged_once_per_received_packet() {
    let mut conn = connection(10_000_000);
    let mut strategy = OpportunistMaxPn::new(Some(10), None);
    strategy.on_new_max_recv_pn(5);
    assert_eq!(strategy.on_timeout(&mut conn, STREAM, at(1), GONE), Ok(()));
    assert_eq!(conn.recv_count, 12);
    assert_eq!(strategy.on_timeout(&mut conn, STREAM, at(2), GONE), Ok(()));
    assert_eq!(conn.recv_count, 12);
    assert_eq!(conn.pkt_num_spaces.application.largest_rx_pkt_time, at(1));
}

#[test]
fn maximum_to_acknowledge_never_falls() {
    let mut conn = connection(10_000_000);
    let mut strategy = OpportunistMaxPn::new(Some(10), None);
    strategy.on_new_max_recv_pn(50);
    strategy.on_new_max_recv_pn(20);
    assert_eq!(strategy.on_timeout(&mut conn, STREAM, at(1), GONE), Ok(()));
    assert_eq!(acknowledged(&conn), Some((50, 61, 12)));
}

#[test]
fn large_shift_grows_as_it_grew_last() {
    // 3999 grows to 4001, and by two again from there.
    let mut conn = connection(100_000_000);
    let mut strategy = OpportunistMaxPn::new(Some(3_999), None);
    strategy.on_new_max_recv_pn(1);
    strategy.on_new_max_recv_pn(2);
    assert_eq!(strategy.on_timeout(&mut conn, STREAM, at(1), GONE), Ok(()));
    assert_eq!(acknowledged(&conn), Some((1, 2 + 4_003 - 1, 4_004)));

    // A shift that starts at 4000 has not grown yet, and never does.
    let mut conn = connection(100_000_000);
    let mut strategy = OpportunistMaxPn::new(Some(4_000), None);
    strategy.on_new_max_recv_pn(1);
    strategy.on_new_max_recv_pn(2);
    assert_eq!(strategy.on_timeout(&mut conn, STREAM, at(1), GONE), Ok(()));
    assert_eq!(acknowledged(&conn), Some((1, 2 + 4_000 - 1, 4_001)));
}

#[test]
fn shift_waits_for_the_lag() {
    let mut conn = connection(10_000_000);
    let mut strategy = OpportunistMaxPn::new(Some(10), Some(3));
    strategy.on_new_max_recv_pn(5);
    strategy.on_new_max_recv_pn(8);
    assert_eq!(strategy.timeout(), AT_ONCE);
    assert_eq!(strategy.on_timeout(&mut conn, STREAM, at(1), GONE), Ok(()));
    assert_eq!(acknowledged(&conn), None);
    assert_eq!(strategy.timeout(), AT_ONCE);
    strategy.on_new_max_recv_pn(9);
    assert_eq!(strategy.on_timeout(&mut conn, STREAM, at(1), GONE), Ok(()));
    assert_eq!(acknowledged(&conn), Some((5, 20, 16)));
}

#[test]
fn without_a_shift_nothing_is_acknowledged() {
    let mut conn = connection(10_000_000);
    let mut strategy = OpportunistMaxPn::new(None, Some(3));
    for pn in [0, 4, 40] {
        strategy.on_new_max_recv_pn(pn);
        assert_eq!(strategy.on_timeout(&mut conn, STREAM, at(1), GONE), Ok(()));
    }
    assert_eq!(acknowledged(&conn), None);
}

#[test]
fn packet_zero_is_no_first_packet() {
    let mut conn = connection(10_000_000);
    let mut strategy = OpportunistMaxPn::new(Some(10), None);
    strategy.on_new_max_recv_pn(0);
    assert_eq!(strategy.timeout(), None);
    assert_eq!(strategy.on_timeout(&mut conn, STREAM, at(1), GONE), Ok(()));
    assert_eq!(acknowledged(&conn), None);
}

#[test]
fn refusal_of_the_connection_is_passed_over() {
    let mut conn = connection(1_000);
    let mut strategy = OpportunistMaxPn::new(Some(10), None);
    strategy.on_new_max_recv_pn(5);
    assert_eq!(strategy.on_timeout(&mut conn, STREAM, at(1), GONE), Ok(()));
    assert_eq!(acknowledged(&conn), Some((5, 5, 1)));
    assert_eq!(strategy.timeout(), None);
}

#[test]
fn acknowledgments_do_not_feed_back() {
    let mut conn = connection(10_000_000);
    conn.oack_max_app_pn = 5;
    let mut strategy = OpportunistMaxPn::new(Some(10), None);
    strategy.on_new_max_recv_pn(conn.oack_get_max_pn());
    assert_eq!(strategy.on_timeout(&mut conn, STREAM, at(1), GONE), Ok(()));
    assert_eq!(acknowledged(&conn), Some((5, 16, 12)));
    strategy.on_new_max_recv_pn(conn.oack_get_max_pn());
    assert_eq!(strategy.timeout(), None);
    assert_eq!(strategy.on_timeout(&mut conn, STREAM, at(2), GONE), Ok(()));
    assert_eq!(acknowledged(&conn), Some((5, 16, 12)));
}

#[test]
fn packet_numbers_that_get_too_large_are_seen_beforehand() {
    let strategy = OpportunistMaxPn::new(Some(10), None);
    assert!(strategy.can_receive(u64::MAX - 12));
    assert!(!strategy.can_receive(u64::MAX - 11));
    let strategy = OpportunistMaxPn::new(Some(u64::MAX), None);
    assert!(strategy.can_receive(0));
    assert!(!strategy.can_receive(1));
    let strategy = OpportunistMaxPn::new(Some(10), Some(u64::MAX));
    assert!(strategy.can_receive(0));
    assert!(!strategy.can_receive(1));
    let strategy = OpportunistMaxPn::new(None, Some(u64::MAX));
    assert!(strategy.can_receive(u64::MAX));
    let strategy = OpportunistMaxPn::new(Some(10), Some(5));
    assert!(strategy.can_receive(u64::MAX - 5));
}

#[test]
fn activity_is_remembered() {
    let mut strategy = OpportunistMaxPn::new(None, None);
    assert!(!strategy.is_active());
    strategy.set_active(true);
    assert!(strategy.is_active());
    strategy.set_active(false);
    assert!(!strategy.is_active());
}

#[test]
fn constant_range_starts_at_the_first_packet() {
    let mut conn = connection(0);
    let mut strategy = OpportunistConstant::new(10..15, None);
    assert!(strategy.is_active());
    strategy.set_active();
    assert_eq!(strategy.timeout(), None);
    strategy.on_new_max_recv_pn(100);
    assert_eq!(strategy.timeout(), AT_ONCE);
    // The packets of the range are never charged, so that no room is needed.
    assert_eq!(strategy.on_timeout(&mut conn, STREAM, at(1), GONE), Ok(()));
    assert_eq!(acknowledged(&conn), Some((110, 114, 5)));
    assert_eq!(conn.recv_count, 0);
    assert_eq!(strategy.timeout(), None);
    assert_eq!(strategy.on_timeout(&mut conn, STREAM, at(1), GONE), Ok(()));

    // The range moves only once.
    strategy.on_new_max_recv_pn(500);
    assert_eq!(strategy.timeout(), AT_ONCE);
    assert_eq!(strategy.on_timeout(&mut conn, STREAM, at(2), GONE), Ok(()));
    assert_eq!(acknowledged(&conn), Some((110, 114, 5)));
}

#[test]
fn repeated_packet_does_not_call_for_the_constant_range() {
    let mut conn = connection(0);
    let mut strategy = OpportunistConstant::new(0..10, None);
    strategy.on_new_max_recv_pn(7);
    assert_eq!(strategy.on_timeout(&mut conn, STREAM, at(1), GONE), Ok(()));
    strategy.on_new_max_recv_pn(7);
    assert_eq!(strategy.timeout(), None);
    strategy.on_new_max_recv_pn(8);
    assert_eq!(strategy.timeout(), AT_ONCE);
}

#[test]
fn constant_range_waits_for_the_lag() {
    let mut strategy = OpportunistConstant::new(0..3, Some(10));
    strategy.on_new_max_recv_pn(100);
    assert_eq!(strategy.timeout(), None);
    strategy.on_new_max_recv_pn(110);
    assert_eq!(strategy.timeout(), None);
    strategy.on_new_max_recv_pn(40);
    assert_eq!(strategy.timeout(), None);
    strategy.on_new_max_recv_pn(111);
    assert_eq!(strategy.timeout(), AT_ONCE);
}

#[test]
fn constant_range_ends_at_the_largest_packet_number() {
    let mut conn = connection(0);
    let mut strategy = OpportunistConstant::new(u64::MAX - 2..u64::MAX, None);
    strategy.on_new_max_recv_pn(9);
    assert_eq!(strategy.on_timeout(&mut conn, STREAM, at(1), GONE), Ok(()));
    assert_eq!(conn.pkt_num_spaces.application.recv_pkt_num.last(), None);
}

#[test]
fn strategy_is_chosen_by_the_trace() {
    let mut conn = connection(10_000_000);
    let mut strategy = match OpportunistAck::new(None, &Vec::new(), Some(10), None) {
        Ok(strategy) => strategy,
        Err(_) => panic!("no strategy"),
    };
    assert!(matches!(strategy, OpportunistAck::MaxPn(_)));
    assert!(!strategy.is_active());
    strategy.set_active(true);
    assert!(strategy.is_active());
    assert_eq!(strategy.timeout(at(1)), None);
    assert!(strategy.can_receive(5));
    assert!(!strategy.can_receive(u64::MAX));
    strategy.on_new_max_recv_pn(5);
    assert_eq!(strategy.timeout(at(2)), AT_ONCE);
    assert!(strategy.can_fire(&conn, STREAM, at(3), at(4), GONE));
    assert_eq!(strategy.on_timeout(&mut conn, STREAM, at(3), at(4), GONE), Ok(()));
    assert_eq!(acknowledged(&conn), Some((5, 16, 12)));
    assert_eq!(conn.pkt_num_spaces.application.largest_rx_pkt_time, at(4));
}

#[test]
fn constant_strategy_behind_the_common_interface() {
    let mut conn = connection(0);
    let mut strategy = OpportunistAck::Constant(OpportunistConstant::new(1..3, None));
    strategy.set_active(false);
    assert!(strategy.is_active());
    assert!(strategy.can_receive(u64::MAX));
    strategy.on_new_max_recv_pn(7);
    assert_eq!(strategy.timeout(at(1)), AT_ONCE);
    assert_eq!(strategy.on_timeout(&mut conn, STREAM, at(1), at(1), GONE), Ok(()));
    assert_eq!(acknowledged(&conn), Some((8, 9, 2)));
    assert_eq!(strategy.timeout(at(1)), None);
    conn.rx_data = 1;
    strategy.on_new_max_recv_pn(8);
    assert!(strategy.can_fire(&conn, STREAM, at(1), at(1), GONE));
}
