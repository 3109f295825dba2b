//! Insertion of opportunistic acknowledgments into a connection.
use quic_oack::connection::{Connection, Path};
use quic_oack::error::Error;
use quic_oack::flow::{FlowControl, Stream};
use quic_oack::packet::{Epoch, PktNumSpaces};
use quic_oack::time::{Duration, Instant};
use std::collections::{HashMap, HashSet};

const STREAM: u64 = 4;

fn at(nanos: u64) -> Instant {
    Instant { nanos }
}

fn flow(consumed: u64, max_data: u64, window: u64) -> FlowControl {
    FlowControl { consumed, max_data, window }
}

fn stream(drain: bool) -> Stream {
    Stream { drain, fin_off: None, flow_control: flow(0, 1_000_000, 10_000) }
}

/// An established connection with one path and one stream, which may receive `max_data` bytes.
fn connection(max_data: u64) -> Connection {
    let mut streams = HashMap::new();
    streams.insert(STREAM, stream(false));
    Connection {
        pkt_num_spaces: PktNumSpaces::new(at(1)),
        paths: vec![Path { recv_count: 0, recv_bytes: 0, rtt: Duration { nanos: 25 } }],
        streams,
        almost_full_streams: HashSet::new(),
        flow_control: flow(0, max_data, 10_000),
        rx_data: 0,
        almost_full: false,
        recv_count: 0,
        recv_bytes: 0,
        handshake_completed: true,
        ack_eliciting_sent: true,
        tx_cap_outdated: false,
        oack_scaling_factor: None,
        oack_first_app_pn: None,
        oack_max_app_pn: 0,
    }
}

fn acknowledged(conn: &Connection, pn: u64) -> bool {
    let space = &conn.pkt_num_spaces.application;
    let received = space.recv_pkt_num.contains(pn);
    assert_eq!(received, space.recv_pkt_need_ack.contains(pn));
    received
}

#[test]
fn inserted_packets_are_recorded_and_counted() {
    let mut conn = connection(100_000);
    let outcome = conn.insert_oack_app(10..13, at(7), STREAM, 0, Err(Error::StreamLimit));
    assert_eq!(outcome, Ok(()));
    assert!(!acknowledged(&conn, 9));
    assert!(acknowledged(&conn, 10));
    assert!(acknowledged(&conn, 11));
    assert!(acknowledged(&conn, 12));
    assert!(!acknowledged(&conn, 13));
    let space = &conn.pkt_num_spaces.application;
    assert_eq!(space.largest_rx_pkt_num, 12);
    assert_eq!(space.largest_rx_pkt_time, at(7));
    assert!(space.ack_elicited);
    assert_eq!(conn.oack_get_max_pn(), 0);
    assert_eq!(conn.recv_count, 3);
    assert_eq!(conn.recv_bytes, 3_600);
    assert_eq!(conn.paths[0].recv_count, 3);
    assert_eq!(conn.paths[0].recv_bytes, 3_600);
    assert_eq!(conn.rx_data, 3_600);
    assert_eq!(conn.flow_control.consumed, 3_600);
    assert_eq!(conn.streams[&STREAM].flow_control.consumed, 3_600);
    assert!(!conn.ack_eliciting_sent);
    assert!(conn.tx_cap_outdated);
    assert!(!conn.almost_full);
    assert!(conn.almost_full_streams.is_empty());
}

#[test]
fn nothing_is_inserted_before_the_handshake_is_completed() {
    let mut conn = connection(0);
    conn.handshake_completed = false;
    assert_eq!(conn.insert_oack_app(0..50, at(7), STREAM, 0, Err(Error::StreamLimit)), Ok(()));
    assert!(!acknowledged(&conn, 0));
    assert_eq!(conn.recv_count, 0);
    assert!(!conn.tx_cap_outdated);
}

#[test]
fn packets_up_to_the_last_maximum_cost_nothing() {
    let mut conn = connection(0);
    assert_eq!(conn.insert_oack_app(5..8, at(7), STREAM, 7, Err(Error::Done)), Ok(()));
    assert!(acknowledged(&conn, 5));
    assert!(acknowledged(&conn, 7));
    assert_eq!(conn.recv_count, 0);
    assert_eq!(conn.recv_bytes, 0);
    assert_eq!(conn.rx_data, 0);
    assert!(conn.ack_eliciting_sent);
    assert!(conn.tx_cap_outdated);
}

#[test]
fn only_packets_beyond_the_last_maximum_are_charged() {
    let mut conn = connection(100_000);
    assert_eq!(conn.insert_oack_app(5..10, at(7), STREAM, 7, Err(Error::Done)), Ok(()));
    assert_eq!(conn.recv_count, 2);
    assert_eq!(conn.rx_data, 2_400);
    assert!(acknowledged(&conn, 5));
    assert!(acknowledged(&conn, 9));
}

#[test]
fn empty_range_changes_nothing() {
    let mut conn = connection(100_000);
    let reversed = std::ops::Range { start: 9, end: 3 };
    assert_eq!(conn.insert_oack_app(reversed, at(7), STREAM, 0, Err(Error::Done)), Ok(()));
    assert_eq!(conn.pkt_num_spaces.application.recv_pkt_num.last(), None);
    assert!(!conn.tx_cap_outdated);
    assert_eq!(conn.recv_count, 0);
}

#[test]
fn flow_control_stops_the_insertion() {
    // There is room for two payloads of 1200 bytes and a bit.
    let mut conn = connection(3_000);
    let outcome = conn.insert_oack_app(1..9, at(7), STREAM, 0, Err(Error::Done));
    assert_eq!(outcome, Err(Error::FlowControl));
    // The packet that found no room is recorded and counted, but not charged.
    assert!(acknowledged(&conn, 3));
    assert!(!acknowledged(&conn, 4));
    assert_eq!(conn.recv_count, 3);
    assert_eq!(conn.recv_bytes, 3_600);
    assert_eq!(conn.rx_data, 2_400);
    assert_eq!(conn.flow_control.consumed, 2_400);
    assert_eq!(conn.flow_control.max_data, 3_000);
}

#[test]
fn exact_room_is_enough() {
    let mut conn = connection(2_400);
    assert_eq!(conn.insert_oack_app(1..3, at(7), STREAM, 0, Err(Error::Done)), Ok(()));
    assert_eq!(conn.rx_data, 2_400);
}

#[test]
fn without_a_path_the_insertion_fails() {
    let mut conn = connection(100_000);
    conn.paths.clear();
    let outcome = conn.insert_oack_app(1..9, at(7), STREAM, 0, Err(Error::Done));
    assert_eq!(outcome, Err(Error::InvalidState));
    assert!(acknowledged(&conn, 1));
    assert!(!acknowledged(&conn, 2));
    assert_eq!(conn.recv_count, 1);
    assert_eq!(conn.recv_bytes, 0);
    assert_eq!(conn.oack_get_rtt(), None);
}

#[test]
fn stream_that_is_gone_ends_the_insertion_quietly() {
    let mut conn = connection(100_000);
    assert_eq!(conn.insert_oack_app(1..9, at(7), 8, 0, Err(Error::Done)), Ok(()));
    assert!(acknowledged(&conn, 1));
    assert!(!acknowledged(&conn, 2));
    assert_eq!(conn.recv_count, 1);
    assert_eq!(conn.paths[0].recv_bytes, 1_200);
    assert_eq!(conn.rx_data, 0);
    assert!(!conn.streams.contains_key(&8));
}

#[test]
fn stream_that_cannot_be_opened_fails_the_insertion() {
    for error in [Error::StreamLimit, Error::InvalidStreamState(8)] {
        let mut conn = connection(100_000);
        assert_eq!(conn.insert_oack_app(1..9, at(7), 8, 0, Err(error)), Err(error));
        assert_eq!(conn.recv_count, 1);
        assert_eq!(conn.rx_data, 0);
    }
}

#[test]
fn missing_stream_is_opened() {
    let mut conn = connection(100_000);
    assert_eq!(conn.insert_oack_app(1..3, at(7), 8, 0, Ok(stream(false))), Ok(()));
    assert_eq!(conn.streams[&8].flow_control.consumed, 2_400);
    assert_eq!(conn.streams[&STREAM].flow_control.consumed, 0);
}

#[test]
fn missing_stream_is_opened_even_without_room() {
    let mut conn = connection(0);
    let outcome = conn.insert_oack_app(1..3, at(7), 8, 0, Ok(stream(false)));
    assert_eq!(outcome, Err(Error::FlowControl));
    assert_eq!(conn.streams[&8].flow_control.consumed, 0);
}

#[test]
fn data_of_a_draining_stream_is_consumed_twice() {
    let mut conn = connection(100_000);
    conn.streams.insert(STREAM, stream(true));
    assert_eq!(conn.insert_oack_app(1..4, at(7), STREAM, 0, Err(Error::Done)), Ok(()));
    assert_eq!(conn.flow_control.consumed, 7_200);
    assert_eq!(conn.rx_data, 3_600);
    assert_eq!(conn.streams[&STREAM].flow_control.consumed, 3_600);
}

#[test]
fn shrinking_windows_call_for_new_limits() {
    // Half of the window of 10000 bytes is left after one packet, but not after two.
    let mut conn = connection(6_200);
    assert_eq!(conn.insert_oack_app(1..2, at(7), STREAM, 0, Err(Error::Done)), Ok(()));
    assert!(!conn.almost_full);
    assert_eq!(conn.insert_oack_app(2..3, at(7), STREAM, 1, Err(Error::Done)), Ok(()));
    assert!(conn.almost_full);
    assert!(conn.almost_full_streams.is_empty());

    let mut conn = connection(100_000);
    let mut small = stream(false);
    small.flow_control = flow(0, 6_200, 10_000);
    conn.streams.insert(STREAM, small);
    assert_eq!(conn.insert_oack_app(1..3, at(7), STREAM, 0, Err(Error::Done)), Ok(()));
    assert!(!conn.almost_full);
    assert!(conn.almost_full_streams.contains(&STREAM));

    // No new limit is advertised for a stream whose final size is known.
    let mut conn = connection(100_000);
    small.fin_off = Some(6_000);
    conn.streams.insert(STREAM, small);
    assert_eq!(conn.insert_oack_app(1..3, at(7), STREAM, 0, Err(Error::Done)), Ok(()));
    assert!(conn.almost_full_streams.is_empty());
}

#[test]
fn arrival_time_is_that_of_the_largest_packet_to_acknowledge() {
    let mut conn = connection(100_000);
    assert_eq!(conn.insert_oack_app(10..12, at(7), STREAM, 0, Err(Error::Done)), Ok(()));
    assert_eq!(conn.pkt_num_spaces.application.largest_rx_pkt_time, at(7));
    assert_eq!(conn.insert_oack_app(3..6, at(8), STREAM, 0, Err(Error::Done)), Ok(()));
    assert_eq!(conn.pkt_num_spaces.application.largest_rx_pkt_time, at(7));
    assert_eq!(conn.pkt_num_spaces.application.largest_rx_pkt_num, 11);
    assert_eq!(conn.oack_get_max_pn(), 0);
    assert_eq!(conn.insert_oack_app(12..13, at(9), STREAM, 0, Err(Error::Done)), Ok(()));
    assert_eq!(conn.pkt_num_spaces.application.largest_rx_pkt_time, at(9));
}

#[test]
fn insertion_in_two_parts_is_insertion_of_the_whole() {
    let mut whole = connection(6_000);
    let mut parts = connection(6_000);
    let of_whole = whole.insert_oack_app(2..20, at(7), STREAM, 3, Err(Error::Done));
    assert_eq!(parts.insert_oack_app(2..6, at(7), STREAM, 3, Err(Error::Done)), Ok(()));
    let of_parts = parts.insert_oack_app(6..20, at(7), STREAM, 3, Err(Error::Done));
    assert_eq!(of_whole, Err(Error::FlowControl));
    assert_eq!(of_parts, of_whole);
    assert_eq!(parts.recv_count, whole.recv_count);
    assert_eq!(parts.rx_data, whole.rx_data);
    assert_eq!(parts.flow_control, whole.flow_control);
    assert_eq!(parts.streams[&STREAM], whole.streams[&STREAM]);
    for pn in 0..25 {
        assert_eq!(acknowledged(&parts, pn), acknowledged(&whole, pn));
    }
}

#[test]
fn other_spaces_and_streams_stay_as_they_are() {
    let mut conn = connection(100_000);
    conn.streams.insert(12, stream(true));
    assert_eq!(conn.insert_oack_app(1..5, at(7), STREAM, 0, Err(Error::Done)), Ok(()));
    assert_eq!(conn.streams[&12], stream(true));
    assert_eq!(conn.pkt_num_spaces.initial.recv_pkt_num.last(), None);
    assert_eq!(conn.pkt_num_spaces.handshake.recv_pkt_num.last(), None);
    assert_eq!(conn.pkt_num_spaces.handshake.largest_rx_pkt_time, at(1));
    assert!(!conn.is_oack_enabled());
}

#[test]
fn log_is_taken_and_starts_anew() {
    let mut conn = connection(0);
    assert!(!conn.is_oack_enabled());
    assert!(conn.oack_take_new_pn_app().is_none());
    conn.oack_insert_range_pn(1..4, Epoch::Application);
    assert!(!conn.is_oack_enabled());

    conn.enable_oack(10);
    assert!(conn.is_oack_enabled());
    assert_eq!(conn.oack_scaling_factor, Some(10));
    conn.oack_insert_range_pn(1..4, Epoch::Application);
    conn.oack_insert_range_pn(9..10, Epoch::Application);
    conn.oack_insert_range_pn(7..8, Epoch::Handshake);
    conn.oack_insert_range_pn(7..8, Epoch::Initial);
    let taken = conn.oack_take_new_pn_app().unwrap();
    for pn in 0..12 {
        assert_eq!(taken.contains(pn), (1..4).contains(&pn) || pn == 9);
    }
    assert_eq!(conn.oack_take_new_pn_app().unwrap().last(), None);
    assert!(conn.is_oack_enabled());
    assert_eq!(conn.oack_take_new_pn(Epoch::Handshake).unwrap().last(), Some(7));
    assert!(conn.oack_take_new_pn(Epoch::Initial).is_none());
}

#[test]
fn new_limits_are_scheduled_where_acknowledgments_are_enabled() {
    let mut conn = connection(0);
    conn.oack_new_max_data(STREAM);
    assert!(!conn.almost_full);
    assert!(conn.almost_full_streams.is_empty());
    conn.enable_oack(10);
    conn.oack_new_max_data(STREAM);
    assert!(conn.almost_full);
    assert!(conn.almost_full_streams.contains(&STREAM));
}

#[test]
fn first_packet_and_round_trip_time() {
    let mut conn = connection(0);
    assert_eq!(conn.oack_get_first_pn(), 0);
    conn.oack_first_app_pn = Some(77);
    assert_eq!(conn.oack_get_first_pn(), 77);
    assert_eq!(conn.oack_get_rtt(), Some(Duration { nanos: 25 }));
}

#[test]
fn inserted_packets_are_not_received_ones() {
    let mut conn = connection(100_000);
    conn.oack_max_app_pn = 5;
    assert_eq!(conn.insert_oack_app(0..100, at(7), STREAM, 99, Err(Error::Done)), Ok(()));
    assert_eq!(conn.pkt_num_spaces.application.largest_rx_pkt_num, 99);
    assert_eq!(conn.oack_get_max_pn(), 5);
}

#[test]
fn insertion_that_would_overflow_a_counter_is_seen_beforehand() {
    let opening = Err(Error::Done);
    let mut conn = connection(100_000);
    conn.recv_count = usize::MAX - 3;
    assert!(conn.can_insert_oack(1..4, STREAM, 0, opening));
    assert!(!conn.can_insert_oack(1..5, STREAM, 0, opening));
    assert!(conn.can_insert_oack(1..50, STREAM, 46, opening));
    // A stream that is gone lets one packet be counted.
    assert!(conn.can_insert_oack(1..50, 8, 0, opening));

    // The flow control stops the insertion before the counter overflows.
    let mut conn = connection(3_000);
    conn.recv_bytes = u64::MAX - 3_600;
    assert!(conn.can_insert_oack(1..50, STREAM, 0, opening));
    conn.recv_bytes = u64::MAX - 3_599;
    assert!(!conn.can_insert_oack(1..50, STREAM, 0, opening));

    let mut conn = connection(100_000);
    conn.streams.insert(STREAM, stream(true));
    conn.flow_control.consumed = u64::MAX - 2_400;
    assert!(conn.can_insert_oack(1..2, STREAM, 0, opening));
    assert!(!conn.can_insert_oack(1..3, STREAM, 0, opening));

    let mut conn = connection(0);
    conn.rx_data = 1;
    assert!(!conn.can_insert_oack(1..2, STREAM, 0, opening));
    assert!(conn.can_insert_oack(1..2, STREAM, 1, opening));
    conn.handshake_completed = false;
    assert!(conn.can_insert_oack(1..2, STREAM, 0, opening));
}
