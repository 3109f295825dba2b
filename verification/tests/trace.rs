//! Replay of the acknowledgments of a trace.
use quic_oack::connection::{Connection, Path};
use quic_oack::error::Error;
use quic_oack::flow::{FlowControl, Stream};
use quic_oack::oack::{OpportunistAck, OpportunistQlog};
use quic_oack::packet::PktNumSpaces;
use quic_oack::qlog::{
    is_usable, is_usable_trace, read_qlog, read_records, times, times_of, Json, Number, QlogError,
};
use quic_oack::time::{Duration, Instant};
use std::collections::{HashMap, HashSet};
use std::ops::Range;

const STREAM: u64 = 4;
const GONE: Result<Stream, Error> = Err(Error::Done);
const MILLI: u64 = 1_000_000;

fn at(nanos: u64) -> Instant {
    Instant { nanos }
}

fn wait(nanos: u64) -> Option<Duration> {
    Some(Duration { nanos: nanos as u128 })
}

/// A frame that acknowledges ranges.
fn ack(ranges: &str) -> String {
    format!("{{\"frame_type\":\"ack\",\"acked_ranges\":[{ranges}]}}")
}

/// A record of a packet.
fn record(name: &str, packet_type: &str, time: &str, frames: &str) -> String {
    format!(
        "\u{1e}{{\"time\":{time},\"name\":\"{name}\",\"data\":{{\"header\":{{\"packet_type\":\"{packet_type}\"}},\"frames\":{frames}}}}}\n",
    )
}

/// A packet with application data, sent at a time in milliseconds.
fn sent(time: &str, frames: &[String]) -> String {
    record("transport:packet_sent", "1RTT", time, &format!("[{}]", frames.join(",")))
}

/// The times of the records of a trace, in nanoseconds.
fn nanos(trace: &str) -> Vec<u64> {
    times(trace.as_bytes())
        .iter()
        .map(|time| match time {
            Some(time) => (time.parse::<f64>().unwrap() * 1_000_000.0) as u64,
            None => 0,
        })
        .collect()
}

fn usable(trace: &str) -> bool {
    is_usable_trace(trace.as_bytes(), &nanos(trace))
}

fn schedule(trace: &str) -> Vec<(Duration, Vec<Range<u64>>)> {
    assert!(usable(trace));
    match read_qlog(trace.as_bytes(), &nanos(trace)) {
        Ok(schedule) => schedule,
        Err(error) => panic!("{error:?}"),
    }
}

fn replaying(trace: &str) -> OpportunistQlog {
    assert!(usable(trace));
    match OpportunistQlog::new(trace.as_bytes(), &nanos(trace)) {
        Ok(strategy) => strategy,
        Err(error) => panic!("{error:?}"),
    }
}

fn text(content: &str) -> Json {
    Json::Text(content.to_string())
}

fn integer(n: u64) -> Json {
    Json::Number(Number { unsigned: Some(n), text: n.to_string() })
}

fn object(members: Vec<(&str, Json)>) -> Json {
    Json::Object(members.into_iter().map(|(name, value)| (name.to_string(), value)).collect())
}

fn range(from: u64, to: u64) -> Json {
    Json::Array(vec![integer(from), integer(to)])
}

/// The record of a packet that acknowledges ranges.
fn acking(time: Json, ranges: Vec<Json>) -> Result<Json, QlogError> {
    let frame = object(vec![("frame_type", text("ack")), ("acked_ranges", Json::Array(ranges))]);
    Ok(object(vec![
        ("time", time),
        ("name", text("transport:packet_sent")),
        (
            "data",
            object(vec![
                ("header", object(vec![("packet_type", text("1RTT"))])),
                ("frames", Json::Array(vec![frame])),
            ]),
        ),
    ]))
}

fn connection(max_data: u64) -> Connection {
    let flow_control = FlowControl { consumed: 0, max_data, window: 10_000 };
    let mut streams = HashMap::new();
    streams.insert(STREAM, Stream { drain: false, fin_off: None, flow_control });
    Connection {
        pkt_num_spaces: PktNumSpaces::new(at(0)),
        paths: vec![Path { recv_count: 0, recv_bytes: 0, rtt: Duration { nanos: 0 } }],
        streams,
        almost_full_streams: HashSet::new(),
        flow_control,
        rx_data: 0,
        almost_full: false,
        recv_count: 0,
        recv_bytes: 0,
        handshake_completed: true,
        ack_eliciting_sent: false,
        tx_cap_outdated: false,
        oack_scaling_factor: None,
        oack_first_app_pn: None,
        oack_max_app_pn: 0,
    }
}

#[test]
fn schedule_counts_from_the_first_acknowledgment() {
    let trace = [
        sent("5", &["{\"frame_type\":\"ping\"}".to_string()]),
        sent("12", &[ack("[100,104]")]),
        sent("15.25", &[ack("[100,104],[108,110]"), ack("")]),
        sent("3", &[ack("[102,102]")]),
    ]
    .concat();
    assert_eq!(
        schedule(&trace),
        vec![
            (Duration { nanos: 10_000_000 }, vec![0..5]),
            (Duration { nanos: 13_250_000 }, vec![0..5, 8..11]),
            (Duration { nanos: 13_250_000 }, vec![]),
            (Duration { nanos: 10_000_000 }, vec![2..3]),
        ],
    );
}

#[test]
fn other_records_are_passed_over() {
    let frames = format!("[{}]", ack("[7,8]"));
    let trace = [
        "\u{1e}null\n".to_string(),
        "\u{1e}\u{1e}[1,true,\"x\"]".to_string(),
        record("transport:packet_received", "1RTT", "1", &frames),
        record("transport:packet_sent", "initial", "1", &frames),
        "\u{1e}{\"name\":\"transport:packet_sent\"}".to_string(),
        record("transport:packet_sent", "1RTT", "1", "true"),
        sent("2", &["null".to_string(), ack("[50,51]")]),
    ]
    .concat();
    assert_eq!(schedule(&trace), vec![(Duration { nanos: 10_000_000 }, vec![0..2])]);
}

#[test]
fn records_are_read_up_to_the_first_error() {
    let trace = [sent("1", &[ack("[1,2]")]), "\u{1e}{oops\u{1e}null".to_string()].concat();
    assert!(usable(&trace));
    assert!(matches!(read_qlog(trace.as_bytes(), &nanos(&trace)), Err(QlogError::Syntax)));
    assert!(matches!(OpportunistQlog::new(trace.as_bytes(), &nanos(&trace)), Err(QlogError::Syntax)));
    let bytes = Some(trace.as_bytes());
    assert!(matches!(
        OpportunistAck::new(bytes, &nanos(&trace), None, None),
        Err(QlogError::Syntax)
    ));
    let records = vec![Err(QlogError::Io)];
    assert!(is_usable(&records, &vec![0]));
    assert!(matches!(read_records(&records, &vec![0]), Err(QlogError::Io)));
}

#[test]
fn times_are_given_as_they_are_written() {
    let trace = "\u{1e}{\"time\":12.5}\u{1e}{\"time\":7}\u{1e}{\"time\":\"7\"}\u{1e}{\u{1e}[]";
    assert_eq!(
        times(trace.as_bytes()),
        vec![Some("12.5".to_string()), Some("7".to_string()), None, None, None],
    );
    let records = vec![Ok(object(vec![("time", integer(9))])), Err(QlogError::Io), Ok(Json::Null)];
    assert_eq!(times_of(&records), vec![Some("9".to_string()), None, None]);
}

#[test]
fn records_are_read_with_their_times() {
    let records = vec![
        acking(integer(0), vec![range(5, 6)]),
        Ok(Json::Bool(true)),
        acking(integer(0), vec![range(7, 9)]),
    ];
    let nanos = vec![100, 0, 400];
    assert!(is_usable(&records, &nanos));
    match read_records(&records, &nanos) {
        Ok(schedule) => assert_eq!(
            schedule,
            vec![
                (Duration { nanos: 10_000_000 }, vec![0..2]),
                (Duration { nanos: 10_000_300 }, vec![2..5]),
            ],
        ),
        Err(error) => panic!("{error:?}"),
    }
    assert!(!is_usable(&records, &vec![100, 0]));
}

#[test]
fn unusable_traces_are_seen_beforehand() {
    // Without an acknowledgment there is no first time.
    assert!(!usable(""));
    assert!(!usable("\u{1e}null"));
    // Acknowledgments need ranges, bounds and a time.
    assert!(!usable(&sent("1", &["{\"frame_type\":\"ack\"}".to_string()])));
    assert!(!usable(&sent("1", &[ack("[1]")])));
    assert!(!usable(&sent("1", &[ack("[\"1\",2]")])));
    assert!(!usable(&sent("1", &[ack("[1,2.5]")])));
    assert!(!usable(&sent("1", &[ack("[-1,2]")])));
    assert!(!usable(&sent("null", &[ack("[1,2]")])));
    // Packet numbers are counted from the first one, so that none can be smaller.
    assert!(!usable(&sent("1", &[ack("[5,6],[4,6]")])));
    assert!(!usable(&sent("1", &[ack("[5,4]")])));
    assert!(!usable(&sent("1", &[ack("[0,18446744073709551615]")])));
    assert!(usable(&sent("1", &[ack("[1,18446744073709551615]")])));
    let trace = sent("1", &[ack("[5,4]")]);
    assert!(OpportunistAck::try_new(Some(trace.as_bytes()), &nanos(&trace), None, None).is_none());
    let timeless = vec![acking(Json::Null, vec![range(1, 2)])];
    assert!(!is_usable(&timeless, &vec![0]));
}

#[test]
fn members_and_elements_of_json_values() {
    let value = object(vec![("a", integer(1)), ("b", Json::Null), ("a", integer(2))]);
    assert!(matches!(value.field("a"), Some(Json::Number(Number { unsigned: Some(1), .. }))));
    assert!(matches!(value.field("b"), Some(Json::Null)));
    assert!(value.field("c").is_none());
    assert!(value.element(0).is_none());
    let value = range(7, 8);
    assert!(matches!(value.element(1), Some(Json::Number(Number { unsigned: Some(8), .. }))));
    assert!(value.element(2).is_none());
    assert!(value.field("a").is_none());
}

#[test]
fn replay_follows_the_schedule() {
    let trace =
        [sent("12", &[ack("[100,104]")]), sent("15", &[ack("[100,104],[108,110]")])].concat();
    let mut conn = connection(10_000_000);
    conn.oack_first_app_pn = Some(1_000);
    let mut strategy = replaying(&trace);
    assert!(!strategy.is_active());
    assert_eq!(strategy.timeout(at(5)), None);

    // The clock of the replay starts when the timeout is first asked for.
    strategy.set_active(true);
    assert_eq!(strategy.timeout(at(50)), wait(10 * MILLI + 1_000));
    assert_eq!(strategy.timeout(at(60)), wait(10 * MILLI + 990));
    let early = at(50 + 10 * MILLI + 999);
    assert_eq!(strategy.on_timeout(&mut conn, STREAM, early, early, GONE), Ok(()));
    assert_eq!(conn.recv_count, 0);

    // Everything up to the end of a range is acknowledged, from the first packet number on.
    let due = at(50 + 10 * MILLI + 1_000);
    assert_eq!(strategy.timeout(due), wait(0));
    assert_eq!(strategy.on_timeout(&mut conn, STREAM, due, at(77), GONE), Ok(()));
    let space = &conn.pkt_num_spaces.application;
    assert!(!space.recv_pkt_num.contains(999));
    assert!(space.recv_pkt_num.contains(1_000));
    assert_eq!(space.recv_pkt_num.last(), Some(1_004));
    assert_eq!(space.largest_rx_pkt_time, at(77));
    assert_eq!(conn.recv_count, 5);
    assert!(strategy.is_active());
    assert_eq!(strategy.timeout(due), wait(3 * MILLI));

    // After the last acknowledgment the replay is over.
    let due = at(50 + 13 * MILLI + 1_000);
    assert_eq!(strategy.on_timeout(&mut conn, STREAM, due, due, GONE), Ok(()));
    assert_eq!(conn.pkt_num_spaces.application.recv_pkt_num.last(), Some(1_010));
    assert!(conn.pkt_num_spaces.application.recv_pkt_num.contains(1_006));
    assert!(!strategy.is_active());
    assert_eq!(strategy.timeout(due), None);
    strategy.set_active(true);
    assert_eq!(strategy.timeout(due), None);
    assert_eq!(strategy.on_timeout(&mut conn, STREAM, due, due, GONE), Ok(()));
}

#[test]
fn replay_counts_every_packet_once() {
    let trace = [sent("0", &[ack("[0,2]")]), sent("5", &[ack("[0,4]")])].concat();
    let mut conn = connection(10_000_000);
    conn.oack_first_app_pn = Some(100);
    let mut strategy = replaying(&trace);
    strategy.set_active(true);
    assert_eq!(strategy.timeout(at(0)), wait(10 * MILLI + 1_000));
    let due = at(11 * MILLI);
    assert_eq!(strategy.on_timeout(&mut conn, STREAM, due, due, GONE), Ok(()));
    assert_eq!(conn.recv_count, 3);
    // The last packet acknowledged is 102, so that 103 and 104 are new.
    let due = at(16 * MILLI);
    assert_eq!(strategy.on_timeout(&mut conn, STREAM, due, due, GONE), Ok(()));
    assert_eq!(conn.recv_count, 5);
    assert_eq!(conn.rx_data, 5 * 1_200);
}

#[test]
fn replay_that_is_refused_is_tried_again() {
    let trace = sent("0", &[ack("[0,1],[0,9]")]);
    let mut conn = connection(2_400);
    let mut strategy = replaying(&trace);
    strategy.set_active(true);
    assert_eq!(strategy.timeout(at(0)), wait(10 * MILLI + 1_000));
    let due = at(20 * MILLI);
    let outcome = strategy.on_timeout(&mut conn, STREAM, due, due, GONE);
    assert_eq!(outcome, Err(Error::FlowControl));
    assert!(strategy.is_active());
    assert_eq!(strategy.timeout(due), wait(0));
    // The first range was taken, so its packets are not charged again: packet 1 is the last one.
    assert_eq!(conn.rx_data, 2_400);
    conn.flow_control.max_data = 100_000;
    assert_eq!(strategy.on_timeout(&mut conn, STREAM, due, due, GONE), Ok(()));
    assert_eq!(conn.rx_data, 2_400 + 8 * 1_200);
    assert!(!strategy.is_active());
}

#[test]
fn trace_strategy_behind_the_common_interface() {
    let trace = sent("0", &[ack("[0,3]")]);
    let mut conn = connection(1_000_000);
    let created = OpportunistAck::try_new(Some(trace.as_bytes()), &nanos(&trace), Some(7), None);
    let mut strategy = match created {
        Some(Ok(strategy)) => strategy,
        _ => panic!("no strategy"),
    };
    assert!(matches!(strategy, OpportunistAck::QLOG(_)));
    strategy.on_new_max_recv_pn(u64::MAX);
    strategy.set_active(true);
    assert!(strategy.is_active());
    assert_eq!(strategy.timeout(at(0)), wait(10 * MILLI + 1_000));
    let due = at(11 * MILLI);
    conn.oack_first_app_pn = Some(u64::MAX - 3);
    assert!(strategy.can_fire(&conn, STREAM, at(0), at(0), GONE));
    assert!(!strategy.can_fire(&conn, STREAM, due, due, GONE));
    conn.oack_first_app_pn = Some(u64::MAX - 4);
    assert!(strategy.can_fire(&conn, STREAM, due, due, GONE));
    // Three packets beyond packet 0 are counted.
    conn.oack_first_app_pn = None;
    conn.recv_count = usize::MAX - 2;
    assert!(!strategy.can_fire(&conn, STREAM, due, due, GONE));
    conn.recv_count = usize::MAX - 3;
    assert!(strategy.can_fire(&conn, STREAM, due, due, GONE));
    assert_eq!(strategy.on_timeout(&mut conn, STREAM, due, due, GONE), Ok(()));
    assert_eq!(conn.pkt_num_spaces.application.recv_pkt_num.last(), Some(3));
    assert_eq!(conn.recv_count, usize::MAX);
}
