//! Sets of packet numbers, flow control and buffers.
use quic_oack::error::Error;
use quic_oack::flow::{FlowControl, Stream};
use quic_oack::packet::{Epoch, Level, PktNumSpaces, SendBuf};
use quic_oack::ranges::RangeSet;
use quic_oack::time::Instant;

fn numbers(set: &RangeSet, below: u64) -> Vec<u64> {
    (0..below).filter(|pn| set.contains(*pn)).collect()
}

#[test]
fn ranges_are_merged_where_they_touch() {
    let mut set = RangeSet::default();
    assert_eq!(set.last(), None);
    assert!(!set.contains(0));
    set.insert(4..7);
    set.insert(10..12);
    assert_eq!(numbers(&set, 20), vec![4, 5, 6, 10, 11]);
    assert_eq!(set.last(), Some(11));
    set.insert(7..10);
    assert_eq!(numbers(&set, 20), vec![4, 5, 6, 7, 8, 9, 10, 11]);
    set.insert(0..2);
    set.insert(1..5);
    assert_eq!(numbers(&set, 20), (0..12).collect::<Vec<u64>>());
    assert_eq!(set.last(), Some(11));
}

#[test]
fn range_can_swallow_others() {
    let mut set = RangeSet::default();
    set.insert(3..4);
    set.insert(6..8);
    set.insert(12..13);
    set.insert(2..9);
    assert_eq!(numbers(&set, 20), vec![2, 3, 4, 5, 6, 7, 8, 12]);
    set.insert(5..5);
    set.insert(std::ops::Range { start: 19, end: 15 });
    assert_eq!(numbers(&set, 20), vec![2, 3, 4, 5, 6, 7, 8, 12]);
}

#[test]
fn items_come_in_any_order() {
    let mut set = RangeSet::default();
    for pn in [9, 1, 5, 2, 9, 3, 4] {
        set.push_item(pn);
    }
    assert_eq!(numbers(&set, 20), vec![1, 2, 3, 4, 5, 9]);
    set.push_item(u64::MAX - 1);
    assert_eq!(set.last(), Some(u64::MAX - 1));
}

#[test]
fn higher_limit_is_due_below_half_of_the_window() {
    let mut flow = FlowControl { consumed: 0, max_data: 100, window: 40 };
    assert!(!flow.should_update_max_data());
    flow.add_consumed(80);
    assert_eq!(flow.consumed, 80);
    assert!(!flow.should_update_max_data());
    flow.add_consumed(1);
    assert!(flow.should_update_max_data());
    flow.add_consumed(1_000);
    assert!(flow.should_update_max_data());

    let mut stream = Stream { drain: true, fin_off: None, flow_control: flow };
    assert!(stream.is_draining());
    assert!(stream.almost_full());
    stream.fin_off = Some(2_000);
    assert!(!stream.almost_full());
    stream.oack_add_consumed(9);
    assert_eq!(stream.flow_control.consumed, 1_090);
}

#[test]
fn finished_buffer_takes_nothing_more() {
    let mut buf = SendBuf::default();
    assert_eq!(buf.write(b"ab", false), Ok(2));
    assert_eq!(buf.write(b"c", true), Ok(1));
    assert_eq!(buf.write(b"d", false), Err(Error::FinalSize));
    assert_eq!(buf.data, b"abc".to_vec());
    assert!(buf.fin);
}

#[test]
fn levels_belong_to_spaces() {
    assert_eq!(Level::Initial.epoch(), Epoch::Initial);
    assert_eq!(Level::ZeroRTT.epoch(), Epoch::Application);
    assert_eq!(Level::Handshake.epoch(), Epoch::Handshake);
    assert_eq!(Level::OneRTT.epoch(), Epoch::Application);

    let mut spaces = PktNumSpaces::new(Instant { nanos: 5 });
    spaces.get_mut(Epoch::Initial).largest_rx_pkt_num = 1;
    spaces.get_mut(Epoch::Handshake).largest_rx_pkt_num = 2;
    spaces.get_mut(Epoch::Application).largest_rx_pkt_num = 3;
    assert_eq!(spaces.initial.largest_rx_pkt_num, 1);
    assert_eq!(spaces.handshake.largest_rx_pkt_num, 2);
    assert_eq!(spaces.application.largest_rx_pkt_num, 3);
    assert_eq!(spaces.initial.largest_rx_pkt_time, Instant { nanos: 5 });
}
