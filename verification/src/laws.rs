//! What holds of the library as a whole.
pub mod answers;
pub mod calls;
pub mod client;
pub mod formats;
pub mod insertion;
pub mod strategies;
pub mod tls;
pub mod trace;

use crate::alpn::select;
use crate::client::Client;
use crate::connection::{first_new, ConnectionView, PAYLOAD_SIZE};
use crate::error::{ConnectionErrorView, Error};
use crate::flow::Stream;
use crate::handshake::{
    has_nul, named, Call, Drive, Handshake, Pending, Step, FILETYPE_PEM,
};
use crate::oack::{
    can_replay, first_pn, last_acknowledged, range_on, replay, AckView, ConstantView, MaxPnView,
    QlogView,
};
use crate::packet::{epoch_of, Epoch, Level, SpaceView};
use crate::qlog::{countable, first_packet, schedule, RecordedAck};
use crate::time::Instant;
use crate::tls::{ExDataView, FAILURE};
use std::ops::Range;
use vstd::prelude::*;

verus! {

/// Opportunistic acknowledgments never go beyond the flow control limit, and never move it.
pub proof fn insertion_respects_flow_control(
    conn: ConnectionView,
    range: Range<u64>,
    now: Instant,
    stream_id: u64,
    last_max_pn: u64,
    opening: Result<Stream, Error>,
)
    requires
        conn.rx_data <= conn.flow_control.max_data,
        conn.can_insert_oack(range, stream_id, last_max_pn, opening),
    ensures
        ({
            let after = conn.insert_oack(range, now, stream_id, last_max_pn, opening);
            &&& conn.rx_data <= after.rx_data <= after.flow_control.max_data
            &&& after.flow_control.max_data == conn.flow_control.max_data
            &&& after.flow_control.consumed >= conn.flow_control.consumed
        }),
{
    if conn.handshake_completed {
        let run = conn.oack_run(range, stream_id, last_max_pn, opening);
        assert(0 <= run.charged <= conn.room());
    }
}

/// An insertion forgets no packet number and invents none outside its range. It leaves the other
/// packet number spaces, the log of received packets and the other streams alone.
pub proof fn insertion_changes_nothing_else(
    conn: ConnectionView,
    range: Range<u64>,
    now: Instant,
    stream_id: u64,
    last_max_pn: u64,
    opening: Result<Stream, Error>,
    pn: u64,
    other: u64,
)
    requires
        other != stream_id,
    ensures
        ({
            let after = conn.insert_oack(range, now, stream_id, last_max_pn, opening);
            let spaces = conn.pkt_num_spaces;
            &&& after.pkt_num_spaces.initial == spaces.initial
            &&& after.pkt_num_spaces.handshake == spaces.handshake
            &&& after.log(Epoch::Application) == conn.log(Epoch::Application)
            &&& after.pkt_num_spaces.application.crypto_data == spaces.application.crypto_data
            &&& after.streams.contains_key(other) == conn.streams.contains_key(other)
            &&& conn.streams.contains_key(other) ==> after.streams[other] == conn.streams[other]
            &&& after.almost_full_streams.contains(other) == conn.almost_full_streams.contains(
                other,
            )
            &&& after.oack_first_app_pn == conn.oack_first_app_pn
            &&& after.oack_max_app_pn == conn.oack_max_app_pn
            &&& after.oack_scaling_factor == conn.oack_scaling_factor
            &&& after.handshake_completed == conn.handshake_completed
            &&& spaces.application.recv_pkt_num.contains(pn)
                ==> after.pkt_num_spaces.application.recv_pkt_num.contains(pn)
            &&& spaces.application.recv_pkt_need_ack.contains(pn)
                ==> after.pkt_num_spaces.application.recv_pkt_need_ack.contains(pn)
            &&& after.pkt_num_spaces.application.recv_pkt_num.contains(pn)
                ==> spaces.application.recv_pkt_num.contains(pn) || range.start <= pn < range.end
            &&& after.pkt_num_spaces.application.recv_pkt_need_ack.contains(pn)
                ==> spaces.application.recv_pkt_need_ack.contains(pn) || range.start <= pn
                < range.end
            &&& after.pkt_num_spaces.application.largest_rx_pkt_num
                >= spaces.application.largest_rx_pkt_num
        }),
{
    if conn.handshake_completed {
        let run = conn.oack_run(range, stream_id, last_max_pn, opening);
        assert(run.stop <= range.end);
    }
}

/// An insertion that succeeds has every packet number of its range acknowledged. On a stream that is
/// gone it ends with the first packet that is new.
pub proof fn successful_insertion_acknowledges_the_range(
    conn: ConnectionView,
    range: Range<u64>,
    now: Instant,
    stream_id: u64,
    last_max_pn: u64,
    opening: Result<Stream, Error>,
    pn: u64,
)
    requires
        conn.handshake_completed,
        conn.insert_oack_outcome(range, stream_id, last_max_pn, opening) is Ok,
        !conn.streams.contains_key(stream_id) && opening == Err::<Stream, Error>(Error::Done)
            ==> pn <= range.start || pn - 1 <= last_max_pn,
        range.start <= pn < range.end,
    ensures
        ({
            let after = conn.insert_oack(range, now, stream_id, last_max_pn, opening);
            let space = after.pkt_num_spaces.application;
            &&& space.recv_pkt_num.contains(pn)
            &&& space.recv_pkt_need_ack.contains(pn)
            &&& space.largest_rx_pkt_num >= pn
            &&& space.ack_elicited
        }),
{
}

/// Packets that have been acknowledged before are recorded again, and nothing else: they are not
/// counted, and the flow control does not charge them.
pub proof fn known_packets_cost_nothing(
    conn: ConnectionView,
    range: Range<u64>,
    now: Instant,
    stream_id: u64,
    last_max_pn: u64,
    opening: Result<Stream, Error>,
)
    requires
        range.end <= last_max_pn + 1,
    ensures
        conn.can_insert_oack(range, stream_id, last_max_pn, opening),
        conn.insert_oack_outcome(range, stream_id, last_max_pn, opening) == Ok::<(), Error>(()),
        ({
            let after = conn.insert_oack(range, now, stream_id, last_max_pn, opening);
            after == ConnectionView {
                pkt_num_spaces: after.pkt_num_spaces,
                tx_cap_outdated: after.tx_cap_outdated,
                ..conn
            }
        }),
{
}

/// Inserting an empty range changes nothing.
pub proof fn empty_insertion_changes_nothing(
    conn: ConnectionView,
    range: Range<u64>,
    now: Instant,
    stream_id: u64,
    last_max_pn: u64,
    opening: Result<Stream, Error>,
)
    requires
        range.start >= range.end,
    ensures
        conn.can_insert_oack(range, stream_id, last_max_pn, opening),
        conn.insert_oack_outcome(range, stream_id, last_max_pn, opening) == Ok::<(), Error>(()),
        conn.insert_oack(range, now, stream_id, last_max_pn, opening) == conn,
{
}

/// Inserting a range in two parts is inserting it whole, if the first part goes through to its end.
#[verifier::spinoff_prover]
#[verifier::rlimit(40)]
pub proof fn insertion_can_be_split(
    conn: ConnectionView,
    start: u64,
    middle: u64,
    end: u64,
    now: Instant,
    stream_id: u64,
    last_max_pn: u64,
    opening: Result<Stream, Error>,
)
    requires
        start <= middle <= end,
        conn.can_insert_oack(start..end, stream_id, last_max_pn, opening),
        conn.insert_oack_outcome(start..middle, stream_id, last_max_pn, opening) is Ok,
        conn.handshake_completed && !conn.streams.contains_key(stream_id) && opening == Err::<
            Stream,
            Error,
        >(Error::Done) ==> middle <= start || middle - 1 <= last_max_pn,
    ensures
        ({
            let part = conn.insert_oack(start..middle, now, stream_id, last_max_pn, opening);
            &&& conn.can_insert_oack(start..middle, stream_id, last_max_pn, opening)
            &&& part.can_insert_oack(middle..end, stream_id, last_max_pn, opening)
            &&& part.insert_oack(middle..end, now, stream_id, last_max_pn, opening)
                == conn.insert_oack(start..end, now, stream_id, last_max_pn, opening)
            &&& part.insert_oack_outcome(middle..end, stream_id, last_max_pn, opening)
                == conn.insert_oack_outcome(start..end, stream_id, last_max_pn, opening)
        }),
{
    if conn.handshake_completed {
        let part = conn.insert_oack(start..middle, now, stream_id, last_max_pn, opening);
        let run = conn.oack_run(start..middle, stream_id, last_max_pn, opening);
        let rest = part.oack_run(middle..end, stream_id, last_max_pn, opening);
        let whole = conn.oack_run(start..end, stream_id, last_max_pn, opening);
        assert(run.stop == middle && run.counted == run.charged && run.sized == run.charged);
        lemma_receive_in_parts(
            conn.pkt_num_spaces.application,
            start as int,
            middle as int,
            if rest.stop < middle {
                middle as int
            } else {
                rest.stop
            },
            now,
        );
        if middle <= first_new(start, last_max_pn) {
            assert(part.room() == conn.room());
            assert(part.streams =~= conn.streams);
            assert(rest == whole);
            assert(part.after_run(middle, now, stream_id, rest) =~= conn.after_run(
                start,
                now,
                stream_id,
                whole,
            ));
        } else {
            lemma_charge_in_parts(conn, start, middle, end, now, stream_id, last_max_pn, opening);
            assert(part.after_run(middle, now, stream_id, rest) =~= conn.after_run(
                start,
                now,
                stream_id,
                whole,
            ));
        }
    }
}

/// Where the first part of a range has been charged, the second part gets as far as the whole range
/// does.
proof fn lemma_charge_in_parts(
    conn: ConnectionView,
    start: u64,
    middle: u64,
    end: u64,
    now: Instant,
    stream_id: u64,
    last_max_pn: u64,
    opening: Result<Stream, Error>,
)
    requires
        conn.handshake_completed,
        start <= middle <= end,
        first_new(start, last_max_pn) < middle,
        conn.can_insert_oack(start..end, stream_id, last_max_pn, opening),
        conn.insert_oack_outcome(start..middle, stream_id, last_max_pn, opening) is Ok,
        conn.stream(stream_id, opening) is Ok,
    ensures
        ({
            let part = conn.insert_oack(start..middle, now, stream_id, last_max_pn, opening);
            let run = conn.oack_run(start..middle, stream_id, last_max_pn, opening);
            let rest = part.oack_run(middle..end, stream_id, last_max_pn, opening);
            let whole = conn.oack_run(start..end, stream_id, last_max_pn, opening);
            &&& conn.fits(run)
            &&& part.fits(rest)
            &&& whole.stop == rest.stop
            &&& whole.outcome == rest.outcome
            &&& whole.counted == run.counted + rest.counted
            &&& whole.sized == run.sized + rest.sized
            &&& whole.charged == run.charged + rest.charged
            &&& whole.stream == run.stream
            &&& rest.stream is Some ==> rest.stream == Some(
                whole.stream->0.after_consuming(PAYLOAD_SIZE * run.charged),
            )
        }),
{
    let part = conn.insert_oack(start..middle, now, stream_id, last_max_pn, opening);
    let run = conn.oack_run(start..middle, stream_id, last_max_pn, opening);
    assert(run.charged == middle - first_new(start, last_max_pn));
    assert(part.room() == conn.room() - run.charged);
}

/// Receiving packets in two parts is receiving them all.
proof fn lemma_receive_in_parts(
    space: SpaceView,
    start: int,
    middle: int,
    stop: int,
    now: Instant,
)
    requires
        0 <= start <= middle <= stop <= u64::MAX,
    ensures
        space.after_receiving(start, middle, now).after_receiving(middle, stop, now)
            == space.after_receiving(start, stop, now),
{
    let some = space.after_receiving(start, middle, now);
    let next = some.after_receiving(middle, stop, now);
    let all = space.after_receiving(start, stop, now);
    assert(next.recv_pkt_need_ack =~= all.recv_pkt_need_ack);
    assert(next.recv_pkt_num =~= all.recv_pkt_num);
    if middle < stop {
        if forall|x: u64| space.recv_pkt_need_ack.contains(x) ==> x < stop - 1 {
            assert(forall|x: u64| some.recv_pkt_need_ack.contains(x) ==> x < stop - 1);
        } else {
            let x = choose|x: u64| space.recv_pkt_need_ack.contains(x) && x >= stop - 1;
            assert(some.recv_pkt_need_ack.contains(x));
        }
    }
}

/// The connection with ranges added to the log of a space, one after the other.
pub open spec fn with_ranges(
    conn: ConnectionView,
    epoch: Epoch,
    ranges: Seq<Range<u64>>,
) -> ConnectionView
    decreases ranges.len(),
{
    if ranges.len() == 0 {
        conn
    } else {
        with_ranges(conn, epoch, ranges.drop_last()).with_range(epoch, ranges.last())
    }
}

/// `pn` is in one of the ranges.
pub open spec fn in_ranges(ranges: Seq<Range<u64>>, pn: u64) -> bool {
    exists|i: int| 0 <= i < ranges.len() && (#[trigger] ranges[i]).start <= pn < ranges[i].end
}

/// Taking the log gives back exactly what has been added to it since it was last taken, in however
/// many ranges, and nothing else of the connection depends on the log.
pub proof fn log_gives_back_what_was_added(
    conn: ConnectionView,
    epoch: Epoch,
    ranges: Seq<Range<u64>>,
)
    requires
        conn.log(epoch) is Some,
    ensures
        ({
            let taken = conn.with_log(epoch, Some(Set::empty()));
            let after = with_ranges(taken, epoch, ranges);
            &&& after.log(epoch) is Some
            &&& forall|pn: u64| #[trigger]
                after.log(epoch)->0.contains(pn) <==> in_ranges(ranges, pn)
            &&& after.with_log(epoch, conn.log(epoch)) == conn
        }),
    decreases ranges.len(),
{
    let taken = conn.with_log(epoch, Some(Set::empty()));
    let after = with_ranges(taken, epoch, ranges);
    if ranges.len() > 0 {
        let before = with_ranges(taken, epoch, ranges.drop_last());
        let last = ranges.last();
        log_gives_back_what_was_added(conn, epoch, ranges.drop_last());
        assert(after == before.with_range(epoch, last));
        assert forall|pn: u64| #[trigger]
            after.log(epoch)->0.contains(pn) <==> in_ranges(ranges, pn) by {
            assert(after.log(epoch)->0.contains(pn) <==> before.log(epoch)->0.contains(pn)
                || last.start <= pn < last.end);
            if in_ranges(ranges.drop_last(), pn) {
                let i = choose|i: int|
                    0 <= i < ranges.drop_last().len() && (
                    #[trigger] ranges.drop_last()[i]).start <= pn < ranges.drop_last()[i].end;
                assert(ranges[i].start <= pn < ranges[i].end);
            }
            if last.start <= pn < last.end {
                assert(ranges[ranges.len() - 1].start <= pn);
            }
            if in_ranges(ranges, pn) {
                let i = choose|i: int|
                    0 <= i < ranges.len() && (#[trigger] ranges[i]).start <= pn < ranges[i].end;
                if i < ranges.len() - 1 {
                    assert(ranges.drop_last()[i].start <= pn);
                }
            }
        }
        assert(after.with_log(epoch, conn.log(epoch)) =~= before.with_log(
            epoch,
            conn.log(epoch),
        ));
    } else {
        assert(after.with_log(epoch, conn.log(epoch)) =~= conn);
    }
}

impl MaxPnView {
    /// What holds of a strategy in every state that it gets into: it has not acknowledged beyond
    /// what it was to acknowledge, the shift has last grown by two or not at all, and there is no lag
    /// without a shift.
    pub open spec fn consistent(self) -> bool {
        &&& self.last_max_pn <= self.next_max_pn
        &&& self.last_increase == 0 || self.last_increase == 2
        &&& self.lag_shift is Some ==> self.shift_pn is Some
        &&& self.first_app_pn is None ==> self.next_max_pn == 0
        &&& self.first_app_pn is None ==> self.true_last_recv_pn == 0
    }
}

/// A strategy that uses the maximum received packet number is consistent from its start on.
pub proof fn max_pn_stays_consistent(
    strategy: MaxPnView,
    shift_pn: Option<u64>,
    lag_shift: Option<u64>,
    pn: u64,
    active: bool,
)
    requires
        strategy.consistent(),
        strategy.can_receive(pn),
    ensures
        MaxPnView::start(shift_pn, lag_shift).consistent(),
        strategy.after_receiving(pn).consistent(),
        strategy.after_firing().consistent(),
        (MaxPnView { active, ..strategy }).consistent(),
{
}

/// Receiving a packet never takes anything back: the packet numbers to acknowledge and the shift do
/// not shrink, and the first packet number stays what it is.
pub proof fn receiving_is_monotonic(strategy: MaxPnView, pn: u64)
    requires
        strategy.can_receive(pn),
    ensures
        ({
            let after = strategy.after_receiving(pn);
            &&& after.next_max_pn >= strategy.next_max_pn
            &&& after.last_max_pn == strategy.last_max_pn
            &&& strategy.shift_pn is None <==> after.shift_pn is None
            &&& strategy.shift_pn is Some ==> after.shift_pn->0 >= strategy.shift_pn->0
            &&& strategy.first_app_pn is Some ==> after.first_app_pn == strategy.first_app_pn
            &&& after.lag_shift == strategy.lag_shift
        }),
{
}

/// The same packet number is not counted twice in a row.
pub proof fn receiving_twice_is_receiving_once(strategy: MaxPnView, pn: u64)
    requires
        strategy.can_receive(pn),
    ensures
        strategy.after_receiving(pn).can_receive(pn),
        strategy.after_receiving(pn).after_receiving(pn) == strategy.after_receiving(pn),
{
}

/// Past the lag, every new packet has the packet numbers up to itself and the shift acknowledged;
/// within the lag, or without a shift, none does.
pub proof fn shift_runs_ahead(strategy: MaxPnView, pn: u64)
    requires
        strategy.consistent(),
        strategy.can_receive(pn),
        pn != strategy.true_last_recv_pn,
        strategy.first_with(pn) is Some,
    ensures
        ({
            let after = strategy.after_receiving(pn);
            let past_lag = strategy.lag_shift is None || strategy.lag_shift->0
                + strategy.first_with(pn)->0 < pn;
            &&& strategy.shift_pn is Some && past_lag ==> {
                &&& after.next_max_pn >= pn + after.shift_pn->0
                &&& after.shift_pn->0 - strategy.shift_pn->0 == after.last_increase
                &&& strategy.shift_pn->0 < 4_000 ==> after.last_increase == 2
                &&& strategy.shift_pn->0 >= 4_000 ==> after.last_increase
                    == strategy.last_increase
            }
            &&& strategy.shift_pn is None || !past_lag ==> {
                &&& after.next_max_pn == strategy.next_max_pn
                &&& after.shift_pn == strategy.shift_pn
            }
        }),
{
}

/// After it has fired, the strategy keeps quiet until another packet is received.
pub proof fn firing_waits_for_the_next_packet(strategy: MaxPnView, pn: u64)
    requires
        strategy.can_receive(pn),
    ensures
        !strategy.after_firing().pending(),
        !strategy.after_firing().fires(),
        pn == strategy.true_last_recv_pn ==> !strategy.after_firing().after_receiving(
            pn,
        ).pending(),
        pn != strategy.true_last_recv_pn ==> strategy.after_firing().after_receiving(pn).pending(),
{
}

/// Where the connection takes it, every packet from the first one up to the maximum to acknowledge is
/// acknowledged when the strategy fires.
pub proof fn firing_acknowledges_ahead(
    strategy: MaxPnView,
    conn: ConnectionView,
    stream_id: u64,
    checked_at: Instant,
    now: Instant,
    opening: Result<Stream, Error>,
    pn: u64,
)
    requires
        strategy.fires(),
        conn.handshake_completed,
        conn.insert_oack_outcome(
            strategy.next_range(),
            stream_id,
            strategy.last_max_pn,
            opening,
        ) is Ok,
        !conn.streams.contains_key(stream_id) && opening == Err::<Stream, Error>(Error::Done)
            ==> pn <= strategy.first_app_pn->0 || pn - 1 <= strategy.last_max_pn,
        strategy.first_app_pn->0 <= pn < strategy.next_max_pn,
    ensures
        ({
            let firing = AckView::MaxPn(strategy).fire(conn, stream_id, checked_at, now, opening);
            firing.conn.pkt_num_spaces.application.recv_pkt_need_ack.contains(pn)
        }),
{
    successful_insertion_acknowledges_the_range(
        conn,
        strategy.next_range(),
        now,
        stream_id,
        strategy.last_max_pn,
        opening,
        pn,
    );
}

/// Whatever the strategy, firing never goes beyond the flow control limit of the connection, and
/// never moves it.
pub proof fn firing_respects_flow_control(
    strategy: AckView,
    conn: ConnectionView,
    stream_id: u64,
    checked_at: Instant,
    now: Instant,
    opening: Result<Stream, Error>,
)
    requires
        conn.rx_data <= conn.flow_control.max_data,
        strategy.can_fire(conn, stream_id, checked_at, now, opening),
    ensures
        ({
            let after = strategy.fire(conn, stream_id, checked_at, now, opening).conn;
            &&& conn.rx_data <= after.rx_data <= after.flow_control.max_data
            &&& after.flow_control.max_data == conn.flow_control.max_data
        }),
{
    match strategy {
        AckView::QLOG(q) => {
            if q.due(checked_at) {
                lemma_replay_respects_flow_control(
                    conn,
                    q.next_ranges(),
                    first_pn(conn),
                    now,
                    stream_id,
                    q.last_max_pn,
                    opening,
                );
            }
        },
        AckView::MaxPn(m) => {
            if m.fires() {
                insertion_respects_flow_control(
                    conn,
                    m.next_range(),
                    now,
                    stream_id,
                    m.last_max_pn,
                    opening,
                );
            }
        },
        AckView::Constant(c) => {
            if c.new_recv {
                insertion_respects_flow_control(
                    conn,
                    c.range,
                    now,
                    stream_id,
                    c.range.end,
                    opening,
                );
            }
        },
    }
}

/// A replay never goes beyond the flow control limit, and never moves it.
proof fn lemma_replay_respects_flow_control(
    conn: ConnectionView,
    ranges: Seq<Range<u64>>,
    shift: u64,
    now: Instant,
    stream_id: u64,
    last_max_pn: u64,
    opening: Result<Stream, Error>,
)
    requires
        conn.rx_data <= conn.flow_control.max_data,
        can_replay(conn, ranges, shift, now, stream_id, last_max_pn, opening),
    ensures
        ({
            let after = replay(conn, ranges, shift, now, stream_id, last_max_pn, opening).conn;
            &&& conn.rx_data <= after.rx_data <= after.flow_control.max_data
            &&& after.flow_control.max_data == conn.flow_control.max_data
        }),
    decreases ranges.len(),
{
    if ranges.len() > 0 {
        let range = range_on(ranges[0], shift);
        insertion_respects_flow_control(conn, range, now, stream_id, last_max_pn, opening);
        if conn.insert_oack_outcome(range, stream_id, last_max_pn, opening) is Ok {
            lemma_replay_respects_flow_control(
                conn.insert_oack(range, now, stream_id, last_max_pn, opening),
                ranges.drop_first(),
                shift,
                now,
                stream_id,
                last_acknowledged(ranges[0], shift, last_max_pn),
                opening,
            );
        }
    }
}

/// Whatever the strategy, firing receives nothing: the largest packet number received stays what it
/// is, however far the acknowledgments run ahead.
pub proof fn firing_receives_nothing(
    strategy: AckView,
    conn: ConnectionView,
    stream_id: u64,
    checked_at: Instant,
    now: Instant,
    opening: Result<Stream, Error>,
)
    ensures
        strategy.fire(conn, stream_id, checked_at, now, opening).conn.oack_max_app_pn
            == conn.oack_max_app_pn,
{
    if let AckView::QLOG(q) = strategy {
        lemma_replay_receives_nothing(
            conn,
            q.next_ranges(),
            first_pn(conn),
            now,
            stream_id,
            q.last_max_pn,
            opening,
        );
    }
}

/// A replay receives nothing.
proof fn lemma_replay_receives_nothing(
    conn: ConnectionView,
    ranges: Seq<Range<u64>>,
    shift: u64,
    now: Instant,
    stream_id: u64,
    last_max_pn: u64,
    opening: Result<Stream, Error>,
)
    ensures
        replay(conn, ranges, shift, now, stream_id, last_max_pn, opening).conn.oack_max_app_pn
            == conn.oack_max_app_pn,
    decreases ranges.len(),
{
    if ranges.len() > 0 {
        lemma_replay_receives_nothing(
            conn.insert_oack(range_on(ranges[0], shift), now, stream_id, last_max_pn, opening),
            ranges.drop_first(),
            shift,
            now,
            stream_id,
            last_acknowledged(ranges[0], shift, last_max_pn),
            opening,
        );
    }
}

/// A strategy is told the largest packet number received, and fires. Telling it the largest packet
/// number received again changes nothing: what it has acknowledged itself does not have it fire once
/// more.
pub proof fn acknowledgments_do_not_feed_back(
    strategy: AckView,
    conn: ConnectionView,
    stream_id: u64,
    checked_at: Instant,
    now: Instant,
    opening: Result<Stream, Error>,
)
    requires
        strategy.can_receive(conn.oack_max_app_pn),
    ensures
        ({
            let told = strategy.after_receiving(conn.oack_max_app_pn);
            let firing = told.fire(conn, stream_id, checked_at, now, opening);
            let after = firing.strategy.after_receiving(firing.conn.oack_max_app_pn);
            &&& firing.strategy.can_receive(firing.conn.oack_max_app_pn)
            &&& after == firing.strategy
            &&& told matches AckView::MaxPn(m) ==> m.fires() ==> (after matches AckView::MaxPn(fired)
                && !fired.pending())
            &&& after matches AckView::Constant(c) ==> !c.new_recv
        }),
{
    firing_receives_nothing(
        strategy.after_receiving(conn.oack_max_app_pn),
        conn,
        stream_id,
        checked_at,
        now,
        opening,
    );
}

/// The strategy after it has received packets, one after the other.
pub open spec fn after_receiving_all(strategy: MaxPnView, pns: Seq<u64>) -> MaxPnView
    decreases pns.len(),
{
    if pns.len() == 0 {
        strategy
    } else {
        after_receiving_all(strategy, pns.drop_last()).after_receiving(pns.last())
    }
}

/// No packet number gets too large when packets are received one after the other.
pub open spec fn can_receive_all(strategy: MaxPnView, pns: Seq<u64>) -> bool
    decreases pns.len(),
{
    pns.len() > 0 ==> {
        &&& can_receive_all(strategy, pns.drop_last())
        &&& after_receiving_all(strategy, pns.drop_last()).can_receive(pns.last())
    }
}

/// After a firing, whatever is received until the next one, exactly the packets of the next range
/// that are outside the last one are new, and these are the ones that the connection counts.
pub proof fn firing_counts_every_packet_once(
    strategy: MaxPnView,
    pns: Seq<u64>,
    pn: u64,
    conn: ConnectionView,
    stream_id: u64,
    opening: Result<Stream, Error>,
)
    requires
        strategy.fires(),
        strategy.next_range().start < strategy.next_range().end,
        can_receive_all(strategy.after_firing(), pns),
    ensures
        ({
            let last = strategy.next_range();
            let later = after_receiving_all(strategy.after_firing(), pns);
            let next = later.next_range();
            let run = conn.oack_run(next, stream_id, later.last_max_pn, opening);
            &&& later.first_app_pn == strategy.first_app_pn
            &&& later.last_max_pn == last.end - 1
            &&& next.start == last.start && next.end >= last.end
            &&& next.start <= pn < next.end ==> (pn > later.last_max_pn <==> !(last.start <= pn
                < last.end))
            &&& run.outcome is Ok && conn.stream(stream_id, opening) is Ok ==> run.counted
                == next.end - last.end
        }),
    decreases pns.len(),
{
    if pns.len() > 0 {
        firing_counts_every_packet_once(
            strategy,
            pns.drop_last(),
            pn,
            conn,
            stream_id,
            opening,
        );
        let before = after_receiving_all(strategy.after_firing(), pns.drop_last());
        receiving_is_monotonic(before, pns.last());
    }
}

/// After a replay that the connection has taken, the last maximum is the last packet number of the
/// last range, counted from the first packet number of the connection.
pub proof fn replay_remembers_what_was_acknowledged(
    conn: ConnectionView,
    ranges: Seq<Range<u64>>,
    shift: u64,
    now: Instant,
    stream_id: u64,
    last_max_pn: u64,
    opening: Result<Stream, Error>,
)
    requires
        can_replay(conn, ranges, shift, now, stream_id, last_max_pn, opening),
        ranges.len() > 0,
        ranges.last().end > 0,
        replay(conn, ranges, shift, now, stream_id, last_max_pn, opening).outcome is Ok,
    ensures
        replay(conn, ranges, shift, now, stream_id, last_max_pn, opening).last_max_pn
            == range_on(ranges.last(), shift).end - 1,
    decreases ranges.len(),
{
    reveal_with_fuel(replay, 2);
    if ranges.len() > 1 {
        replay_remembers_what_was_acknowledged(
            conn.insert_oack(range_on(ranges[0], shift), now, stream_id, last_max_pn, opening),
            ranges.drop_first(),
            shift,
            now,
            stream_id,
            last_acknowledged(ranges[0], shift, last_max_pn),
            opening,
        );
    }
}

/// A packet number that is received again does not call for another acknowledgment of a constant
/// range. One that differs does, if it is past the lag.
pub proof fn repeated_packet_is_not_new(strategy: ConstantView, pn: u64, other: u64)
    ensures
        ({
            let fired = ConstantView { new_recv: false, ..strategy.after_receiving(pn) };
            &&& !fired.after_receiving(pn).new_recv
            &&& other != pn && strategy.lag is None ==> fired.after_receiving(other).new_recv
        }),
{
}

/// A constant range is never refused: its packets are recorded, but neither counted nor charged.
pub proof fn constant_range_is_never_refused(
    strategy: ConstantView,
    conn: ConnectionView,
    stream_id: u64,
    checked_at: Instant,
    now: Instant,
    opening: Result<Stream, Error>,
)
    ensures
        ({
            let firing = AckView::Constant(strategy).fire(
                conn,
                stream_id,
                checked_at,
                now,
                opening,
            );
            &&& AckView::Constant(strategy).can_fire(conn, stream_id, checked_at, now, opening)
            &&& firing.outcome == Ok::<(), Error>(())
            &&& firing.conn == ConnectionView {
                pkt_num_spaces: firing.conn.pkt_num_spaces,
                tx_cap_outdated: firing.conn.tx_cap_outdated,
                ..conn
            }
        }),
{
    known_packets_cost_nothing(
        conn,
        strategy.range,
        now,
        stream_id,
        strategy.range.end,
        opening,
    );
}

/// The first packet number moves a constant range, and no later one does.
pub proof fn constant_range_moves_once(strategy: ConstantView, first: u64, later: u64)
    ensures
        strategy.after_receiving(first).first_app_pn is Some,
        strategy.after_receiving(first).after_receiving(later).range == strategy.after_receiving(
            first,
        ).range,
        strategy.first_app_pn is None && strategy.range.start + first <= u64::MAX
            && strategy.range.end + first <= u64::MAX ==> {
            let range = strategy.after_receiving(first).range;
            range.start == strategy.range.start + first && range.end == strategy.range.end + first
        },
{
}

/// The replay of a trace waits less the later it is asked, for as long as the same acknowledgment
/// comes next.
pub proof fn replay_comes_nearer(strategy: QlogView, earlier: Instant, later: Instant)
    requires
        strategy.valid(),
        strategy.start_time is Some,
        earlier.nanos <= later.nanos,
    ensures
        strategy.timeout_at(earlier) is Some <==> strategy.timeout_at(later) is Some,
        strategy.timeout_at(earlier) is Some ==> strategy.timeout_at(later)->0.nanos
            <= strategy.timeout_at(earlier)->0.nanos,
        strategy.due(earlier) ==> strategy.due(later),
{
}

/// A trace is replayed one acknowledgment at a time: a replay that the connection takes goes on to
/// the next acknowledgment, and one that it refuses comes again. After the last one the strategy is
/// not active, and waits for nothing.
pub proof fn replay_goes_through_the_trace(
    strategy: QlogView,
    conn: ConnectionView,
    stream_id: u64,
    checked_at: Instant,
    now: Instant,
    opening: Result<Stream, Error>,
    later: Instant,
)
    requires
        strategy.valid(),
        strategy.due(checked_at),
    ensures
        AckView::QLOG(strategy).fire(conn, stream_id, checked_at, now, opening).strategy matches
            AckView::QLOG(after) && {
            let outcome = AckView::QLOG(strategy).fire(
                conn,
                stream_id,
                checked_at,
                now,
                opening,
            ).outcome;
            &&& after.oack == strategy.oack
            &&& outcome is Ok ==> after.idx == strategy.idx + 1
            &&& outcome is Err ==> after.idx == strategy.idx && after.active
            &&& outcome is Ok && strategy.idx + 1 < strategy.oack.len() ==> after.active
            &&& outcome is Ok && strategy.idx + 1 == strategy.oack.len() ==> {
                &&& !after.active
                &&& after.timeout_at(later) is None
            }
        },
{
}

/// A schedule starts ten milliseconds after it is activated, and no acknowledgment comes earlier.
pub proof fn schedule_starts_after_ten_milliseconds(acks: Seq<RecordedAck>, i: int)
    requires
        0 <= i < acks.len(),
    ensures
        schedule(acks)[0].0.nanos == 10_000_000,
        schedule(acks)[i].0.nanos >= 10_000_000,
        acks[i].time >= acks[0].time ==> schedule(acks)[i].0.nanos == acks[i].time - acks[0].time
            + 10_000_000,
{
}

/// The packet numbers of a schedule are counted from its first one: that becomes 0.
pub proof fn schedule_starts_at_packet_zero(acks: Seq<RecordedAck>, i: int)
    requires
        0 <= i < acks.len(),
        acks[i].ranges.len() > 0,
        forall|j: int| 0 <= j < i ==> (#[trigger] acks[j]).ranges.len() == 0,
    ensures
        schedule(acks)[i].1[0].start == 0,
        forall|k: int|
            0 <= k < acks[i].ranges.len() && countable(
                acks[i].ranges[k],
                acks[i].ranges[0].0,
            ) ==> {
                &&& (#[trigger] schedule(acks)[i].1[k]).start == acks[i].ranges[k].0
                    - acks[i].ranges[0].0
                &&& schedule(acks)[i].1[k].end == acks[i].ranges[k].1 - acks[i].ranges[0].0 + 1
            },
{
    lemma_first_packet_at(acks, i);
}

/// The first packet number is that of the first acknowledgment with ranges.
proof fn lemma_first_packet_at(acks: Seq<RecordedAck>, i: int)
    requires
        0 <= i < acks.len(),
        acks[i].ranges.len() > 0,
        forall|j: int| 0 <= j < i ==> (#[trigger] acks[j]).ranges.len() == 0,
    ensures
        first_packet(acks) == Some(acks[i].ranges[0].0),
    decreases i,
{
    if i > 0 {
        assert(acks[0].ranges.len() == 0);
        assert forall|j: int| 0 <= j < i - 1 implies (
        #[trigger] acks.drop_first()[j]).ranges.len() == 0 by {
            assert(acks.drop_first()[j] == acks[j + 1]);
        }
        lemma_first_packet_at(acks.drop_first(), i - 1);
    }
}

/// The protocol that is selected is supported, it is offered, and none that is offered before it is
/// supported. One is selected if any is both offered and supported.
pub proof fn selection_follows_the_offer(supported: Seq<Seq<u8>>, offered: Seq<Seq<u8>>)
    ensures
        match select(supported, offered) {
            Some(index) => exists|i: int|
                0 <= i < offered.len() && #[trigger] offered[i] == supported[index] && 0 <= index
                    < supported.len() && forall|j: int|
                    0 <= j < i ==> !supported.contains(#[trigger] offered[j]),
            None => forall|j: int|
                0 <= j < offered.len() ==> !supported.contains(#[trigger] offered[j]),
        },
    decreases offered.len(),
{
    if offered.len() > 0 {
        if supported.contains(offered[0]) {
            supported.index_of_first_ensures(offered[0]);
        } else {
            let rest = offered.drop_first();
            selection_follows_the_offer(supported, rest);
            match select(supported, rest) {
                Some(index) => {
                    let i = choose|i: int|
                        0 <= i < rest.len() && #[trigger] rest[i] == supported[index] && 0 <= index
                            < supported.len() && forall|j: int|
                            0 <= j < i ==> !supported.contains(#[trigger] rest[j]);
                    assert(offered[i + 1] == supported[index]);
                    assert forall|j: int| 0 <= j < i + 1 implies !supported.contains(
                        #[trigger] offered[j],
                    ) by {
                        if j > 0 {
                            assert(rest[j - 1] == offered[j]);
                        }
                    }
                },
                None => {
                    assert forall|j: int| 0 <= j < offered.len() implies !supported.contains(
                        #[trigger] offered[j],
                    ) by {
                        if j > 0 {
                            assert(rest[j - 1] == offered[j]);
                        }
                    }
                },
            }
        }
    }
}

/// The calls that go out from `step` on, when the stack answers them in turn with `answers`.
pub open spec fn calls<'a>(step: Step<'a>, answers: Seq<i32>) -> Seq<Call<'a>>
    decreases answers.len(),
{
    match step {
        Step::Call(call, pending) => if answers.len() == 0 {
            seq![call]
        } else {
            seq![call] + calls(pending.after(answers[0]), answers.drop_first())
        },
        Step::Return(_) => Seq::empty(),
    }
}

/// What is returned from `step` on, when the stack answers the calls in turn with `answers`.
pub open spec fn result(step: Step<'_>, answers: Seq<i32>) -> Option<Result<(), Error>>
    decreases answers.len(),
{
    match step {
        Step::Call(_, pending) => if answers.len() == 0 {
            None
        } else {
            result(pending.after(answers[0]), answers.drop_first())
        },
        Step::Return(result) => Some(result),
    }
}

/// Why the connection is closed when the operation is over, or the answers are used up.
pub open spec fn error_at_the_end(
    step: Step<'_>,
    answers: Seq<i32>,
    local_error: Option<ConnectionErrorView>,
) -> Option<ConnectionErrorView>
    decreases answers.len(),
{
    match step {
        Step::Call(_, pending) => if answers.len() == 0 {
            local_error
        } else {
            error_at_the_end(
                pending.after(answers[0]),
                answers.drop_first(),
                pending.error_after(answers[0], local_error),
            )
        },
        Step::Return(_) => local_error,
    }
}

/// How many calls an operation makes at most after this one.
pub open spec fn calls_left(pending: Pending<'_>) -> nat {
    match pending {
        Pending::Ended(_) => 0,
        Pending::Checked => 0,
        Pending::ZeroChecked => 0,
        Pending::AlpnCallback(_) => 1,
        Pending::Error => 1,
        Pending::Mapped => 2,
        Pending::ContextCallback => 1,
        Pending::ContextCacheMode => 2,
        Pending::InitEarlyData => 1,
        Pending::InitQuicMethod => 2,
        Pending::InitMaxVersion => 3,
        Pending::InitMinVersion => 4,
        Pending::InitState => 5,
        Pending::HostName(_) => 2,
        Pending::Failed(_) => 2,
        Pending::ExDataCleared(_) => 3,
        Pending::Driven => 4,
        Pending::ExDataSet(_) => 5,
    }
}

/// Every operation comes to an end, after six calls at most.
pub proof fn operations_end(call: Call<'_>, pending: Pending<'_>, answers: Seq<i32>)
    requires
        answers.len() > calls_left(pending),
    ensures
        calls_left(pending) <= 5,
        result(Step::Call(call, pending), answers) is Some,
    decreases calls_left(pending),
{
    reveal_with_fuel(result, 2);
    match pending.after(answers[0]) {
        Step::Call(next, left) => {
            assert(calls_left(left) < calls_left(pending));
            operations_end(next, left, answers.drop_first());
        },
        Step::Return(_) => {
        },
    }
}

/// The set-up of a handshake succeeds if and only if the stack accepts TLS 1.3 as the lowest and the
/// highest version, the methods for QUIC and the context for early data. What follows a refusal is
/// not asked for any more.
pub proof fn init_asks_in_order(
    is_server: bool,
    state: i32,
    min: i32,
    max: i32,
    method: i32,
    early: i32,
    quiet: i32,
)
    ensures
        ({
            let role = if is_server {
                Call::SetAcceptState
            } else {
                Call::SetConnectState
            };
            let start = Step::Call(role, Pending::InitState);
            let answers = seq![state, min, max, method, early, quiet];
            let all = seq![
                role,
                Call::SetMinProtoVersion(0x0304),
                Call::SetMaxProtoVersion(0x0304),
                Call::SetQuicMethod,
                Call::SetQuicEarlyDataContext("quiche"),
                Call::SetQuietShutdown(1),
            ];
            if min == 1 && max == 1 && method == 1 && early == 1 {
                &&& result(start, answers) == Some(Ok::<(), Error>(()))
                &&& calls(start, answers) == all
            } else {
                &&& result(start, answers) == Some(Err::<(), Error>(Error::TlsFail))
                &&& calls(start, answers) == all.take(
                    if min != 1 {
                        2
                    } else if max != 1 {
                        3
                    } else if method != 1 {
                        4
                    } else {
                        5int
                    },
                )
            }
        }),
{
    reveal_with_fuel(calls, 7);
    reveal_with_fuel(result, 7);
    let role = if is_server {
        Call::SetAcceptState
    } else {
        Call::SetConnectState
    };
    let start = Step::Call(role, Pending::InitState);
    let answers = seq![state, min, max, method, early, quiet];
    let all = seq![
        role,
        Call::SetMinProtoVersion(0x0304),
        Call::SetMaxProtoVersion(0x0304),
        Call::SetQuicMethod,
        Call::SetQuicEarlyDataContext("quiche"),
        Call::SetQuietShutdown(1),
    ];
    assert(answers.drop_first() =~= seq![min, max, method, early, quiet]);
    assert(seq![min, max, method, early, quiet].drop_first() =~= seq![max, method, early, quiet]);
    assert(seq![max, method, early, quiet].drop_first() =~= seq![method, early, quiet]);
    assert(seq![method, early, quiet].drop_first() =~= seq![early, quiet]);
    assert(seq![early, quiet].drop_first() =~= seq![quiet]);
    assert(seq![quiet].drop_first() =~= Seq::<i32>::empty());
    let count = calls(start, answers).len() as int;
    assert(calls(start, answers) =~= all.take(count));
    if count == 6 {
        assert(all.take(6) =~= all);
    }
}

/// Taking up a handshake sets the data for the callbacks before the stack runs, and clears it
/// afterwards, whatever the stack answers. It succeeds if the stack does; otherwise the error that
/// the stack gives decides. An error that cannot be recovered from closes the connection, unless it
/// is closed already.
pub proof fn handshake_runs_with_its_data(
    drive: Drive,
    set: i32,
    driven: i32,
    cleared: i32,
    failure: i32,
    error: i32,
    reset: i32,
    local_error: Option<ConnectionErrorView>,
)
    ensures
        ({
            let start = Step::Call(Call::SetExData, Pending::ExDataSet(drive));
            let run = match drive {
                Drive::Handshake => Call::DoHandshake,
                Drive::PostHandshake => Call::ProcessQuicPostHandshake,
            };
            let answers = seq![set, driven, cleared, failure, error, reset];
            let made = calls(start, answers);
            let closed = error_at_the_end(start, answers, local_error);
            if set != 1 {
                &&& made == seq![Call::SetExData]
                &&& result(start, answers) == Some(Err::<(), Error>(Error::TlsFail))
                &&& closed == local_error
            } else {
                &&& made.take(3) == seq![Call::SetExData, run, Call::ClearExData]
                &&& cleared != 1 ==> {
                    &&& made.len() == 3
                    &&& result(start, answers) == Some(Err::<(), Error>(Error::TlsFail))
                    &&& closed == local_error
                }
                &&& cleared == 1 ==> {
                    let later = 2 <= error <= 4 || 11 <= error <= 16;
                    &&& made[3] == Call::GetError(driven)
                    &&& driven == 1 ==> made.len() == 4
                    &&& driven != 1 && error != 15 ==> made.skip(4) == seq![Call::GetError(driven)]
                    &&& driven != 1 && error == 15 ==> made.skip(4) == seq![
                        Call::GetError(driven),
                        Call::ResetEarlyDataReject,
                    ]
                    &&& result(start, answers) == Some(
                        if driven == 1 {
                            Ok::<(), Error>(())
                        } else if later {
                            Err(Error::Done)
                        } else {
                            Err(Error::TlsFail)
                        },
                    )
                    &&& failure == 1 ==> closed is Some
                    &&& failure != 1 || local_error is Some ==> closed == local_error
                    &&& failure == 1 && local_error is None ==> closed == Some(
                        ConnectionErrorView {
                            is_app: false,
                            error_code: 1,
                            reason: Seq::empty(),
                        },
                    )
                }
            }
        }),
{
    reveal_with_fuel(calls, 7);
    reveal_with_fuel(result, 7);
    reveal_with_fuel(error_at_the_end, 7);
    let start = Step::Call(Call::SetExData, Pending::ExDataSet(drive));
    let run = match drive {
        Drive::Handshake => Call::DoHandshake,
        Drive::PostHandshake => Call::ProcessQuicPostHandshake,
    };
    let answers = seq![set, driven, cleared, failure, error, reset];
    assert(answers.drop_first() =~= seq![driven, cleared, failure, error, reset]);
    assert(seq![driven, cleared, failure, error, reset].drop_first() =~= seq![
        cleared,
        failure,
        error,
        reset,
    ]);
    assert(seq![cleared, failure, error, reset].drop_first() =~= seq![failure, error, reset]);
    assert(seq![failure, error, reset].drop_first() =~= seq![error, reset]);
    assert(seq![error, reset].drop_first() =~= seq![reset]);
    assert(seq![reset].drop_first() =~= Seq::<i32>::empty());
    let made = calls(start, answers);
    if set == 1 {
        assert(made.take(3) =~= seq![Call::SetExData, run, Call::ClearExData]);
        if cleared == 1 && driven != 1 {
            if error == 15 {
                assert(made.skip(4) =~= seq![Call::GetError(driven), Call::ResetEarlyDataReject]);
            } else {
                assert(made.skip(4) =~= seq![Call::GetError(driven)]);
            }
        }
    } else {
        assert(made =~= seq![Call::SetExData]);
    }
}

/// The error that the stack gives is a failure of the handshake, or lets it be taken up again later.
/// Only a rejection of early data has the stack reset.
pub proof fn stack_errors_are_final_or_not(answer: i32, error: i32, reset: i32)
    requires
        answer != 1,
    ensures
        ({
            let start = Pending::Mapped.after(answer);
            let answers = seq![error, reset];
            let later = error == 2 || error == 3 || error == 4 || 11 <= error <= 16;
            &&& result(start, answers) == Some(
                Err::<(), Error>(
                    if later {
                        Error::Done
                    } else {
                        Error::TlsFail
                    },
                ),
            )
            &&& calls(start, answers) == if error == 15 {
                seq![Call::GetError(answer), Call::ResetEarlyDataReject]
            } else {
                seq![Call::GetError(answer)]
            }
        }),
{
    reveal_with_fuel(calls, 3);
    reveal_with_fuel(result, 3);
    let answers = seq![error, reset];
    assert(answers.drop_first() =~= seq![reset]);
    assert(seq![reset].drop_first() =~= Seq::<i32>::empty());
    let start = Pending::Mapped.after(answer);
    assert(calls(start, answers) =~= if error == 15 {
        seq![Call::GetError(answer), Call::ResetEarlyDataReject]
    } else {
        seq![Call::GetError(answer)]
    });
}

/// A context is set up if and only if the certificates of the system can be loaded, after the session
/// callback has been enabled.
pub proof fn context_needs_certificates(mode: i32, callback: i32, loaded: i32)
    ensures
        ({
            let start = Step::Call(
                Call::SetSessionCacheMode(0x0001),
                Pending::ContextCacheMode,
            );
            let answers = seq![mode, callback, loaded];
            &&& calls(start, answers) == seq![
                Call::SetSessionCacheMode(0x0001),
                Call::SetNewSessionCallback,
                Call::LoadCaCerts,
            ]
            &&& result(start, answers) == Some(
                if loaded == 1 {
                    Ok::<(), Error>(())
                } else {
                    Err(Error::TlsFail)
                },
            )
        }),
{
    reveal_with_fuel(calls, 4);
    reveal_with_fuel(result, 4);
    let answers = seq![mode, callback, loaded];
    assert(answers.drop_first() =~= seq![callback, loaded]);
    assert(seq![callback, loaded].drop_first() =~= seq![loaded]);
    assert(seq![loaded].drop_first() =~= Seq::<i32>::empty());
    let start = Step::Call(
        Call::SetSessionCacheMode(0x0001),
        Pending::ContextCacheMode,
    );
    assert(calls(start, answers) =~= seq![
        Call::SetSessionCacheMode(0x0001),
        Call::SetNewSessionCallback,
        Call::LoadCaCerts,
    ]);
}

/// A host name that the server is asked for is the one that its certificate is checked against. A
/// name with a zero byte in it is never handed to the stack.
pub proof fn host_name_is_checked(name: &str, asked: i32, checked: i32)
    ensures
        ({
            let start = named(name, Call::SetHostName(name), Pending::HostName(name));
            let answers = seq![asked, checked];
            if vstd::utf8::encode_utf8(name@).contains(0) {
                &&& calls(start, answers) == Seq::<Call<'_>>::empty()
                &&& result(start, answers) == Some(Err::<(), Error>(Error::TlsFail))
            } else {
                &&& calls(start, answers)[0] == Call::SetHostName(name)
                &&& asked == 1 ==> {
                    &&& calls(start, answers) == seq![
                        Call::SetHostName(name),
                        Call::SetVerifyHost(name),
                    ]
                    &&& result(start, answers) == Some(
                        if checked == 1 {
                            Ok::<(), Error>(())
                        } else {
                            Err(Error::TlsFail)
                        },
                    )
                }
                &&& asked != 1 ==> calls(start, answers)[1] == Call::GetError(asked)
                &&& asked != 1 && checked != 15 ==> result(start, answers) == Some(
                    if 2 <= checked <= 4 || 11 <= checked <= 16 {
                        Err::<(), Error>(Error::Done)
                    } else {
                        Err(Error::TlsFail)
                    },
                )
            }
        }),
{
    reveal_with_fuel(calls, 3);
    reveal_with_fuel(result, 3);
    let answers = seq![asked, checked];
    assert(answers.drop_first() =~= seq![checked]);
    assert(seq![checked].drop_first() =~= Seq::<i32>::empty());
    let start = named(name, Call::SetHostName(name), Pending::HostName(name));
    if !has_nul(name@) && asked == 1 {
        assert(calls(start, answers) =~= seq![Call::SetHostName(name), Call::SetVerifyHost(name)]);
    }
}

/// A name of a file or a directory is handed to the stack as it is, unless there is a zero byte in
/// it. The answer of the stack decides: it is 1 on success.
pub proof fn names_are_handed_over(name: &str, call: Call<'_>, answer: i32)
    ensures
        ({
            let start = named(name, call, Pending::Checked);
            let answers = seq![answer];
            if vstd::utf8::encode_utf8(name@).contains(0) {
                &&& calls(start, answers) == Seq::<Call<'_>>::empty()
                &&& result(start, answers) == Some(Err::<(), Error>(Error::TlsFail))
            } else {
                &&& calls(start, answers) == seq![call]
                &&& answer == 1 ==> result(start, answers) == Some(Ok::<(), Error>(()))
                &&& answer != 1 ==> result(start, answers) == Some(
                    Err::<(), Error>(Error::TlsFail),
                )
            }
        }),
        FILETYPE_PEM == 1,
{
    reveal_with_fuel(calls, 2);
    reveal_with_fuel(result, 2);
    assert(seq![answer].drop_first() =~= Seq::<i32>::empty());
    let start = named(name, call, Pending::Checked);
    if !has_nul(name@) {
        assert(calls(start, seq![answer]) =~= seq![call]);
    }
}

/// The protocols are offered once the callback that selects one is in place. The answer to the offer
/// decides: it is 0 on success.
pub proof fn protocols_are_offered(wire: &[u8], set: i32, offered: i32)
    ensures
        ({
            let start = Step::Call(Call::SetAlpnSelectCallback, Pending::AlpnCallback(wire));
            let answers = seq![set, offered];
            &&& calls(start, answers) == seq![
                Call::SetAlpnSelectCallback,
                Call::SetAlpnProtos(wire),
            ]
            &&& offered == 0 ==> result(start, answers) == Some(Ok::<(), Error>(()))
            &&& offered != 0 ==> result(start, answers) == Some(Err::<(), Error>(Error::TlsFail))
        }),
{
    reveal_with_fuel(calls, 3);
    reveal_with_fuel(result, 3);
    let answers = seq![set, offered];
    assert(answers.drop_first() =~= seq![offered]);
    assert(seq![offered].drop_first() =~= Seq::<i32>::empty());
    let start = Step::Call(Call::SetAlpnSelectCallback, Pending::AlpnCallback(wire));
    assert(calls(start, answers) =~= seq![Call::SetAlpnSelectCallback, Call::SetAlpnProtos(wire)]);
}

/// Only the error of a handshake closes the connection, and only if it cannot be recovered from.
pub proof fn other_answers_close_nothing(
    pending: Pending<'_>,
    answer: i32,
    local_error: Option<ConnectionErrorView>,
)
    requires
        !(pending is Failed) || answer != 1 || local_error is Some,
    ensures
        pending.error_after(answer, local_error) == local_error,
{
}

/// A call whose error is asked for succeeds if the answer is 1, without a further call.
pub proof fn success_needs_no_further_call(call: Call<'_>, answers: Seq<i32>)
    requires
        answers.len() > 0,
        answers[0] == 1,
    ensures
        result(Step::Call(call, Pending::Mapped), answers) == Some(Ok::<(), Error>(())),
        calls(Step::Call(call, Pending::Mapped), answers) == seq![call],
{
    reveal_with_fuel(calls, 2);
    reveal_with_fuel(result, 2);
    assert(calls(Step::Call(call, Pending::Mapped), answers) =~= seq![call]);
}

/// What has been provided to the stack is processed when that is asked for, and only once.
pub proof fn provided_data_is_processed_once(handshake: Handshake)
    ensures
        handshake.after_providing().processing() == Step::Call(
            Call::SetExData,
            Pending::ExDataSet(Drive::PostHandshake),
        ),
        handshake.after_processing().processing() == Step::Return(Ok::<(), Error>(())),
        handshake.after_providing().after_processing() == handshake.after_processing(),
{
}

/// A secret that is refused changes nothing. One that is taken changes one key of one packet number
/// space.
pub proof fn secrets_change_one_key(
    ex_data: ExDataView,
    level: Level,
    cipher_id: u32,
    secret: Seq<u8>,
    derivable: bool,
)
    ensures
        ({
            let read = ex_data.after_read_secret(level, cipher_id, secret, derivable);
            let write = ex_data.after_write_secret(level, cipher_id, secret, derivable);
            let space = ex_data.pkt_num_spaces.get(epoch_of(level));
            let read_space = read.pkt_num_spaces.get(epoch_of(level));
            let write_space = write.pkt_num_spaces.get(epoch_of(level));
            &&& ex_data.secret_status(level, true, cipher_id, derivable) == FAILURE ==> read
                == ex_data
            &&& ex_data.secret_status(level, false, cipher_id, derivable) == FAILURE ==> write
                == ex_data
            &&& read == ex_data.with_space(level, read_space)
            &&& write == ex_data.with_space(level, write_space)
            &&& level != Level::ZeroRTT ==> read_space == SpaceView {
                crypto_open: read_space.crypto_open,
                ..space
            }
            &&& level == Level::ZeroRTT ==> read_space == SpaceView {
                crypto_0rtt_open: read_space.crypto_0rtt_open,
                ..space
            }
            &&& write_space == SpaceView { crypto_seal: write_space.crypto_seal, ..space }
        }),
{
}

/// How many requests a client sends that finds its connection in these states, one after the other:
/// whether it is established, and whether it is closed.
pub open spec fn requests_sent(client: Client, states: Seq<(bool, bool)>) -> nat
    decreases states.len(),
{
    if states.len() == 0 {
        0
    } else {
        let plan = client.request_plan(states[0].0, states[0].1);
        let sent: nat = if plan.send_hq || plan.send_h3 {
            1
        } else {
            0
        };
        sent + requests_sent(client.after_request(plan), states.drop_first())
    }
}

/// A client that has not begun sends its request exactly once if it ever finds its connection
/// established and not closed, and never otherwise.
pub proof fn request_is_sent_once(client: Client, states: Seq<(bool, bool)>)
    requires
        client.h3_open ==> client.req_sent,
    ensures
        requests_sent(client, states) == if !client.req_sent && states.contains((true, false)) {
            1nat
        } else {
            0nat
        },
    decreases states.len(),
{
    if states.len() > 0 {
        let plan = client.request_plan(states[0].0, states[0].1);
        request_is_sent_once(client.after_request(plan), states.drop_first());
        if states[0] != (true, false) && states.contains((true, false)) {
            let i = choose|i: int| 0 <= i < states.len() && states[i] == (true, false);
            assert(states.drop_first()[i - 1] == (true, false));
        }
        if states.drop_first().contains((true, false)) {
            let i = choose|i: int|
                0 <= i < states.drop_first().len() && states.drop_first()[i] == (true, false);
            assert(states[i + 1] == (true, false));
        }
    }
}

/// How often a client advertises higher limits that finds the stream of its request readable or not,
/// time after time.
pub open spec fn limits_raised(client: Client, readable: Seq<bool>) -> nat
    decreases readable.len(),
{
    if readable.len() == 0 {
        0
    } else {
        let raised: nat = if client.limits_due(readable[0]) {
            1
        } else {
            0
        };
        raised + limits_raised(client.after_limits(readable[0]), readable.drop_first())
    }
}

/// A client that acknowledges opportunistically advertises higher limits exactly once if the stream
/// of its request ever becomes readable. Other clients never do.
pub proof fn limits_are_raised_once(client: Client, readable: Seq<bool>)
    ensures
        limits_raised(client, readable) == if client.do_oack && !client.did_increase_max_data
            && readable.contains(true) {
            1nat
        } else {
            0nat
        },
    decreases readable.len(),
{
    if readable.len() > 0 {
        limits_are_raised_once(client.after_limits(readable[0]), readable.drop_first());
        if !readable[0] && readable.contains(true) {
            let i = choose|i: int| 0 <= i < readable.len() && readable[i];
            assert(readable.drop_first()[i - 1]);
        }
        if readable.drop_first().contains(true) {
            let i = choose|i: int|
                0 <= i < readable.drop_first().len() && readable.drop_first()[i];
            assert(readable[i + 1]);
        }
    }
}

} // verus!
