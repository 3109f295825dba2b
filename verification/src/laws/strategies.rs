//! When the strategies acknowledge, and what.
use crate::connection::ConnectionView;
use crate::error::Error;
use crate::flow::Stream;
use crate::oack::{
    can_replay, is_created, replay, AckView, ConstantView, MaxPnView, OpportunistAck, QlogView,
};
use crate::qlog::{acks_in, first_error, json_records, leading, schedule, QlogError, RecordedAck};
use crate::time::{Duration, Instant};
use std::ops::Range;
use vstd::prelude::*;

verus! {

/// With a trace, its acknowledgments are replayed from the first one on, unless a record of it cannot
/// be read. Without one, the strategy follows the maximum received packet number.
pub proof fn trace_decides_about_the_strategy(
    strategy: Result<OpportunistAck, QlogError>,
    trace: &[u8],
    nanos: Seq<u64>,
    shift_pn: Option<u64>,
    lag_shift: Option<u64>,
)
    ensures
        ({
            let records = json_records(trace@);
            is_created(strategy, Some(trace), nanos, shift_pn, lag_shift) <==> match strategy {
                Ok(strategy) => {
                    &&& first_error(records) is None
                    &&& strategy@ == AckView::QLOG(
                        QlogView {
                            oack: schedule(acks_in(leading(records), nanos)),
                            start_time: None,
                            idx: 0,
                            last_max_pn: 0,
                            active: false,
                        },
                    )
                },
                Err(error) => first_error(records) == Some(error),
            }
        }),
        is_created(strategy, None, nanos, shift_pn, lag_shift) <==> {
            &&& strategy matches Ok(strategy)
            &&& strategy@ == AckView::MaxPn(MaxPnView::start(shift_pn, lag_shift))
        },
{
}

/// The replay of a trace starts its clock the first time that it is asked, if it is active. Nothing
/// else of it changes when it is asked how long to wait.
pub proof fn replay_starts_its_clock_once(strategy: QlogView, now: Instant)
    ensures
        ({
            let after = strategy.started(now);
            &&& after == QlogView { start_time: after.start_time, ..strategy }
            &&& strategy.active && strategy.start_time is None ==> after.start_time == Some(now)
            &&& !strategy.active || strategy.start_time is Some ==> after.start_time
                == strategy.start_time
            &&& AckView::QLOG(strategy).after_timeout(now) == AckView::QLOG(after)
        }),
{
}

/// The next acknowledgment of a replay that started at `start` is due from a microsecond past its
/// delay after the start on, whichever acknowledgment it is, and the replay waits exactly until
/// then. A replay that is not active, or has none left, waits for nothing.
pub proof fn replay_is_due_on_time(strategy: QlogView, start: Instant, now: Instant)
    requires
        strategy.valid(),
        strategy.start_time == Some(start) || (strategy.start_time is None && start == now),
    ensures
        ({
            let wait = strategy.timeout_at(now);
            let due = start.nanos + strategy.oack[strategy.idx].0.nanos + 1_000;
            if strategy.active && strategy.idx < strategy.oack.len() {
                &&& wait is Some
                &&& now.nanos < due ==> now.nanos + wait->0.nanos == due
                &&& now.nanos >= due ==> wait->0.nanos == 0
                &&& strategy.due(now) <==> now.nanos >= due
            } else {
                &&& wait is None
                &&& !strategy.due(now)
            }
        }),
        AckView::QLOG(strategy).timeout_at(now) == strategy.timeout_at(now),
{
}

/// An acknowledgment of a trace is due as long after the start of the replay as it was sent after the
/// first one, and ten milliseconds and a microsecond more.
pub proof fn replay_keeps_the_times_of_the_trace(
    strategy: QlogView,
    acks: Seq<RecordedAck>,
    start: Instant,
    now: Instant,
)
    requires
        strategy.valid(),
        strategy.oack == schedule(acks),
        strategy.active,
        strategy.start_time == Some(start),
        strategy.idx < acks.len(),
        acks[strategy.idx].time >= acks[0].time,
    ensures
        strategy.due(now) <==> now.nanos >= start.nanos + (acks[strategy.idx].time - acks[0].time)
            + 10_000_000 + 1_000,
{
    replay_is_due_on_time(strategy, start, now);
}

/// Two acknowledgments of a trace are due as far from each other as they were sent.
pub proof fn replay_keeps_distances(
    strategy: QlogView,
    later: QlogView,
    acks: Seq<RecordedAck>,
    start: Instant,
    now: Instant,
    at: Instant,
)
    requires
        strategy.valid(),
        strategy.oack == schedule(acks),
        strategy.active,
        strategy.start_time == Some(start),
        later.valid(),
        later.oack == strategy.oack,
        later.active,
        later.start_time == strategy.start_time,
        strategy.idx < acks.len(),
        later.idx < acks.len(),
        acks[0].time <= acks[strategy.idx].time <= acks[later.idx].time,
        at.nanos - now.nanos == acks[later.idx].time - acks[strategy.idx].time,
    ensures
        strategy.due(now) <==> later.due(at),
{
    replay_keeps_the_times_of_the_trace(strategy, acks, start, now);
    replay_keeps_the_times_of_the_trace(later, acks, start, at);
}

/// A range of a trace is replayed as everything from the first packet number of the connection up to
/// the end of the range, counted from there.
pub proof fn replay_of_one_range(
    conn: ConnectionView,
    range: Range<u64>,
    first: u64,
    now: Instant,
    stream_id: u64,
    last_max_pn: u64,
    opening: Result<Stream, Error>,
)
    requires
        range.end + first <= u64::MAX,
    ensures
        ({
            let replayed = replay(
                conn,
                seq![range],
                first,
                now,
                stream_id,
                last_max_pn,
                opening,
            );
            let on = first..(first + range.end) as u64;
            let outcome = conn.insert_oack_outcome(on, stream_id, last_max_pn, opening);
            &&& replayed.conn == conn.insert_oack(on, now, stream_id, last_max_pn, opening)
            &&& replayed.outcome == outcome
            &&& outcome is Ok && range.end > 0 ==> replayed.last_max_pn == first + range.end - 1
            &&& outcome is Err || range.end == 0 ==> replayed.last_max_pn == last_max_pn
            &&& can_replay(conn, seq![range], first, now, stream_id, last_max_pn, opening)
                <==> conn.can_insert_oack(on, stream_id, last_max_pn, opening)
        }),
{
    reveal_with_fuel(replay, 2);
    reveal_with_fuel(can_replay, 2);
    assert(seq![range].drop_first() =~= Seq::<Range<u64>>::empty());
}

/// A range that ends beyond the largest packet number, counted from the first one, cannot be
/// replayed.
pub proof fn replay_needs_packet_numbers(
    conn: ConnectionView,
    range: Range<u64>,
    first: u64,
    now: Instant,
    stream_id: u64,
    last_max_pn: u64,
    opening: Result<Stream, Error>,
)
    requires
        range.end + first > u64::MAX,
    ensures
        !can_replay(conn, seq![range], first, now, stream_id, last_max_pn, opening),
{
}

/// Ranges are replayed one after the other, up to the first one that the connection refuses.
pub proof fn replay_of_several_ranges(
    conn: ConnectionView,
    some: Seq<Range<u64>>,
    more: Seq<Range<u64>>,
    first: u64,
    now: Instant,
    stream_id: u64,
    last_max_pn: u64,
    opening: Result<Stream, Error>,
)
    ensures
        ({
            let part = replay(conn, some, first, now, stream_id, last_max_pn, opening);
            let whole = replay(conn, some + more, first, now, stream_id, last_max_pn, opening);
            &&& some.len() == 0 ==> part.conn == conn && part.last_max_pn == last_max_pn
                && part.outcome == Ok::<(), Error>(())
            &&& part.outcome is Err ==> whole == part
            &&& part.outcome is Ok ==> whole == replay(
                part.conn,
                more,
                first,
                now,
                stream_id,
                part.last_max_pn,
                opening,
            )
            &&& can_replay(conn, some + more, first, now, stream_id, last_max_pn, opening) <==> {
                &&& can_replay(conn, some, first, now, stream_id, last_max_pn, opening)
                &&& part.outcome is Ok ==> can_replay(
                    part.conn,
                    more,
                    first,
                    now,
                    stream_id,
                    part.last_max_pn,
                    opening,
                )
            }
            &&& some.len() == 0 ==> can_replay(
                conn,
                some,
                first,
                now,
                stream_id,
                last_max_pn,
                opening,
            )
        }),
    decreases some.len(),
{
    if some.len() == 0 {
        assert(some + more =~= more);
    } else {
        assert((some + more).drop_first() =~= some.drop_first() + more);
        let one = replay(conn, seq![some[0]], first, now, stream_id, last_max_pn, opening);
        reveal_with_fuel(replay, 2);
        reveal_with_fuel(can_replay, 2);
        assert(seq![some[0]].drop_first() =~= Seq::<Range<u64>>::empty());
        replay_of_several_ranges(
            one.conn,
            some.drop_first(),
            more,
            first,
            now,
            stream_id,
            one.last_max_pn,
            opening,
        );
    }
}

/// A replay that is due inserts the ranges of the next acknowledgment and goes on to the one after
/// it, or, if the connection refuses, comes back to it. One that is not due leaves the connection
/// alone.
pub proof fn replay_fires_when_it_is_due(
    strategy: QlogView,
    conn: ConnectionView,
    stream_id: u64,
    checked_at: Instant,
    now: Instant,
    opening: Result<Stream, Error>,
)
    requires
        strategy.valid(),
    ensures
        ({
            let start = match strategy.start_time {
                Some(start) => start,
                None => checked_at,
            };
            let started = QlogView { start_time: Some(start), ..strategy };
            let first = match conn.oack_first_app_pn {
                Some(first) => first,
                None => 0,
            };
            let ranges = strategy.oack[strategy.idx].1;
            let replayed = replay(
                conn,
                ranges,
                first,
                now,
                stream_id,
                strategy.last_max_pn,
                opening,
            );
            let fired = AckView::QLOG(strategy).fire(conn, stream_id, checked_at, now, opening);
            let can = AckView::QLOG(strategy).can_fire(conn, stream_id, checked_at, now, opening);
            if strategy.active && strategy.idx < strategy.oack.len() && checked_at.nanos
                >= start.nanos + strategy.oack[strategy.idx].0.nanos + 1_000 {
                &&& fired.conn == replayed.conn
                &&& fired.outcome == replayed.outcome
                &&& can <==> can_replay(
                    conn,
                    ranges,
                    first,
                    now,
                    stream_id,
                    strategy.last_max_pn,
                    opening,
                )
                &&& replayed.outcome is Ok ==> fired.strategy == AckView::QLOG(
                    QlogView {
                        idx: strategy.idx + 1,
                        last_max_pn: replayed.last_max_pn,
                        active: strategy.idx + 1 < strategy.oack.len(),
                        ..started
                    },
                )
                &&& replayed.outcome is Err ==> fired.strategy == AckView::QLOG(
                    QlogView { last_max_pn: replayed.last_max_pn, ..started },
                )
            } else {
                &&& can
                &&& fired.conn == conn
                &&& fired.outcome == Ok::<(), Error>(())
                &&& fired.strategy == AckView::QLOG(
                    if strategy.active {
                        started
                    } else {
                        strategy
                    },
                )
            }
        }),
{
}

/// A replay begins with the first acknowledgment of its schedule, with nothing acknowledged, and not
/// active.
pub proof fn replay_begins_at_the_beginning(oack: Seq<(Duration, Seq<Range<u64>>)>)
    ensures
        ({
            let strategy = QlogView::start(oack);
            &&& strategy.oack == oack
            &&& strategy.idx == 0
            &&& strategy.last_max_pn == 0
            &&& !strategy.active
            &&& strategy.start_time is None
        }),
{
}

/// The largest packet number that a strategy is told counts if it differs from the last one. It is
/// remembered, and it is the first one if it is the first that is not 0.
pub proof fn received_packet_is_remembered(strategy: MaxPnView, pn: u64)
    requires
        strategy.can_receive(pn),
    ensures
        ({
            let after = strategy.after_receiving(pn);
            &&& pn == strategy.true_last_recv_pn ==> after == strategy
            &&& after.true_last_recv_pn == pn
            &&& after.true_last_pn_oack == strategy.true_last_pn_oack
            &&& after.last_max_pn == strategy.last_max_pn
            &&& after.active == strategy.active
            &&& after.lag_shift == strategy.lag_shift
            &&& strategy.first_app_pn is Some ==> after.first_app_pn == strategy.first_app_pn
            &&& strategy.first_app_pn is None && pn != strategy.true_last_recv_pn ==> (pn > 0
                ==> after.first_app_pn == Some(pn)) && (pn == 0 ==> after.first_app_pn is None)
            &&& AckView::MaxPn(strategy).after_receiving(pn) == AckView::MaxPn(after)
        }),
{
}

/// A new packet past the lag has the shift grow, and everything up to the packet and the new shift
/// acknowledged. The shift grows by two below 4000, and from there on as it grew last. Within the
/// lag, without a shift or without a first packet number, nothing more is acknowledged.
pub proof fn shift_grows_with_every_new_packet(strategy: MaxPnView, pn: u64)
    requires
        strategy.can_receive(pn),
        pn != strategy.true_last_recv_pn,
    ensures
        ({
            let after = strategy.after_receiving(pn);
            let first = match strategy.first_app_pn {
                Some(first) => first as int,
                None => pn as int,
            };
            let past_lag = match strategy.lag_shift {
                Some(lag) => pn > first + lag,
                None => true,
            };
            let shift = strategy.shift_pn->0;
            if strategy.shift_pn is Some && (strategy.first_app_pn is Some || pn > 0) && past_lag {
                &&& after.shift_pn is Some
                &&& after.last_increase == after.shift_pn->0 - shift
                &&& shift < 4_000 ==> after.shift_pn->0 == shift + 2
                &&& shift >= 4_000 ==> after.shift_pn->0 == shift + strategy.last_increase
                &&& after.next_max_pn >= pn + after.shift_pn->0
                &&& after.next_max_pn >= strategy.next_max_pn
                &&& after.next_max_pn == pn + after.shift_pn->0 || after.next_max_pn
                    == strategy.next_max_pn
            } else {
                &&& after.shift_pn == strategy.shift_pn
                &&& after.last_increase == strategy.last_increase
                &&& after.next_max_pn == strategy.next_max_pn
            }
        }),
{
}

/// A packet number can be received if and only if neither the lag nor the shift takes it beyond the
/// largest packet number.
pub proof fn packet_can_be_received(strategy: MaxPnView, pn: u64)
    ensures
        ({
            let first = match strategy.first_app_pn {
                Some(first) => first as int,
                None => pn as int,
            };
            let begun = strategy.first_app_pn is Some || pn > 0;
            let lag = strategy.lag_shift->0;
            let shift = strategy.shift_pn->0;
            let increase = if shift < 4_000 {
                2
            } else {
                strategy.last_increase as int
            };
            let too_far = begun && strategy.lag_shift is Some && first + lag > u64::MAX;
            let shifts = begun && strategy.shift_pn is Some && (strategy.lag_shift is None || first
                + lag < pn);
            &&& strategy.can_receive(pn) <==> pn == strategy.true_last_recv_pn || (!too_far && (
            shifts ==> pn + shift + increase <= u64::MAX))
            &&& AckView::MaxPn(strategy).can_receive(pn) == strategy.can_receive(pn)
        }),
{
}

/// A strategy that uses the maximum received packet number starts with nothing received and nothing
/// to acknowledge. A lag counts only with a shift.
pub proof fn max_pn_starts_with_nothing(shift_pn: Option<u64>, lag_shift: Option<u64>)
    ensures
        MaxPnView::start(shift_pn, lag_shift) == (MaxPnView {
            last_max_pn: 0,
            next_max_pn: 0,
            active: false,
            shift_pn,
            lag_shift: match shift_pn {
                Some(_) => lag_shift,
                None => None,
            },
            true_last_recv_pn: 0,
            true_last_pn_oack: 0,
            first_app_pn: None,
            last_increase: 0,
        }),
{
}

/// The strategy waits for nothing exactly if a packet has been received since it last acknowledged.
/// If there is a first packet number, and the end of the range has reached it, it then acknowledges
/// the range from the first packet number on, and nothing is left to acknowledge. Otherwise it leaves
/// everything as it is.
pub proof fn max_pn_fires_for_every_new_packet(
    strategy: MaxPnView,
    conn: ConnectionView,
    stream_id: u64,
    checked_at: Instant,
    now: Instant,
    opening: Result<Stream, Error>,
)
    ensures
        ({
            let ack = AckView::MaxPn(strategy);
            let is_new = strategy.true_last_recv_pn != strategy.true_last_pn_oack;
            let fired = ack.fire(conn, stream_id, checked_at, now, opening);
            let first = strategy.first_app_pn->0;
            let range = first..strategy.next_max_pn;
            &&& is_new ==> ack.timeout_at(checked_at) == Some(Duration { nanos: 0 })
            &&& !is_new ==> ack.timeout_at(checked_at) is None
            &&& ack.after_timeout(checked_at) == ack
            &&& fired.outcome == Ok::<(), Error>(())
            &&& if is_new && strategy.first_app_pn is Some && first <= strategy.next_max_pn {
                &&& fired.conn == conn.insert_oack(
                    range,
                    now,
                    stream_id,
                    strategy.last_max_pn,
                    opening,
                )
                &&& ack.can_fire(conn, stream_id, checked_at, now, opening)
                    <==> conn.can_insert_oack(range, stream_id, strategy.last_max_pn, opening)
                &&& fired.strategy == AckView::MaxPn(
                    MaxPnView {
                        true_last_pn_oack: strategy.true_last_recv_pn,
                        last_max_pn: if first < strategy.next_max_pn {
                            (strategy.next_max_pn - 1) as u64
                        } else {
                            strategy.last_max_pn
                        },
                        ..strategy
                    },
                )
                &&& fired.strategy.timeout_at(now) is None
            } else {
                &&& ack.can_fire(conn, stream_id, checked_at, now, opening)
                &&& fired.conn == conn
                &&& fired.strategy == ack
            }
        }),
{
}

/// After a firing, any other packet past the lag has the strategy acknowledge again: every packet
/// number from the first one up to the packet and the shift, whatever has been acknowledged ahead
/// already.
pub proof fn next_packet_is_acknowledged_again(
    strategy: MaxPnView,
    conn: ConnectionView,
    later: ConnectionView,
    stream_id: u64,
    checked_at: Instant,
    now: Instant,
    opening: Result<Stream, Error>,
    received: u64,
    pn: u64,
)
    requires
        strategy.first_app_pn is Some,
        strategy.shift_pn is Some,
        strategy.true_last_recv_pn != strategy.true_last_pn_oack,
        strategy.first_app_pn->0 <= strategy.next_max_pn,
        received != strategy.true_last_recv_pn,
        strategy.lag_shift matches Some(lag) ==> received > strategy.first_app_pn->0 + lag,
        strategy.first_app_pn->0 <= received,
        AckView::MaxPn(strategy).fire(conn, stream_id, checked_at, now, opening).strategy.can_receive(
            received,
        ),
        later.handshake_completed,
        ({
            let fired = AckView::MaxPn(strategy).fire(conn, stream_id, checked_at, now, opening);
            let told = fired.strategy.after_receiving(received);
            &&& told matches AckView::MaxPn(m)
            &&& strategy.first_app_pn->0 <= pn < received + m.shift_pn->0
            &&& later.insert_oack_outcome(
                m.first_app_pn->0..m.next_max_pn,
                stream_id,
                m.last_max_pn,
                opening,
            ) is Ok
            &&& later.streams.contains_key(stream_id) || opening is Ok
        }),
    ensures
        ({
            let fired = AckView::MaxPn(strategy).fire(conn, stream_id, checked_at, now, opening);
            let told = fired.strategy.after_receiving(received);
            let again = told.fire(later, stream_id, checked_at, now, opening);
            &&& again.conn.pkt_num_spaces.application.recv_pkt_need_ack.contains(pn)
            &&& again.strategy.timeout_at(now) is None
        }),
{
    let fired = AckView::MaxPn(strategy).fire(conn, stream_id, checked_at, now, opening);
    if let AckView::MaxPn(m) = fired.strategy.after_receiving(received) {
        max_pn_fires_for_every_new_packet(m, later, stream_id, checked_at, now, opening);
        crate::laws::successful_insertion_acknowledges_the_range(
            later,
            m.first_app_pn->0..m.next_max_pn,
            now,
            stream_id,
            m.last_max_pn,
            opening,
            pn,
        );
    }
}

/// A constant range moves with the first packet number, as far as there are packet numbers, and stays
/// there.
pub proof fn constant_range_follows_the_first_packet(strategy: ConstantView, pn: u64)
    ensures
        ({
            let after = strategy.after_receiving(pn);
            let start = strategy.range.start + pn;
            let end = strategy.range.end + pn;
            &&& strategy.first_app_pn is Some ==> after.range == strategy.range
                && after.first_app_pn == strategy.first_app_pn
            &&& strategy.first_app_pn is None ==> {
                &&& after.first_app_pn == Some(pn)
                &&& start <= u64::MAX ==> after.range.start == start
                &&& start > u64::MAX ==> after.range.start == u64::MAX
                &&& end <= u64::MAX ==> after.range.end == end
                &&& end > u64::MAX ==> after.range.end == u64::MAX
            }
            &&& after.lag == strategy.lag
            &&& after.last_recv_pn == Some(pn)
            &&& AckView::Constant(strategy).after_receiving(pn) == AckView::Constant(after)
            &&& AckView::Constant(strategy).can_receive(pn)
        }),
{
}

/// A new packet that is further from the first one than the lag calls for the constant range, however
/// far it is. One that is not, or that is the same as the last one, does not. Nothing takes the call
/// back.
pub proof fn packet_past_the_lag_calls_for_the_range(strategy: ConstantView, pn: u64)
    ensures
        ({
            let after = strategy.after_receiving(pn);
            let first = match strategy.first_app_pn {
                Some(first) => first as int,
                None => pn as int,
            };
            let is_new = strategy.last_recv_pn != Some(pn);
            &&& strategy.new_recv ==> after.new_recv
            &&& !is_new ==> after.new_recv == strategy.new_recv
            &&& is_new && strategy.lag is None ==> after.new_recv
            &&& is_new && strategy.lag is Some && pn > first + strategy.lag->0 ==> after.new_recv
            &&& strategy.lag is Some && pn <= first + strategy.lag->0 ==> after.new_recv
                == strategy.new_recv
        }),
{
}

/// A strategy with a constant range waits for nothing exactly if the range is called for. It then
/// acknowledges the range, with the end of it for the last maximum, and waits for the next packet.
pub proof fn constant_range_fires_when_called_for(
    strategy: ConstantView,
    conn: ConnectionView,
    stream_id: u64,
    checked_at: Instant,
    now: Instant,
    opening: Result<Stream, Error>,
)
    ensures
        ({
            let ack = AckView::Constant(strategy);
            let fired = ack.fire(conn, stream_id, checked_at, now, opening);
            &&& strategy.new_recv ==> ack.timeout_at(checked_at) == Some(Duration { nanos: 0 })
            &&& !strategy.new_recv ==> ack.timeout_at(checked_at) is None
            &&& ack.after_timeout(checked_at) == ack
            &&& fired.strategy == AckView::Constant(ConstantView { new_recv: false, ..strategy })
            &&& if strategy.new_recv {
                &&& fired.conn == conn.insert_oack(
                    strategy.range,
                    now,
                    stream_id,
                    strategy.range.end,
                    opening,
                )
                &&& fired.outcome == conn.insert_oack_outcome(
                    strategy.range,
                    stream_id,
                    strategy.range.end,
                    opening,
                )
            } else {
                &&& fired.conn == conn
                &&& fired.outcome == Ok::<(), Error>(())
            }
            &&& ack.can_fire(conn, stream_id, checked_at, now, opening) <==> !strategy.new_recv
                || conn.can_insert_oack(
                strategy.range,
                stream_id,
                strategy.range.end,
                opening,
            )
        }),
{
}

/// A strategy is as active as it was last told to be, and that is all it was told. One with a constant
/// range is always active. A packet does not activate a strategy, and the replay of a trace does not
/// take note of packets.
pub proof fn activity_is_what_was_set(strategy: AckView, active: bool, pn: u64)
    ensures
        match strategy {
            AckView::QLOG(q) => {
                &&& strategy.with_active(active) == AckView::QLOG(QlogView { active, ..q })
                &&& strategy.active() == q.active
                &&& strategy.after_receiving(pn) == strategy
                &&& strategy.can_receive(pn)
            },
            AckView::MaxPn(m) => {
                &&& strategy.with_active(active) == AckView::MaxPn(MaxPnView { active, ..m })
                &&& strategy.active() == m.active
            },
            AckView::Constant(_) => {
                &&& strategy.with_active(active) == strategy
                &&& strategy.active()
            },
        },
{
}

/// A strategy is seen as the kind of strategy that it is.
pub proof fn strategies_are_seen_as_they_are(strategy: OpportunistAck)
    ensures
        match strategy {
            OpportunistAck::QLOG(q) => strategy@ == AckView::QLOG(q@),
            OpportunistAck::MaxPn(m) => strategy@ == AckView::MaxPn(m@),
            OpportunistAck::Constant(c) => strategy@ == AckView::Constant(c@),
        },
{
}

} // verus!
