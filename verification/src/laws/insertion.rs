//! What an insertion of acknowledgments does, packet by packet.
//!
//! The laws for no packet, for one packet and for a range in two parts say together what becomes of
//! any range.
use crate::connection::{first_new, Connection, ConnectionView, PAYLOAD_SIZE};
use crate::error::Error;
use crate::flow::{FlowControl, Stream};
use crate::packet::{Epoch, SpaceView, SpacesView};
use crate::ranges::packet_numbers;
use crate::time::Instant;
use std::ops::Range;
use vstd::prelude::*;

verus! {

/// A range holds the packet numbers from its start up to, but not including, its end.
pub proof fn range_ends_before_its_end(start: int, end: int, pn: u64)
    ensures
        packet_numbers(start, end).contains(pn) <==> start <= pn && pn < end,
{
}

/// The packet that is acknowledged becomes the newest one: every packet that still needs an
/// acknowledgment is older.
pub open spec fn newest(space: SpaceView, pn: u64) -> bool {
    forall|other: u64| space.recv_pkt_need_ack.contains(other) ==> other < pn
}

/// The state of the flow control, and of the streams, after 1200 bytes have been charged to `stream`.
pub open spec fn is_charged(
    before: ConnectionView,
    after: ConnectionView,
    stream_id: u64,
    stream: Stream,
) -> bool {
    let times: int = if stream.drain {
        2
    } else {
        1
    };
    let left = before.flow_control.max_data - before.flow_control.consumed - 1200 * times;
    let stream_left = stream.flow_control.max_data - stream.flow_control.consumed - 1200;
    &&& after.rx_data == before.rx_data + 1200
    &&& after.flow_control == (FlowControl {
        consumed: (before.flow_control.consumed + 1200 * times) as u64,
        max_data: before.flow_control.max_data,
        window: before.flow_control.window,
    })
    &&& after.almost_full == (before.almost_full || left < before.flow_control.window / 2)
    &&& after.streams == before.streams.insert(
        stream_id,
        Stream {
            drain: stream.drain,
            fin_off: stream.fin_off,
            flow_control: FlowControl {
                consumed: (stream.flow_control.consumed + 1200) as u64,
                max_data: stream.flow_control.max_data,
                window: stream.flow_control.window,
            },
        },
    )
    &&& after.almost_full_streams == if stream.fin_off is None && stream_left
        < stream.flow_control.window / 2 {
        before.almost_full_streams.insert(stream_id)
    } else {
        before.almost_full_streams
    }
}

/// Before the handshake has been completed, nothing is inserted.
pub proof fn nothing_is_inserted_before_the_handshake(
    conn: ConnectionView,
    range: Range<u64>,
    now: Instant,
    stream_id: u64,
    last_max_pn: u64,
    opening: Result<Stream, Error>,
)
    requires
        !conn.handshake_completed,
    ensures
        conn.can_insert_oack(range, stream_id, last_max_pn, opening),
        conn.insert_oack(range, now, stream_id, last_max_pn, opening) == conn,
        conn.insert_oack_outcome(range, stream_id, last_max_pn, opening) == Ok::<(), Error>(()),
{
}

/// A packet that is acknowledged is recorded: it has been received and needs an acknowledgment, the
/// largest packet number has grown to it, and if it is the newest one it has arrived now. Nothing
/// else is recorded.
pub proof fn packet_is_recorded(
    conn: ConnectionView,
    pn: u64,
    now: Instant,
    stream_id: u64,
    last_max_pn: u64,
    opening: Result<Stream, Error>,
)
    requires
        conn.handshake_completed,
        pn < u64::MAX,
        conn.can_insert_oack(pn..(pn + 1) as u64, stream_id, last_max_pn, opening),
    ensures
        ({
            let after = conn.insert_oack(
                pn..(pn + 1) as u64,
                now,
                stream_id,
                last_max_pn,
                opening,
            );
            let space = conn.pkt_num_spaces.application;
            &&& after.tx_cap_outdated
            &&& after.pkt_num_spaces.initial == conn.pkt_num_spaces.initial
            &&& after.pkt_num_spaces.handshake == conn.pkt_num_spaces.handshake
            &&& after.pkt_num_spaces.application == SpaceView {
                largest_rx_pkt_num: if pn > space.largest_rx_pkt_num {
                    pn
                } else {
                    space.largest_rx_pkt_num
                },
                largest_rx_pkt_time: if newest(space, pn) {
                    now
                } else {
                    space.largest_rx_pkt_time
                },
                recv_pkt_need_ack: space.recv_pkt_need_ack.insert(pn),
                recv_pkt_num: space.recv_pkt_num.insert(pn),
                ack_elicited: true,
                oack_new_recv_pn: space.oack_new_recv_pn,
                crypto_open: space.crypto_open,
                crypto_0rtt_open: space.crypto_0rtt_open,
                crypto_seal: space.crypto_seal,
                crypto_data: space.crypto_data,
                crypto_fin: space.crypto_fin,
            }
        }),
{
    let after = conn.insert_oack(pn..(pn + 1) as u64, now, stream_id, last_max_pn, opening);
    let space = conn.pkt_num_spaces.application;
    let run = conn.oack_run(pn..(pn + 1) as u64, stream_id, last_max_pn, opening);
    assert(run.stop == pn + 1);
    assert(after.pkt_num_spaces.application == space.after_receiving(pn as int, pn + 1, now));
    assert(space.recv_pkt_num.insert(pn) =~= space.recv_pkt_num.union(
        packet_numbers(pn as int, pn + 1),
    ));
    assert(space.recv_pkt_need_ack.insert(pn) =~= space.recv_pkt_need_ack.union(
        packet_numbers(pn as int, pn + 1),
    ));
    if newest(space, pn) {
        assert(forall|x: u64| space.recv_pkt_need_ack.contains(x) ==> x < (pn + 1) - 1);
    } else {
        let x = choose|x: u64| space.recv_pkt_need_ack.contains(x) && x >= pn;
        assert(space.recv_pkt_need_ack.contains(x) && !(x < (pn + 1) - 1));
    }
}

/// A packet up to the last maximum is recorded, and that is all.
pub proof fn known_packet_is_only_recorded(
    conn: ConnectionView,
    pn: u64,
    now: Instant,
    stream_id: u64,
    last_max_pn: u64,
    opening: Result<Stream, Error>,
)
    requires
        conn.handshake_completed,
        pn < u64::MAX,
        pn <= last_max_pn,
    ensures
        ({
            let range = pn..(pn + 1) as u64;
            let after = conn.insert_oack(range, now, stream_id, last_max_pn, opening);
            &&& conn.can_insert_oack(range, stream_id, last_max_pn, opening)
            &&& conn.insert_oack_outcome(range, stream_id, last_max_pn, opening) == Ok::<
                (),
                Error,
            >(())
            &&& after == ConnectionView {
                pkt_num_spaces: after.pkt_num_spaces,
                tx_cap_outdated: after.tx_cap_outdated,
                ..conn
            }
        }),
{
}

/// A packet beyond the last maximum is counted, with 1200 bytes that the first path has received and
/// that belong to the stream. It stops the insertion where there is no path, where the stream cannot
/// be opened, and where the flow control leaves less than 1200 bytes. Otherwise the 1200 bytes are
/// charged.
pub proof fn new_packet_is_counted_and_charged(
    conn: ConnectionView,
    pn: u64,
    now: Instant,
    stream_id: u64,
    last_max_pn: u64,
    opening: Result<Stream, Error>,
)
    requires
        conn.handshake_completed,
        pn < u64::MAX,
        pn > last_max_pn,
        conn.can_insert_oack(pn..(pn + 1) as u64, stream_id, last_max_pn, opening),
    ensures
        ({
            let range = pn..(pn + 1) as u64;
            let after = conn.insert_oack(range, now, stream_id, last_max_pn, opening);
            let outcome = conn.insert_oack_outcome(range, stream_id, last_max_pn, opening);
            let counted = ConnectionView {
                pkt_num_spaces: after.pkt_num_spaces,
                tx_cap_outdated: after.tx_cap_outdated,
                recv_count: (conn.recv_count + 1) as usize,
                ..conn
            };
            let path = conn.paths[0];
            let received = ConnectionView {
                recv_bytes: (conn.recv_bytes + 1200) as u64,
                paths: conn.paths.update(
                    0,
                    crate::connection::Path {
                        recv_count: (path.recv_count + 1) as usize,
                        recv_bytes: (path.recv_bytes + 1200) as u64,
                        rtt: path.rtt,
                    },
                ),
                ack_eliciting_sent: false,
                ..counted
            };
            let held = conn.streams.contains_key(stream_id);
            let stream = if held {
                conn.streams[stream_id]
            } else {
                opening->Ok_0
            };
            if conn.paths.len() == 0 {
                &&& outcome == Err::<(), Error>(Error::InvalidState)
                &&& after == counted
            } else if !held && opening == Err::<Stream, Error>(Error::Done) {
                &&& outcome == Ok::<(), Error>(())
                &&& after == received
            } else if !held && opening is Err {
                &&& outcome == Err::<(), Error>(opening->Err_0)
                &&& after == received
            } else if conn.flow_control.max_data - conn.rx_data < 1200 {
                &&& outcome == Err::<(), Error>(Error::FlowControl)
                &&& after == ConnectionView {
                    streams: conn.streams.insert(stream_id, stream),
                    ..received
                }
            } else {
                &&& outcome == Ok::<(), Error>(())
                &&& is_charged(conn, after, stream_id, stream)
                &&& after == ConnectionView {
                    rx_data: after.rx_data,
                    flow_control: after.flow_control,
                    almost_full: after.almost_full,
                    streams: after.streams,
                    almost_full_streams: after.almost_full_streams,
                    ..received
                }
            }
        }),
{
    let range = pn..(pn + 1) as u64;
    let run = conn.oack_run(range, stream_id, last_max_pn, opening);
    assert(run.counted == 1);
    if run.stream is Some {
        let room = conn.room();
        assert(conn.flow_control.max_data - conn.rx_data < 1200 <==> room < 1);
        if room < 1 {
            assert(room == 0);
            let stream = run.stream->0;
            assert(stream.after_consuming(0) == stream);
            assert(conn.flow_control.after_consuming(0) == conn.flow_control);
        }
    }
}

/// A single packet can be inserted if and only if no counter that it is added to overflows.
pub proof fn packet_fits_where_the_counters_do(
    conn: ConnectionView,
    pn: u64,
    stream_id: u64,
    last_max_pn: u64,
    opening: Result<Stream, Error>,
)
    requires
        conn.handshake_completed,
        pn < u64::MAX,
        pn > last_max_pn,
    ensures
        ({
            let held = conn.streams.contains_key(stream_id);
            let stream = if held {
                conn.streams[stream_id]
            } else {
                opening->Ok_0
            };
            let room = conn.flow_control.max_data - conn.rx_data;
            let path = conn.paths[0];
            conn.can_insert_oack(pn..(pn + 1) as u64, stream_id, last_max_pn, opening) <==> {
                &&& conn.recv_count < usize::MAX
                &&& conn.paths.len() > 0 ==> {
                    &&& conn.recv_bytes <= u64::MAX - 1200
                    &&& path.recv_count < usize::MAX
                    &&& path.recv_bytes <= u64::MAX - 1200
                    &&& held || opening is Ok ==> {
                        &&& 0 <= room
                        &&& 1200 <= room ==> {
                            &&& conn.flow_control.consumed <= u64::MAX - 1200
                            &&& stream.drain ==> conn.flow_control.consumed <= u64::MAX - 2400
                            &&& stream.flow_control.consumed <= u64::MAX - 1200
                        }
                    }
                }
            }
        }),
{
    let range = pn..(pn + 1) as u64;
    let run = conn.oack_run(range, stream_id, last_max_pn, opening);
    if run.stream is Some && conn.rx_data <= conn.flow_control.max_data {
        let room = conn.room();
        assert(conn.flow_control.max_data - conn.rx_data < 1200 <==> room < 1);
    }
}

/// Once a packet has stopped an insertion, what follows it in the range changes nothing.
pub proof fn insertion_stops_for_good(
    conn: ConnectionView,
    start: u64,
    middle: u64,
    end: u64,
    now: Instant,
    stream_id: u64,
    last_max_pn: u64,
    opening: Result<Stream, Error>,
)
    requires
        start <= middle <= end,
        conn.can_insert_oack(start..middle, stream_id, last_max_pn, opening),
        conn.rx_data <= conn.flow_control.max_data,
        conn.insert_oack_outcome(start..middle, stream_id, last_max_pn, opening) is Err || (
        conn.handshake_completed && conn.paths.len() > 0 && !conn.streams.contains_key(stream_id)
            && opening == Err::<Stream, Error>(Error::Done) && middle > start && middle - 1
            > last_max_pn),
    ensures
        conn.can_insert_oack(start..end, stream_id, last_max_pn, opening),
        conn.insert_oack_outcome(start..end, stream_id, last_max_pn, opening)
            == conn.insert_oack_outcome(start..middle, stream_id, last_max_pn, opening),
        conn.insert_oack(start..end, now, stream_id, last_max_pn, opening) == conn.insert_oack(
            start..middle,
            now,
            stream_id,
            last_max_pn,
            opening,
        ),
{
    assert(conn.oack_run(start..end, stream_id, last_max_pn, opening) == conn.oack_run(
        start..middle,
        stream_id,
        last_max_pn,
        opening,
    ));
}

/// A range whose two parts can be inserted one after the other can be inserted whole.
pub proof fn parts_that_fit_fit_together(
    conn: ConnectionView,
    start: u64,
    middle: u64,
    end: u64,
    now: Instant,
    stream_id: u64,
    last_max_pn: u64,
    opening: Result<Stream, Error>,
)
    requires
        start <= middle <= end,
        conn.can_insert_oack(start..middle, stream_id, last_max_pn, opening),
        conn.rx_data <= conn.flow_control.max_data,
        conn.insert_oack_outcome(start..middle, stream_id, last_max_pn, opening) is Ok,
        conn.handshake_completed && !conn.streams.contains_key(stream_id) && opening == Err::<
            Stream,
            Error,
        >(Error::Done) ==> middle <= start || middle - 1 <= last_max_pn,
        conn.insert_oack(start..middle, now, stream_id, last_max_pn, opening).can_insert_oack(
            middle..end,
            stream_id,
            last_max_pn,
            opening,
        ),
    ensures
        conn.can_insert_oack(start..end, stream_id, last_max_pn, opening),
{
    if conn.handshake_completed {
        let part = conn.insert_oack(start..middle, now, stream_id, last_max_pn, opening);
        let run = conn.oack_run(start..middle, stream_id, last_max_pn, opening);
        let rest = part.oack_run(middle..end, stream_id, last_max_pn, opening);
        let whole = conn.oack_run(start..end, stream_id, last_max_pn, opening);
        if middle <= first_new(start, last_max_pn) {
            assert(part.streams =~= conn.streams);
            assert(rest == whole);
        } else {
            assert(run.charged == middle - first_new(start, last_max_pn));
            assert(part.room() == conn.room() - run.charged);
            assert(whole.counted == run.counted + rest.counted);
            assert(whole.sized == run.sized + rest.sized);
            assert(whole.charged == run.charged + rest.charged);
            assert(whole.stream == run.stream);
            assert(whole.charged * PAYLOAD_SIZE == run.charged * PAYLOAD_SIZE + rest.charged
                * PAYLOAD_SIZE) by (nonlinear_arith)
                requires
                    whole.charged == run.charged + rest.charged,
            ;
        }
    }
}

/// The log of a space is its own: replacing it changes no other space, and nothing else of its own.
pub proof fn logs_are_separate(conn: ConnectionView, log: Option<Set<u64>>)
    ensures
        conn.log(Epoch::Initial) == conn.pkt_num_spaces.initial.oack_new_recv_pn,
        conn.log(Epoch::Handshake) == conn.pkt_num_spaces.handshake.oack_new_recv_pn,
        conn.log(Epoch::Application) == conn.pkt_num_spaces.application.oack_new_recv_pn,
        conn.with_log(Epoch::Initial, log) == (ConnectionView {
            pkt_num_spaces: SpacesView {
                initial: SpaceView { oack_new_recv_pn: log, ..conn.pkt_num_spaces.initial },
                ..conn.pkt_num_spaces
            },
            ..conn
        }),
        conn.with_log(Epoch::Handshake, log) == (ConnectionView {
            pkt_num_spaces: SpacesView {
                handshake: SpaceView { oack_new_recv_pn: log, ..conn.pkt_num_spaces.handshake },
                ..conn.pkt_num_spaces
            },
            ..conn
        }),
        conn.with_log(Epoch::Application, log) == (ConnectionView {
            pkt_num_spaces: SpacesView {
                application: SpaceView { oack_new_recv_pn: log, ..conn.pkt_num_spaces.application },
                ..conn.pkt_num_spaces
            },
            ..conn
        }),
{
}

/// A connection is seen field by field, as it is.
pub proof fn connection_is_seen_as_it_is(conn: Connection)
    ensures
        conn@.pkt_num_spaces == conn.pkt_num_spaces@,
        conn@.paths == conn.paths@,
        conn@.streams == conn.streams@,
        conn@.almost_full_streams == conn.almost_full_streams@,
        conn@.flow_control == conn.flow_control,
        conn@.rx_data == conn.rx_data,
        conn@.almost_full == conn.almost_full,
        conn@.recv_count == conn.recv_count,
        conn@.recv_bytes == conn.recv_bytes,
        conn@.handshake_completed == conn.handshake_completed,
        conn@.ack_eliciting_sent == conn.ack_eliciting_sent,
        conn@.tx_cap_outdated == conn.tx_cap_outdated,
        conn@.oack_scaling_factor == conn.oack_scaling_factor,
        conn@.oack_first_app_pn == conn.oack_first_app_pn,
        conn@.oack_max_app_pn == conn.oack_max_app_pn,
{
}

} // verus!
