//! What a call leaves behind.
use crate::client::{Client, RequestPlan};
use crate::connection::Connection;
use crate::error::{ConnectionError, Error};
use crate::flow::Stream;
use crate::handshake::{Call, Drive, Handshake, Pending, Step};
use crate::oack::{OpportunistConstant, OpportunistMaxPn, OpportunistQlog};
use crate::packet::{Algorithm, Epoch, KeyView, Level};
use crate::qlog::{acks_in, first_error, leading, read_records, records_view, schedule_view};
use crate::qlog::{Json, JsonView, QlogError};
use crate::ranges::RangeSet;
use crate::time::{Duration, Instant};
use crate::tls::{
    add_handshake_data, keylog, new_session, send_alert, set_read_secret, set_write_secret, ExData,
};
use std::ops::Range;
use vstd::prelude::*;

verus! {

/// An active replay that started at `start` waits until a microsecond past the delay of its next
/// acknowledgment after the start, and not at all from there on.
pub proof fn replay_waits_for_its_next_acknowledgment(
    strategy: &mut OpportunistQlog,
    start: Instant,
    now: Instant,
    timeout: Option<Duration>,
)
    requires
        call_ensures(OpportunistQlog::timeout, (strategy, now), timeout),
        old(strategy)@.start_time == Some(start),
    ensures
        final(strategy)@ == old(strategy)@,
        ({
            let before = old(strategy)@;
            let due = start.nanos + before.oack[before.idx].0.nanos + 1_000;
            if before.active && before.idx < before.oack.len() {
                &&& timeout is Some
                &&& now.nanos <= due ==> now.nanos + timeout->0.nanos == due
                &&& now.nanos >= due ==> timeout->0.nanos == 0
            } else {
                timeout is None
            }
        }),
{
}

/// A replay that is asked for the first time starts, and waits for the whole delay of its first
/// acknowledgment.
pub proof fn replay_starts_when_it_is_asked(
    strategy: &mut OpportunistQlog,
    now: Instant,
    timeout: Option<Duration>,
)
    requires
        call_ensures(OpportunistQlog::timeout, (strategy, now), timeout),
        old(strategy)@.start_time is None,
        old(strategy)@.active,
        old(strategy)@.idx < old(strategy)@.oack.len(),
    ensures
        final(strategy)@.start_time == Some(now),
        timeout is Some,
        timeout->0.nanos == old(strategy)@.oack[old(strategy)@.idx].0.nanos + 1_000,
{
}

/// Whenever a packet has been received that is not acknowledged, and the end of the range has reached
/// the first packet number, the range from there on is inserted and nothing is pending any more.
pub proof fn max_pn_acknowledges_whatever_is_pending(
    strategy: &mut OpportunistMaxPn,
    conn: &mut Connection,
    stream_id: u64,
    now: Instant,
    opening: Result<Stream, Error>,
    outcome: Result<(), Error>,
    first: u64,
)
    requires
        call_ensures(
            OpportunistMaxPn::on_timeout,
            (strategy, conn, stream_id, now, opening),
            outcome,
        ),
        old(strategy)@.true_last_recv_pn != old(strategy)@.true_last_pn_oack,
        old(strategy)@.first_app_pn == Some(first),
        first <= old(strategy)@.next_max_pn,
    ensures
        outcome == Ok::<(), Error>(()),
        final(conn)@ == old(conn)@.insert_oack(
            first..old(strategy)@.next_max_pn,
            now,
            stream_id,
            old(strategy)@.last_max_pn,
            opening,
        ),
        final(strategy)@.true_last_pn_oack == old(strategy)@.true_last_recv_pn,
        final(strategy)@.true_last_recv_pn == old(strategy)@.true_last_recv_pn,
        first < old(strategy)@.next_max_pn ==> final(strategy)@.last_max_pn + 1 == old(
            strategy,
        )@.next_max_pn,
{
}

/// A packet that is not the last one again, and is past the lag, has everything up to it and the
/// shift acknowledged.
pub proof fn max_pn_follows_every_new_packet(strategy: &mut OpportunistMaxPn, pn: u64, first: u64)
    requires
        call_ensures(OpportunistMaxPn::on_new_max_recv_pn, (strategy, pn), ()),
        old(strategy)@.can_receive(pn),
        old(strategy)@.first_app_pn == Some(first),
        pn != old(strategy)@.true_last_recv_pn,
    ensures
        final(strategy)@.true_last_recv_pn == pn,
        final(strategy)@.first_app_pn == Some(first),
        final(strategy)@.true_last_pn_oack == old(strategy)@.true_last_pn_oack,
        old(strategy)@.shift_pn is Some && (old(strategy)@.lag_shift is None || pn > first + old(
            strategy,
        )@.lag_shift->0) ==> {
            &&& final(strategy)@.next_max_pn >= pn + final(strategy)@.shift_pn->0
            &&& old(strategy)@.shift_pn->0 < 4_000 ==> final(strategy)@.shift_pn->0 == old(
                strategy,
            )@.shift_pn->0 + 2
        },
        old(strategy)@.lag_shift is Some && pn <= first + old(strategy)@.lag_shift->0 ==> {
            &&& final(strategy)@.next_max_pn == old(strategy)@.next_max_pn
            &&& final(strategy)@.shift_pn == old(strategy)@.shift_pn
        },
{
}

/// A packet that is not the last one again calls for the constant range if it is further from the
/// first one than the lag, however far, and leaves the call as it is otherwise.
pub proof fn constant_range_is_called_for_past_the_lag(
    strategy: &mut OpportunistConstant,
    pn: u64,
    first: u64,
    lag: u64,
)
    requires
        call_ensures(OpportunistConstant::on_new_max_recv_pn, (strategy, pn), ()),
        old(strategy)@.first_app_pn == Some(first),
        old(strategy)@.lag == Some(lag),
        old(strategy)@.last_recv_pn != Some(pn),
    ensures
        pn > first + lag ==> final(strategy)@.new_recv,
        pn <= first + lag ==> final(strategy)@.new_recv == old(strategy)@.new_recv,
        final(strategy)@.range == old(strategy)@.range,
        final(strategy)@.last_recv_pn == Some(pn),
{
}

/// A constant range that is called for is acknowledged, and the outcome of that is the outcome.
pub proof fn constant_range_is_acknowledged(
    strategy: &mut OpportunistConstant,
    conn: &mut Connection,
    stream_id: u64,
    now: Instant,
    opening: Result<Stream, Error>,
    outcome: Result<(), Error>,
)
    requires
        call_ensures(
            OpportunistConstant::on_timeout,
            (strategy, conn, stream_id, now, opening),
            outcome,
        ),
    ensures
        !final(strategy)@.new_recv,
        final(strategy)@.range == old(strategy)@.range,
        !old(strategy)@.new_recv ==> final(conn)@ == old(conn)@ && outcome == Ok::<(), Error>(()),
        old(strategy)@.new_recv ==> {
            let range = old(strategy)@.range;
            &&& final(conn)@ == old(conn)@.insert_oack(range, now, stream_id, range.end, opening)
            &&& outcome == old(conn)@.insert_oack_outcome(range, stream_id, range.end, opening)
        },
{
}

/// The times of further records do not matter.
proof fn lemma_further_times(records: Seq<JsonView>, nanos: Seq<u64>, time: u64)
    requires
        records.len() <= nanos.len(),
    ensures
        acks_in(records, nanos.push(time)) == acks_in(records, nanos),
    decreases records.len(),
{
    if records.len() > 0 {
        lemma_further_times(records.drop_last(), nanos, time);
    }
}

/// The schedule of a trace does not change with a further record that is not about a packet that was
/// sent, or is about one of another type than 1-RTT.
pub proof fn other_records_change_no_schedule(
    records: &Vec<Result<Json, QlogError>>,
    more: &Vec<Result<Json, QlogError>>,
    nanos: &Vec<u64>,
    times: &Vec<u64>,
    record: Json,
    time: u64,
    before: Vec<(Duration, Vec<Range<u64>>)>,
    after: Vec<(Duration, Vec<Range<u64>>)>,
)
    requires
        more@ == records@.push(Ok(record)),
        times@ == nanos@.push(time),
        nanos@.len() == records@.len(),
        call_ensures(read_records, (records, nanos), Ok(before)),
        call_ensures(read_records, (more, times), Ok(after)),
        record@.field("name"@) != Some(JsonView::Text("transport:packet_sent"@)) || !(record@.field(
            "data"@,
        ) is Some) || !(record@.field("data"@)->0.field("header"@) is Some) || record@.field(
            "data"@,
        )->0.field("header"@)->0.field("packet_type"@) != Some(JsonView::Text("1RTT"@)),
    ensures
        after@.len() == before@.len(),
        forall|i: int|
            0 <= i < after@.len() ==> (#[trigger] after@[i]).0 == before@[i].0 && after@[i].1@
                == before@[i].1@,
{
    let views = records_view(records@);
    let all = records_view(more@);
    assert(all =~= views.push(Ok(record@)));
    lemma_leading_push(views, record@);
    lemma_further_times(leading(views), nanos@, time);
    crate::laws::trace::other_records_add_nothing(leading(views), record@, times@);
    assert(schedule_view(after@) == schedule_view(before@));
    assert(schedule_view(after@).len() == after@.len());
    assert(schedule_view(before@).len() == before@.len());
    assert forall|i: int| 0 <= i < after@.len() implies (#[trigger] after@[i]).0 == before@[i].0
        && after@[i].1@ == before@[i].1@ by {
        assert(schedule_view(after@)[i] == schedule_view(before@)[i]);
    }
}

/// If every record can be read, so can one more.
proof fn lemma_leading_push(records: Seq<Result<JsonView, QlogError>>, record: JsonView)
    requires
        first_error(records) is None,
    ensures
        leading(records.push(Ok(record))) == leading(records).push(record),
        leading(records).len() == records.len(),
    decreases records.len(),
{
    reveal_with_fuel(leading, 2);
    let all = records.push(Ok(record));
    if records.len() == 0 {
        assert(all.drop_first() =~= Seq::<Result<JsonView, QlogError>>::empty());
        assert(leading(all) =~= leading(records).push(record));
    } else {
        lemma_leading_push(records.drop_first(), record);
        assert(all.drop_first() =~= records.drop_first().push(Ok(record)));
        assert(leading(all) =~= leading(records).push(record));
    }
}

/// A secret for application data that is taken makes up the seal, with the algorithm of the suite.
pub proof fn seal_has_the_algorithm_of_the_suite(
    ex: &mut ExData<'_>,
    cipher_id: u32,
    secret: &[u8],
    status: i32,
)
    requires
        call_ensures(set_write_secret, (Some(ex), Level::OneRTT, cipher_id, secret, true), status),
    ensures
        ({
            let seal = final(ex)@.pkt_num_spaces.application.crypto_seal;
            &&& cipher_id == 0x0300_1301 ==> seal == Some(
                KeyView { alg: Algorithm::AES128_GCM, secret: secret@ },
            )
            &&& cipher_id == 0x0300_1302 ==> seal == Some(
                KeyView { alg: Algorithm::AES256_GCM, secret: secret@ },
            )
            &&& cipher_id == 0x0300_1303 ==> seal == Some(
                KeyView { alg: Algorithm::ChaCha20_Poly1305, secret: secret@ },
            )
            &&& cipher_id < 0x0300_1301 || cipher_id > 0x0300_1303 ==> final(ex)@ == old(ex)@
            &&& status == 1 <==> 0x0300_1301 <= cipher_id <= 0x0300_1303
            &&& final(ex)@.pkt_num_spaces.application.crypto_open == old(
                ex,
            )@.pkt_num_spaces.application.crypto_open
        }),
{
}

/// What one connection seals with a secret, another one opens with the same algorithm and secret.
pub proof fn what_is_sealed_can_be_opened(
    sender: &mut ExData<'_>,
    receiver: &mut ExData<'_>,
    level: Level,
    cipher_id: u32,
    secret: &[u8],
    sealing: i32,
    opening: i32,
)
    requires
        call_ensures(set_write_secret, (Some(sender), level, cipher_id, secret, true), sealing),
        call_ensures(set_read_secret, (Some(receiver), level, cipher_id, secret, true), opening),
        !old(sender)@.is_server,
        old(receiver)@.is_server,
        0x0300_1301 <= cipher_id <= 0x0300_1303,
    ensures
        sealing == 1,
        opening == 1,
        ({
            let seals = final(sender)@.pkt_num_spaces;
            let opens = final(receiver)@.pkt_num_spaces;
            match level {
                Level::Initial => seals.initial.crypto_seal == opens.initial.crypto_open
                    && seals.initial.crypto_seal is Some,
                Level::Handshake => seals.handshake.crypto_seal == opens.handshake.crypto_open
                    && seals.handshake.crypto_seal is Some,
                Level::ZeroRTT => seals.application.crypto_seal
                    == opens.application.crypto_0rtt_open && seals.application.crypto_seal is Some,
                Level::OneRTT => seals.application.crypto_seal == opens.application.crypto_open
                    && seals.application.crypto_seal is Some,
            }
        }),
{
}

/// Without a connection to call back to, every callback with a status fails.
pub proof fn callbacks_need_a_connection(
    level: Level,
    cipher_id: u32,
    bytes: &[u8],
    derivable: bool,
    alert: u8,
    write: i32,
    read: i32,
    data: i32,
    alerted: i32,
)
    requires
        call_ensures(set_write_secret, (None, level, cipher_id, bytes, derivable), write),
        call_ensures(set_read_secret, (None, level, cipher_id, bytes, derivable), read),
        call_ensures(add_handshake_data, (None, level, bytes), data),
        call_ensures(send_alert, (None, alert), alerted),
    ensures
        write == 0 && read == 0 && data == 0 && alerted == 0,
{
}

/// Handshake data waits behind what waits already, an alert closes the connection with its number and
/// 256, a line of the key log is ended, and a session is kept.
pub proof fn callbacks_do_their_work(
    a: &mut ExData<'_>,
    b: &mut ExData<'_>,
    c: &mut ExData<'_>,
    d: &mut ExData<'_>,
    bytes: &[u8],
    ticket: &[u8],
    alert: u8,
    data: i32,
    alerted: i32,
    session: i32,
)
    requires
        call_ensures(add_handshake_data, (Some(a), Level::Handshake, bytes), data),
        call_ensures(send_alert, (Some(b), alert), alerted),
        call_ensures(keylog, (Some(c), bytes), ()),
        call_ensures(new_session, (Some(d), Some(ticket), bytes), session),
    ensures
        ({
            let before = old(a)@.pkt_num_spaces.handshake;
            let after = final(a)@.pkt_num_spaces.handshake;
            &&& before.crypto_fin ==> data == 0 && after == before
            &&& !before.crypto_fin ==> data == 1 && after.crypto_data == before.crypto_data + bytes@
        }),
        alerted == 1,
        final(b)@.local_error matches Some(error) && error.error_code == 256 + alert
            && !error.is_app,
        old(c)@.keylog matches Some(pending) ==> final(c)@.keylog == Some(
            pending + bytes@ + seq![10u8],
        ),
        old(c)@.keylog is None ==> final(c)@ == old(c)@,
        session == 0,
        final(d)@.session matches Some(stored) && stored.len() == 16 + ticket@.len() + bytes@.len()
            && stored.subrange(8, 8 + ticket@.len() as int) == ticket@ && stored.skip(
            16 + ticket@.len() as int,
        ) == bytes@,
{
    if let Some(pending) = old(c)@.keylog {
        assert((pending + bytes@).push(10u8) =~= pending + bytes@ + seq![10u8]);
    }
    crate::laws::tls::newest_session_is_kept(old(d)@, ticket@, bytes@, None);
}

/// The steps of a handshake: each asks the stack for what it is named after, and only provided data
/// is taken note of.
pub proof fn handshake_asks_for_what_it_is_told<'a>(
    a: &mut Handshake,
    b: &mut Handshake,
    c: &mut Handshake,
    d: &mut Handshake,
    e: &mut Handshake,
    f: &mut Handshake,
    is_server: bool,
    version: u16,
    buf: &'a [u8],
    level: Level,
    init: Step<'static>,
    min: Step<'static>,
    max: Step<'static>,
    params: Step<'a>,
    provided: Step<'a>,
    driven: Step<'static>,
)
    requires
        call_ensures(Handshake::init, (a, is_server), init),
        call_ensures(Handshake::set_min_proto_version, (b, version), min),
        call_ensures(Handshake::set_max_proto_version, (c, version), max),
        call_ensures(Handshake::set_quic_transport_params, (d, buf), params),
        call_ensures(Handshake::provide_data, (e, level, buf), provided),
        call_ensures(Handshake::do_handshake, (f,), driven),
    ensures
        is_server ==> init == Step::<'static>::Call(Call::SetAcceptState, Pending::InitState),
        !is_server ==> init == Step::<'static>::Call(Call::SetConnectState, Pending::InitState),
        min == Step::<'static>::Call(Call::SetMinProtoVersion(version), Pending::Checked),
        max == Step::<'static>::Call(Call::SetMaxProtoVersion(version), Pending::Checked),
        params == Step::<'a>::Call(Call::SetQuicTransportParams(buf), Pending::Mapped),
        provided == Step::<'a>::Call(Call::ProvideQuicData(level, buf), Pending::Mapped),
        driven == Step::<'static>::Call(Call::SetExData, Pending::ExDataSet(Drive::Handshake)),
        *final(a) == *old(a) && *final(b) == *old(b) && *final(c) == *old(c) && *final(d) == *old(
            d,
        ) && *final(f) == *old(f),
        final(e).provided_data_outstanding,
{
}

/// The calls that set a flag hand over 1 for it, and 0 for its absence.
pub proof fn flags_are_one_or_zero(
    a: &mut Handshake,
    b: &mut Handshake,
    c: &mut Handshake,
    d: &mut Handshake,
    set: bool,
    quiet: Call<'static>,
    legacy: Call<'static>,
    method: Step<'static>,
    clear: Step<'static>,
)
    requires
        call_ensures(Handshake::set_quiet_shutdown, (a, set), quiet),
        call_ensures(Handshake::use_legacy_codepoint, (b, set), legacy),
        call_ensures(Handshake::set_quic_method, (c,), method),
        call_ensures(Handshake::clear, (d,), clear),
    ensures
        set ==> quiet == Call::<'static>::SetQuietShutdown(1) && legacy
            == Call::<'static>::UseLegacyCodepoint(1),
        !set ==> quiet == Call::<'static>::SetQuietShutdown(0) && legacy
            == Call::<'static>::UseLegacyCodepoint(0),
        method == Step::<'static>::Call(Call::SetQuicMethod, Pending::Checked),
        clear == Step::<'static>::Call(Call::Clear, Pending::Mapped),
{
}

/// Provided data is processed once: the second time there is nothing to do.
pub proof fn post_handshake_runs_once(
    a: &mut Handshake,
    b: &mut Handshake,
    first: Step<'static>,
    second: Step<'static>,
)
    requires
        call_ensures(Handshake::process_post_handshake, (a,), first),
        call_ensures(Handshake::process_post_handshake, (b,), second),
        old(a).provided_data_outstanding,
        *old(b) == *final(a),
    ensures
        first == Step::<'static>::Call(Call::SetExData, Pending::ExDataSet(Drive::PostHandshake)),
        second == Step::<'static>::Return(Ok(())),
        !final(a).provided_data_outstanding,
{
}

/// A handshake that has failed for good closes the connection with an internal error, unless it is
/// closed already.
pub proof fn failed_handshake_closes_the_connection(
    local_error: &mut Option<ConnectionError>,
    driven: i32,
    answer: i32,
    step: Step<'_>,
)
    requires
        call_ensures(Pending::resume, (Pending::Failed(driven), answer, local_error), step),
    ensures
        answer == 1 && (*old(local_error)) is None ==> {
            &&& (*final(local_error)) is Some
            &&& (*final(local_error))->0.error_code == 1
            &&& !(*final(local_error))->0.is_app
        },
        answer != 1 && (*old(local_error)) is None ==> (*final(local_error)) is None,
        driven == 1 ==> step == Step::<'_>::Return(Ok(())),
        driven != 1 ==> step == Step::<'_>::Call(Call::GetError(driven), Pending::Error),
{
}

/// What has been added to a log is taken from it once.
pub proof fn log_is_taken_once(
    a: &mut Connection,
    b: &mut Connection,
    c: &mut Connection,
    range: Range<u64>,
    taken: Option<RangeSet>,
    again: Option<RangeSet>,
    pn: u64,
)
    requires
        call_ensures(Connection::oack_insert_range_pn, (a, range, Epoch::Application), ()),
        call_ensures(Connection::oack_take_new_pn_app, (b,), taken),
        call_ensures(Connection::oack_take_new_pn_app, (c,), again),
        final(a)@ == old(b)@,
        final(b)@ == old(c)@,
    ensures
        ({
            let log = old(a)@.pkt_num_spaces.application.oack_new_recv_pn;
            &&& log is None ==> taken is None && again is None
            &&& log is Some ==> {
                &&& taken is Some && again is Some
                &&& taken->0@.contains(pn) <==> log->0.contains(pn) || range.start <= pn < range.end
                &&& !again->0@.contains(pn)
            }
        }),
{
}

/// Enabling opportunistic acknowledgments starts empty logs, from which nothing can be taken yet.
pub proof fn enabled_connection_has_empty_logs(
    a: &mut Connection,
    b: &mut Connection,
    factor: u64,
    taken: Option<RangeSet>,
)
    requires
        call_ensures(Connection::enable_oack, (a, factor), ()),
        call_ensures(Connection::oack_take_new_pn_app, (b,), taken),
        final(a)@ == old(b)@,
    ensures
        final(a)@.oack_scaling_factor == Some(factor),
        final(a)@.pkt_num_spaces.handshake.oack_new_recv_pn == Some(Set::<u64>::empty()),
        final(a)@.pkt_num_spaces.initial == old(a)@.pkt_num_spaces.initial,
        taken is Some && taken->0@ == Set::<u64>::empty(),
{
}

/// A client that finds its connection established sends its request, and does not send it again.
pub proof fn next_request_sends_once(
    a: &mut Client,
    b: &mut Client,
    first: RequestPlan,
    second: RequestPlan,
)
    requires
        call_ensures(Client::next_request, (a, true, false), first),
        call_ensures(Client::next_request, (b, true, false), second),
        *old(b) == *final(a),
        !old(a).req_sent,
    ensures
        old(a).hq_interop ==> first.send_hq && !first.send_h3 && !first.open_h3
            && final(a).stream_id == 4,
        !old(a).hq_interop ==> first.send_h3 && !first.send_hq && first.open_h3 == !old(a).h3_open,
        !second.send_hq && !second.send_h3 && !second.open_h3,
        !first.leave && !second.leave,
{
}

/// Higher limits are raised once, and only with opportunistic acknowledgments. The stream that has
/// been assigned to the request is the one that is remembered.
pub proof fn raises_limits_once(
    a: &mut Client,
    b: &mut Client,
    c: &mut Client,
    stream_id: u64,
    first: bool,
    second: bool,
)
    requires
        call_ensures(Client::raises_limits, (a, true), first),
        call_ensures(Client::raises_limits, (b, true), second),
        call_ensures(Client::on_request_stream, (c, stream_id), ()),
        *old(b) == *final(a),
    ensures
        first <==> old(a).do_oack && !old(a).did_increase_max_data,
        !second,
        *final(c) == (Client { stream_id, ..*old(c) }),
{
}

} // verus!
