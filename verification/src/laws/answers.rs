//! What the functions that only answer a question answer.
use crate::alpn::{decode, encode, encode_protos};
use crate::ca_store::{load_ca_certs, Loading, StoreCall, StoreStep};
use crate::client::{
    bind_address, hq_request, is_parsable, next_timeout, request_path, server_name, Client,
    H3Action, H3Event,
};
use crate::connection::Connection;
use crate::error::Error;
use crate::flow::{FlowControl, Stream};
use crate::handshake::{Call, Context, Handshake, Pending, Step};
use crate::oack::{
    ConstantView, OpportunistConstant, OpportunistMaxPn, OpportunistQlog,
};
use crate::packet::{Algorithm, Epoch, Level, PktNumSpaces};
use crate::session::store_session;
use crate::text::hex_dump;
use crate::time::{Duration, Instant};
use crate::tls::{
    flush_flight, get_cipher, map_result, map_result_zero_is_success, select_alpn, ExData,
};
use std::ops::Range;
use vstd::prelude::*;

verus! {

/// The answers of the stack that are 1 on success, or 0, are read as a success exactly then.
pub proof fn answers_are_read(answer: i32, one: Result<(), Error>, zero: Result<(), Error>)
    requires
        call_ensures(map_result, (answer,), one),
        call_ensures(map_result_zero_is_success, (answer,), zero),
    ensures
        one is Ok <==> answer == 1,
        one is Err ==> one == Err::<(), Error>(Error::TlsFail),
        zero is Ok <==> answer == 0,
        zero is Err ==> zero == Err::<(), Error>(Error::TlsFail),
{
}

/// The suites that are known are those of TLS 1.3 that protect packets.
pub proof fn suites_are_told_apart(cipher_id: u32, found: Result<Algorithm, Error>)
    requires
        call_ensures(get_cipher, (cipher_id,), found),
    ensures
        cipher_id == 0x0300_1301 ==> found == Ok::<Algorithm, Error>(Algorithm::AES128_GCM),
        cipher_id == 0x0300_1302 ==> found == Ok::<Algorithm, Error>(Algorithm::AES256_GCM),
        cipher_id == 0x0300_1303 ==> found == Ok::<Algorithm, Error>(Algorithm::ChaCha20_Poly1305),
        cipher_id < 0x0300_1301 || cipher_id > 0x0300_1303 ==> found == Err::<Algorithm, Error>(
            Error::TlsFail,
        ),
{
}

/// There is never anything to flush.
pub proof fn flushing_succeeds(status: i32)
    requires
        call_ensures(flush_flight, (), status),
    ensures
        status == 1,
{
}

/// The status of a selection is 0 exactly if a protocol is selected, which is a supported one that is
/// offered, and the first one offered that is supported. Otherwise it is the one that was given.
pub proof fn selected_protocol_is_supported_and_offered(
    ex: &ExData<'_>,
    offered: &[u8],
    tls_error: i32,
    answer: (i32, Option<usize>),
)
    requires
        call_ensures(select_alpn, (Some(ex), offered, tls_error), answer),
    ensures
        ({
            let supported = ex@.application_protos;
            let protos = decode(offered@);
            match answer.1 {
                Some(index) => {
                    &&& answer.0 == 0
                    &&& index < supported.len()
                    &&& exists|i: int|
                        0 <= i < protos.len() && #[trigger] protos[i] == supported[index as int]
                            && forall|j: int|
                            0 <= j < i ==> !supported.contains(#[trigger] protos[j])
                },
                None => {
                    &&& answer.0 == tls_error
                    &&& forall|j: int|
                        0 <= j < protos.len() ==> !supported.contains(#[trigger] protos[j])
                },
            }
        }),
{
    crate::laws::selection_follows_the_offer(ex@.application_protos, decode(offered@));
}

/// A single protocol is written as its length and its bytes.
pub proof fn protocol_is_written_after_its_length(protos: &[&[u8]], wire: Vec<u8>)
    requires
        call_ensures(encode_protos, (protos,), wire),
        protos@.len() == 1,
    ensures
        wire@.len() == 1 + protos@[0]@.len(),
        wire@[0] as int == protos@[0]@.len() % 256,
        wire@.skip(1) == protos@[0]@,
{
    reveal_with_fuel(encode, 2);
    assert(wire@.skip(1) =~= protos@[0]@);
}

/// A session is stored with its ticket from the ninth byte on, and the transport parameters last.
pub proof fn session_holds_its_parts(ticket: &[u8], peer_params: &[u8], buffer: Vec<u8>)
    requires
        call_ensures(store_session, (ticket, peer_params), buffer),
    ensures
        buffer@.len() == 16 + ticket@.len() + peer_params@.len(),
        buffer@.subrange(8, 8 + ticket@.len() as int) == ticket@,
        buffer@.skip(16 + ticket@.len() as int) == peer_params@,
{
    assert(buffer@.subrange(8, 8 + ticket@.len() as int) =~= ticket@);
    assert(buffer@.skip(16 + ticket@.len() as int) =~= peer_params@);
}

/// A dump has two digits for each byte, and two bytes with the same digits are the same.
pub proof fn dump_tells_bytes_apart(a: &[u8], b: &[u8], text: String, other: String)
    requires
        call_ensures(hex_dump, (a,), text),
        call_ensures(hex_dump, (b,), other),
    ensures
        text@.len() == 2 * a@.len(),
        text@ == other@ ==> a@ == b@,
{
    if text@ == other@ {
        assert forall|i: int| 0 <= i < a@.len() implies a@[i] == b@[i] by {
            assert(text@[2 * i] == other@[2 * i]);
            assert(text@[2 * i + 1] == other@[2 * i + 1]);
        }
        assert(a@ =~= b@);
    }
}

/// The loading of certificates begins with the store of the system.
pub proof fn loading_begins_with_the_system(step: StoreStep)
    requires
        call_ensures(load_ca_certs, (), step),
    ensures
        step == StoreStep::Call(StoreCall::OpenSystemStore, Loading::Opening),
{
}

/// The local address is any of the family of the server, with any port.
pub proof fn any_address_is_bound(is_ipv4: bool, address: &'static str)
    requires
        call_ensures(bind_address, (is_ipv4,), address),
    ensures
        is_ipv4 ==> address@ == "0.0.0.0:0"@,
        !is_ipv4 ==> address@ == "[::]:0"@,
{
}

/// The server is asked for the domain of the URL, or for `server4` if there is none.
pub proof fn server_is_asked_for_the_domain(domain: String, name: String, fallback: String)
    requires
        call_ensures(server_name, (Some(domain),), name),
        call_ensures(server_name, (None,), fallback),
    ensures
        name@ == domain@,
        fallback@ == "server4"@,
{
}

/// A path without a query is asked for as it is, and the query stands after a question mark.
pub proof fn path_and_query_are_asked_for(
    path: &str,
    query: &str,
    alone: String,
    full: String,
    line: String,
)
    requires
        call_ensures(request_path, (path, None), alone),
        call_ensures(request_path, (path, Some(query)), full),
        call_ensures(hq_request, (path,), line),
    ensures
        alone@ == path@,
        full@ == path@ + seq!['?'] + query@,
        line@ == seq!['G', 'E', 'T', ' '] + path@ + seq!['\r', '\n'],
{
    reveal_strlit("?");
    assert("?"@ =~= seq!['?']);
    crate::laws::client::hq_request_is_one_line(path@);
}

/// Every text of up to 214 characters is found to be one that can be parsed.
pub proof fn short_texts_are_found_parsable(url: &str, possible: bool)
    requires
        call_ensures(is_parsable, (url,), possible),
    ensures
        url@.len() <= 214 ==> possible,
        url@.len() > 0x7fff_ffff ==> !possible,
{
    crate::laws::client::short_texts_can_be_parsed(url@);
}

/// The client waits for whichever timeout is the earlier one.
pub proof fn earlier_timeout_is_waited_for(
    conn: Option<Duration>,
    oack: Option<Duration>,
    timeout: Option<Duration>,
)
    requires
        call_ensures(next_timeout, (conn, oack), timeout),
    ensures
        timeout == conn || timeout == oack,
        timeout is None ==> conn is None && oack is None,
        timeout is Some && conn is Some ==> timeout->0.nanos <= conn->0.nanos,
        timeout is Some && oack is Some ==> timeout->0.nanos <= oack->0.nanos,
{
}

/// A client begins with nothing done. It has acknowledgments activated if its connection is
/// established and they are not active.
pub proof fn client_begins_with_nothing_done(
    hq_interop: bool,
    do_oack: bool,
    client: Client,
    established: bool,
    active: bool,
    activate: bool,
)
    requires
        call_ensures(Client::new, (hq_interop, do_oack), client),
        call_ensures(Client::activates_oack, (&client, established, active), activate),
    ensures
        client.hq_interop == hq_interop,
        client.do_oack == do_oack,
        !client.h3_open && !client.req_sent && !client.did_increase_max_data,
        client.stream_id == 4,
        activate <==> established && !active,
{
}

/// A client with opportunistic acknowledgments leaves data unread, and others read it. The end of a
/// response closes the connection.
pub proof fn data_is_read_without_acknowledgments(
    client: Client,
    on_data: H3Action,
    on_end: H3Action,
    on_reset: H3Action,
)
    requires
        call_ensures(Client::on_h3_event, (&client, H3Event::Data), on_data),
        call_ensures(Client::on_h3_event, (&client, H3Event::Finished), on_end),
        call_ensures(Client::on_h3_event, (&client, H3Event::Reset), on_reset),
    ensures
        client.do_oack ==> on_data == H3Action::Next,
        !client.do_oack ==> on_data == H3Action::ReadBody,
        on_end == H3Action::Close,
        on_reset == H3Action::Close,
{
}

/// The answers of a connection about itself.
pub proof fn connection_tells_what_it_holds(
    conn: Connection,
    enabled: bool,
    rtt: Option<Duration>,
    first: u64,
    max: u64,
)
    requires
        call_ensures(Connection::is_oack_enabled, (&conn,), enabled),
        call_ensures(Connection::oack_get_rtt, (&conn,), rtt),
        call_ensures(Connection::oack_get_first_pn, (&conn,), first),
        call_ensures(Connection::oack_get_max_pn, (&conn,), max),
    ensures
        enabled <==> conn.pkt_num_spaces.application.oack_new_recv_pn is Some,
        conn.paths@.len() == 0 ==> rtt is None,
        conn.paths@.len() > 0 ==> rtt == Some(conn.paths@[0].rtt),
        conn.oack_first_app_pn is None ==> first == 0,
        conn.oack_first_app_pn is Some ==> conn.oack_first_app_pn == Some(first),
        max == conn.oack_max_app_pn,
{
}

/// A higher limit is needed when less than half of the window is left, and for a stream only as long
/// as its final size is not known.
pub proof fn limit_is_needed_at_half_the_window(
    flow: FlowControl,
    stream: Stream,
    update: bool,
    full: bool,
    draining: bool,
)
    requires
        call_ensures(FlowControl::should_update_max_data, (&flow,), update),
        call_ensures(Stream::almost_full, (&stream,), full),
        call_ensures(Stream::is_draining, (&stream,), draining),
    ensures
        update <==> flow.consumed + flow.window as int / 2 > flow.max_data,
        full <==> stream.fin_off is None && stream.flow_control.consumed
            + stream.flow_control.window as int / 2 > stream.flow_control.max_data,
        draining == stream.drain,
{
}

/// 0-RTT packets share the packet number space of application data.
pub proof fn levels_are_carried_by_their_spaces(level: Level, epoch: Epoch)
    requires
        call_ensures(Level::epoch, (level,), epoch),
    ensures
        epoch == Epoch::Initial <==> level == Level::Initial,
        epoch == Epoch::Handshake <==> level == Level::Handshake,
        epoch == Epoch::Application <==> level == Level::ZeroRTT || level == Level::OneRTT,
{
}

/// The packet number spaces start empty, without a log and without keys.
pub proof fn spaces_start_empty(now: Instant, spaces: PktNumSpaces)
    requires
        call_ensures(PktNumSpaces::new, (now,), spaces),
    ensures
        spaces@.initial == spaces@.handshake,
        spaces@.initial == spaces@.application,
        ({
            let space = spaces@.application;
            &&& space.largest_rx_pkt_num == 0
            &&& space.largest_rx_pkt_time == now
            &&& space.recv_pkt_num == Set::<u64>::empty()
            &&& space.recv_pkt_need_ack == Set::<u64>::empty()
            &&& !space.ack_elicited
            &&& space.oack_new_recv_pn is None
            &&& space.crypto_open is None && space.crypto_0rtt_open is None
                && space.crypto_seal is None
            &&& space.crypto_data.len() == 0 && !space.crypto_fin
        }),
{
}

/// A context is set up from the session cache mode on, with sessions handed over to a client.
pub proof fn context_begins_with_the_session_cache(step: Step<'static>, verify: bool, mode: i32)
    requires
        call_ensures(Context::new, (), step),
        call_ensures(Context::set_verify, (verify,), mode),
    ensures
        step == Step::<'static>::Call(Call::SetSessionCacheMode(1), Pending::ContextCacheMode),
        verify ==> mode == 1,
        !verify ==> mode == 0,
{
}

/// Files, directories and keys are handed to the stack by the call that is meant for them, unless
/// there is a zero byte in a name.
pub proof fn context_hands_over_what_it_is_given<'a>(
    name: &'a str,
    key: &'a [u8],
    file: Step<'a>,
    directory: Step<'a>,
    chain: Step<'a>,
    private: Step<'a>,
    ticket: Step<'a>,
)
    requires
        call_ensures(Context::load_verify_locations_from_file, (name,), file),
        call_ensures(Context::load_verify_locations_from_directory, (name,), directory),
        call_ensures(Context::use_certificate_chain_file, (name,), chain),
        call_ensures(Context::use_privkey_file, (name,), private),
        call_ensures(Context::set_ticket_key, (key,), ticket),
    ensures
        ({
            let refused = Step::<'a>::Return(Err(Error::TlsFail));
            if vstd::utf8::encode_utf8(name@).contains(0) {
                file == refused && directory == refused && chain == refused && private == refused
            } else {
                &&& file == Step::Call(Call::LoadVerifyFile(name), Pending::Checked)
                &&& directory == Step::Call(Call::LoadVerifyDirectory(name), Pending::Checked)
                &&& chain == Step::Call(Call::UseCertificateChainFile(name), Pending::Checked)
                &&& private == Step::Call(Call::UsePrivateKeyFile(name, 1), Pending::Checked)
            }
        }),
        ticket == Step::<'a>::Call(Call::SetTicketKeys(key), Pending::Checked),
{
}

/// The answers about a handshake are those of the stack.
pub proof fn handshake_tells_what_the_stack_does(
    handshake: Handshake,
    answer: i32,
    completed: bool,
    resumed: bool,
    cipher_id: u32,
    alg: Option<Algorithm>,
    none: Option<Algorithm>,
)
    requires
        call_ensures(Handshake::is_completed, (&handshake, answer), completed),
        call_ensures(Handshake::is_resumed, (&handshake, answer), resumed),
        call_ensures(Handshake::cipher, (&handshake, Some(cipher_id)), alg),
        call_ensures(Handshake::cipher, (&handshake, None), none),
    ensures
        completed <==> answer == 0,
        resumed <==> answer == 1,
        alg == Some(Algorithm::AES128_GCM) <==> cipher_id == 0x0300_1301,
        alg == Some(Algorithm::AES256_GCM) <==> cipher_id == 0x0300_1302,
        alg == Some(Algorithm::ChaCha20_Poly1305) <==> cipher_id == 0x0300_1303,
        none is None,
{
}

/// A strategy that uses the maximum received packet number starts inactive, with nothing to
/// acknowledge. It waits for nothing once a packet has been received that it has not acknowledged.
pub proof fn max_pn_waits_for_a_packet(
    shift_pn: Option<u64>,
    lag_shift: Option<u64>,
    fresh: OpportunistMaxPn,
    strategy: OpportunistMaxPn,
    timeout: Option<Duration>,
    active: bool,
)
    requires
        call_ensures(OpportunistMaxPn::new, (shift_pn, lag_shift), fresh),
        call_ensures(OpportunistMaxPn::timeout, (&strategy,), timeout),
        call_ensures(OpportunistMaxPn::is_active, (&strategy,), active),
    ensures
        fresh@.shift_pn == shift_pn,
        fresh@.true_last_recv_pn == 0 && fresh@.true_last_pn_oack == 0,
        fresh@.first_app_pn is None && fresh@.next_max_pn == 0 && fresh@.last_max_pn == 0,
        !fresh@.active,
        timeout is Some <==> strategy@.true_last_recv_pn != strategy@.true_last_pn_oack,
        timeout is Some ==> timeout->0.nanos == 0,
        active == strategy@.active,
{
}

/// A strategy with a constant range starts with the range as it was given, and with no call for it.
/// It waits for nothing once a packet has called for the range.
pub proof fn constant_range_waits_for_a_packet(
    range: Range<u64>,
    lag: Option<u64>,
    fresh: OpportunistConstant,
    strategy: OpportunistConstant,
    timeout: Option<Duration>,
    active: bool,
)
    requires
        call_ensures(OpportunistConstant::new, (range, lag), fresh),
        call_ensures(OpportunistConstant::timeout, (&strategy,), timeout),
        call_ensures(OpportunistConstant::is_active, (&strategy,), active),
    ensures
        fresh@ == (ConstantView {
            range,
            lag,
            new_recv: false,
            first_app_pn: None,
            last_recv_pn: None,
        }),
        timeout is Some <==> strategy@.new_recv,
        timeout is Some ==> timeout->0.nanos == 0,
        active,
{
}

/// A strategy that replays a trace is active as long as it was told to be.
pub proof fn replay_tells_whether_it_is_active(strategy: OpportunistQlog, active: bool)
    requires
        call_ensures(OpportunistQlog::is_active, (&strategy,), active),
    ensures
        active == strategy@.active,
{
}

} // verus!
