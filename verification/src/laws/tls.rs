//! What the callbacks of the TLS stack do to a connection.
use crate::packet::{
    epoch_of, Algorithm, Epoch, KeyView, Level, Open, PktNumSpace, PktNumSpaces, Seal, SpaceView,
    SpacesView,
};
use crate::session::stored_session;
use crate::time::Instant;
use crate::tls::{algorithm, ExDataView, ALPN_SELECTED, FAILURE, LINE_FEED, SUCCESS};
use vstd::prelude::*;

verus! {

/// The statuses of the callbacks are those that the TLS stack reads.
pub proof fn statuses_are_those_of_the_stack()
    ensures
        SUCCESS == 1,
        FAILURE == 0,
        ALPN_SELECTED == 0,
        LINE_FEED == '\n' as u8,
{
}

/// Three cipher suites are known, each with an algorithm of its own.
pub proof fn suites_have_their_algorithms(cipher_id: u32)
    ensures
        algorithm(cipher_id) == Some(Algorithm::AES128_GCM) <==> cipher_id == 0x0300_1301,
        algorithm(cipher_id) == Some(Algorithm::AES256_GCM) <==> cipher_id == 0x0300_1302,
        algorithm(cipher_id) == Some(Algorithm::ChaCha20_Poly1305) <==> cipher_id == 0x0300_1303,
{
}

/// A secret to seal with takes effect if its cipher suite is known and keys can be derived from it.
/// It makes up the seal of the packet number space of its level, with the algorithm of the suite,
/// and nothing else changes. A server has no use for one of the 0-RTT level. The status says whether
/// the callback failed.
pub proof fn secret_to_seal_with_makes_the_seal(
    ex: ExDataView,
    level: Level,
    cipher_id: u32,
    secret: Seq<u8>,
    derivable: bool,
)
    ensures
        ({
            let status = ex.secret_status(level, false, cipher_id, derivable);
            let after = ex.after_write_secret(level, cipher_id, secret, derivable);
            let known = 0x0300_1301 <= cipher_id <= 0x0300_1303;
            let of_use = level != Level::ZeroRTT || !ex.is_server;
            let before = ex.pkt_num_spaces;
            &&& status == 1 <==> known && (of_use ==> derivable)
            &&& status == 0 <==> !known || (of_use && !derivable)
            &&& !known || !of_use || !derivable ==> after == ex
            &&& known && of_use && derivable ==> {
                let alg = if cipher_id == 0x0300_1301 {
                    Algorithm::AES128_GCM
                } else if cipher_id == 0x0300_1302 {
                    Algorithm::AES256_GCM
                } else {
                    Algorithm::ChaCha20_Poly1305
                };
                let seal = Some(KeyView { alg, secret });
                let spaces = match level {
                    Level::Initial => SpacesView {
                        initial: SpaceView { crypto_seal: seal, ..before.initial },
                        ..before
                    },
                    Level::Handshake => SpacesView {
                        handshake: SpaceView { crypto_seal: seal, ..before.handshake },
                        ..before
                    },
                    Level::ZeroRTT | Level::OneRTT => SpacesView {
                        application: SpaceView { crypto_seal: seal, ..before.application },
                        ..before
                    },
                };
                after == (ExDataView { pkt_num_spaces: spaces, ..ex })
            }
        }),
{
}

/// A secret to open with takes effect if its cipher suite is known and keys can be derived from it.
/// It opens the packets of its level, with the algorithm of the suite, and nothing else changes. A
/// client has no use for one of the 0-RTT level, and on a server that one opens 0-RTT packets only.
/// The status says whether the callback failed.
pub proof fn secret_to_open_with_opens_its_level(
    ex: ExDataView,
    level: Level,
    cipher_id: u32,
    secret: Seq<u8>,
    derivable: bool,
)
    ensures
        ({
            let status = ex.secret_status(level, true, cipher_id, derivable);
            let after = ex.after_read_secret(level, cipher_id, secret, derivable);
            let known = 0x0300_1301 <= cipher_id <= 0x0300_1303;
            let of_use = level != Level::ZeroRTT || ex.is_server;
            let before = ex.pkt_num_spaces;
            &&& status == 1 <==> known && (of_use ==> derivable)
            &&& status == 0 <==> !known || (of_use && !derivable)
            &&& !known || !of_use || !derivable ==> after == ex
            &&& known && of_use && derivable ==> {
                let alg = if cipher_id == 0x0300_1301 {
                    Algorithm::AES128_GCM
                } else if cipher_id == 0x0300_1302 {
                    Algorithm::AES256_GCM
                } else {
                    Algorithm::ChaCha20_Poly1305
                };
                let open = Some(KeyView { alg, secret });
                let spaces = match level {
                    Level::Initial => SpacesView {
                        initial: SpaceView { crypto_open: open, ..before.initial },
                        ..before
                    },
                    Level::Handshake => SpacesView {
                        handshake: SpaceView { crypto_open: open, ..before.handshake },
                        ..before
                    },
                    Level::ZeroRTT => SpacesView {
                        application: SpaceView { crypto_0rtt_open: open, ..before.application },
                        ..before
                    },
                    Level::OneRTT => SpacesView {
                        application: SpaceView { crypto_open: open, ..before.application },
                        ..before
                    },
                };
                after == (ExDataView { pkt_num_spaces: spaces, ..ex })
            }
        }),
{
}

/// What one side seals with a suite, the other side opens with the same algorithm, if both are given
/// the same secret.
pub proof fn both_sides_use_the_same_algorithm(
    sender: ExDataView,
    receiver: ExDataView,
    cipher_id: u32,
    secret: Seq<u8>,
)
    requires
        0x0300_1301 <= cipher_id <= 0x0300_1303,
    ensures
        ({
            let seals = sender.after_write_secret(Level::OneRTT, cipher_id, secret, true);
            let opens = receiver.after_read_secret(Level::OneRTT, cipher_id, secret, true);
            seals.pkt_num_spaces.application.crypto_seal
                == opens.pkt_num_spaces.application.crypto_open
        }),
        ({
            let seals = sender.after_write_secret(Level::Handshake, cipher_id, secret, true);
            let opens = receiver.after_read_secret(Level::Handshake, cipher_id, secret, true);
            seals.pkt_num_spaces.handshake.crypto_seal
                == opens.pkt_num_spaces.handshake.crypto_open
        }),
        !sender.is_server && receiver.is_server ==> {
            let seals = sender.after_write_secret(Level::ZeroRTT, cipher_id, secret, true);
            let opens = receiver.after_read_secret(Level::ZeroRTT, cipher_id, secret, true);
            seals.pkt_num_spaces.application.crypto_seal
                == opens.pkt_num_spaces.application.crypto_0rtt_open
        },
{
}

/// Handshake data is sent in the packet number space of its level, after what waits there already,
/// unless that has been finished. The status says whether it has.
pub proof fn handshake_data_is_appended(ex: ExDataView, level: Level, data: Seq<u8>)
    ensures
        ({
            let before = ex.pkt_num_spaces;
            let after = ex.after_handshake_data(level, data);
            let status = ex.handshake_data_status(level);
            let (space, spaces) = match level {
                Level::Initial => (
                    before.initial,
                    SpacesView {
                        initial: SpaceView {
                            crypto_data: before.initial.crypto_data + data,
                            ..before.initial
                        },
                        ..before
                    },
                ),
                Level::Handshake => (
                    before.handshake,
                    SpacesView {
                        handshake: SpaceView {
                            crypto_data: before.handshake.crypto_data + data,
                            ..before.handshake
                        },
                        ..before
                    },
                ),
                Level::ZeroRTT | Level::OneRTT => (
                    before.application,
                    SpacesView {
                        application: SpaceView {
                            crypto_data: before.application.crypto_data + data,
                            ..before.application
                        },
                        ..before
                    },
                ),
            };
            &&& space.crypto_fin ==> status == 0 && after == ex
            &&& !space.crypto_fin ==> status == 1 && after == (ExDataView {
                pkt_num_spaces: spaces,
                ..ex
            })
        }),
{
}

/// Handshake data that is handed over in two parts is sent as if it had been handed over at once.
pub proof fn handshake_data_keeps_its_order(ex: ExDataView, level: Level, a: Seq<u8>, b: Seq<u8>)
    ensures
        ex.after_handshake_data(level, a).after_handshake_data(level, b)
            == ex.after_handshake_data(level, a + b),
{
    let data = ex.pkt_num_spaces.get(epoch_of(level)).crypto_data;
    assert((data + a) + b =~= data + (a + b));
}

/// An alert closes the connection with an error of the transport: 256 and the number of the alert.
/// Nothing else changes.
pub proof fn alert_closes_the_connection(ex: ExDataView, alert: u8)
    ensures
        ({
            let after = ex.after_alert(alert);
            &&& after.local_error matches Some(error)
            &&& !error.is_app
            &&& error.error_code == 256 + alert
            &&& error.reason.len() == 0
            &&& after == (ExDataView { local_error: after.local_error, ..ex })
        }),
{
}

/// The lines of the key log are kept in order, each ended by a line feed. Nothing is kept if keys are
/// not logged, and nothing else changes.
pub proof fn key_log_keeps_its_lines(ex: ExDataView, a: Seq<u8>, b: Seq<u8>)
    ensures
        ({
            let after = ex.after_keylog(a).after_keylog(b);
            &&& ex.keylog matches Some(pending) ==> after.keylog == Some(
                pending + a + seq![10u8] + b + seq![10u8],
            )
            &&& ex.keylog matches Some(pending) ==> ex.after_keylog(a).keylog == Some(
                pending + a + seq![10u8],
            )
            &&& ex.keylog is None ==> after == ex && ex.after_keylog(a) == ex
            &&& after == (ExDataView { keylog: after.keylog, ..ex })
        }),
{
    if let Some(pending) = ex.keylog {
        assert((pending + a).push(10u8) =~= pending + a + seq![10u8]);
        assert((((pending + a).push(10u8)) + b).push(10u8) =~= pending + a + seq![10u8] + b + seq![
            10u8,
        ]);
    }
}

/// A session is stored as the length of its ticket, the ticket, the length of the transport
/// parameters of the peer and the parameters. It replaces the one before. Without a ticket nothing
/// changes.
pub proof fn newest_session_is_kept(
    ex: ExDataView,
    ticket: Seq<u8>,
    peer_params: Seq<u8>,
    session: Option<Seq<u8>>,
)
    ensures
        ex.after_session(None, peer_params) == ex,
        ({
            let after = ex.after_session(Some(ticket), peer_params);
            &&& after.session matches Some(stored)
            &&& stored == stored_session(ticket, peer_params)
            &&& stored.len() == 8 + ticket.len() + 8 + peer_params.len()
            &&& stored.subrange(8, 8 + ticket.len() as int) == ticket
            &&& stored.skip(16 + ticket.len() as int) == peer_params
            &&& after == (ExDataView { session: after.session, ..ex })
            &&& (ExDataView { session, ..ex }).after_session(Some(ticket), peer_params) == after
        }),
{
    let stored = stored_session(ticket, peer_params);
    assert(stored.subrange(8, 8 + ticket.len() as int) =~= ticket);
    assert(stored.skip(16 + ticket.len() as int) =~= peer_params);
}

/// 0-RTT packets are numbered with the application data, and the packets of the handshake are
/// numbered by their levels.
pub proof fn levels_have_their_spaces(spaces: SpacesView, epoch: Epoch, space: SpaceView)
    ensures
        epoch_of(Level::Initial) == Epoch::Initial,
        epoch_of(Level::Handshake) == Epoch::Handshake,
        epoch_of(Level::ZeroRTT) == Epoch::Application,
        epoch_of(Level::OneRTT) == Epoch::Application,
        spaces.get(Epoch::Initial) == spaces.initial,
        spaces.get(Epoch::Handshake) == spaces.handshake,
        spaces.get(Epoch::Application) == spaces.application,
        spaces.set(epoch, space).get(epoch) == space,
        forall|other: Epoch|
            other != epoch ==> #[trigger] spaces.set(epoch, space).get(other) == spaces.get(other),
{
}

/// A packet number space starts with nothing received, nothing to send and no keys.
pub proof fn fresh_space_is_empty(now: Instant)
    ensures
        ({
            let space = SpaceView::fresh(now);
            &&& space.largest_rx_pkt_num == 0
            &&& space.largest_rx_pkt_time == now
            &&& space.recv_pkt_need_ack == Set::<u64>::empty()
            &&& space.recv_pkt_num == Set::<u64>::empty()
            &&& !space.ack_elicited
            &&& space.oack_new_recv_pn is None
            &&& space.crypto_open is None
            &&& space.crypto_0rtt_open is None
            &&& space.crypto_seal is None
            &&& space.crypto_data.len() == 0
            &&& !space.crypto_fin
        }),
{
}

/// The content of a packet number space is what its fields hold.
pub proof fn spaces_hold_their_fields(
    spaces: PktNumSpaces,
    space: PktNumSpace,
    open: Open,
    seal: Seal,
)
    ensures
        spaces@.initial == spaces.initial@,
        spaces@.handshake == spaces.handshake@,
        spaces@.application == spaces.application@,
        space@.largest_rx_pkt_num == space.largest_rx_pkt_num,
        space@.largest_rx_pkt_time == space.largest_rx_pkt_time,
        space@.recv_pkt_need_ack == space.recv_pkt_need_ack@,
        space@.recv_pkt_num == space.recv_pkt_num@,
        space@.ack_elicited == space.ack_elicited,
        space.oack_new_recv_pn is None <==> space@.oack_new_recv_pn is None,
        space.oack_new_recv_pn is Some ==> space@.oack_new_recv_pn == Some(
            space.oack_new_recv_pn->0@,
        ),
        space.crypto_open is None <==> space@.crypto_open is None,
        space.crypto_open is Some ==> space@.crypto_open == Some(space.crypto_open->0@),
        space.crypto_0rtt_open is None <==> space@.crypto_0rtt_open is None,
        space.crypto_0rtt_open is Some ==> space@.crypto_0rtt_open == Some(
            space.crypto_0rtt_open->0@,
        ),
        space.crypto_seal is None <==> space@.crypto_seal is None,
        space.crypto_seal is Some ==> space@.crypto_seal == Some(space.crypto_seal->0@),
        space@.crypto_data == space.crypto_send.data@,
        space@.crypto_fin == space.crypto_send.fin,
        open@ == (KeyView { alg: open.alg, secret: open.secret@ }),
        seal@ == (KeyView { alg: seal.alg, secret: seal.secret@ }),
{
}

} // verus!
