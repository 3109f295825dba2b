//! Callbacks of the TLS stack.
use quic_oack::error::{ConnectionError, Error};
use quic_oack::packet::{Algorithm, Level, PktNumSpaces};
use quic_oack::time::Instant;
use quic_oack::tls::{
    add_handshake_data, flush_flight, get_cipher, keylog, map_result, map_result_ptr,
    map_result_zero_is_success, new_session, select_alpn, send_alert, set_read_secret,
    set_write_secret, ExData,
};

const AES128: u32 = 0x0300_1301;
const AES256: u32 = 0x0300_1302;
const CHACHA: u32 = 0x0300_1303;

/// What the callbacks change.
struct State {
    protos: Vec<Vec<u8>>,
    spaces: PktNumSpaces,
    session: Option<Vec<u8>>,
    local_error: Option<ConnectionError>,
    lines: Vec<u8>,
    is_server: bool,
}

impl State {
    fn new(is_server: bool) -> State {
        State {
            protos: vec![b"h3".to_vec(), b"hq-interop".to_vec()],
            spaces: PktNumSpaces::new(Instant { nanos: 0 }),
            session: None,
            local_error: None,
            lines: Vec::new(),
            is_server,
        }
    }

    fn ex_data(&mut self) -> ExData<'_> {
        ExData {
            application_protos: &self.protos,
            pkt_num_spaces: &mut self.spaces,
            session: &mut self.session,
            local_error: &mut self.local_error,
            keylog: Some(&mut self.lines),
            trace_id: "client",
            is_server: self.is_server,
        }
    }
}

#[test]
fn cipher_suites_have_algorithms() {
    assert_eq!(get_cipher(AES128), Ok(Algorithm::AES128_GCM));
    assert_eq!(get_cipher(AES256), Ok(Algorithm::AES256_GCM));
    assert_eq!(get_cipher(CHACHA), Ok(Algorithm::ChaCha20_Poly1305));
    assert_eq!(get_cipher(0x0300_1304), Err(Error::TlsFail));
    assert_eq!(get_cipher(0), Err(Error::TlsFail));
}

#[test]
fn read_secrets_open_packets() {
    let mut state = State::new(false);
    assert_eq!(set_read_secret(Some(&mut state.ex_data()), Level::Initial, AES128, b"i", true), 1);
    assert_eq!(set_read_secret(Some(&mut state.ex_data()), Level::Handshake, AES256, b"h", true), 1);
    assert_eq!(set_read_secret(Some(&mut state.ex_data()), Level::OneRTT, CHACHA, b"a", true), 1);
    let open = state.spaces.initial.crypto_open.as_ref().unwrap();
    assert_eq!((open.alg, open.secret.as_slice()), (Algorithm::AES128_GCM, &b"i"[..]));
    let open = state.spaces.handshake.crypto_open.as_ref().unwrap();
    assert_eq!((open.alg, open.secret.as_slice()), (Algorithm::AES256_GCM, &b"h"[..]));
    let open = state.spaces.application.crypto_open.as_ref().unwrap();
    assert_eq!((open.alg, open.secret.as_slice()), (Algorithm::ChaCha20_Poly1305, &b"a"[..]));
    assert!(state.spaces.application.crypto_0rtt_open.is_none());
    assert!(state.spaces.application.crypto_seal.is_none());
}

#[test]
fn early_read_secrets_are_for_the_server() {
    let mut client = State::new(false);
    assert_eq!(set_read_secret(Some(&mut client.ex_data()), Level::ZeroRTT, AES128, b"z", true), 1);
    assert!(client.spaces.application.crypto_0rtt_open.is_none());
    assert_eq!(set_read_secret(Some(&mut client.ex_data()), Level::ZeroRTT, AES128, b"z", false), 1);

    let mut server = State::new(true);
    assert_eq!(set_read_secret(Some(&mut server.ex_data()), Level::ZeroRTT, AES128, b"z", true), 1);
    assert_eq!(server.spaces.application.crypto_0rtt_open.as_ref().unwrap().secret, b"z".to_vec());
    assert!(server.spaces.application.crypto_open.is_none());
}

#[test]
fn write_secrets_seal_packets() {
    let mut client = State::new(false);
    assert_eq!(set_write_secret(Some(&mut client.ex_data()), Level::Handshake, AES128, b"h", true), 1);
    assert_eq!(client.spaces.handshake.crypto_seal.as_ref().unwrap().secret, b"h".to_vec());
    assert_eq!(set_write_secret(Some(&mut client.ex_data()), Level::ZeroRTT, AES128, b"z", true), 1);
    assert_eq!(client.spaces.application.crypto_seal.as_ref().unwrap().secret, b"z".to_vec());
    assert_eq!(set_write_secret(Some(&mut client.ex_data()), Level::OneRTT, CHACHA, b"a", true), 1);
    let seal = client.spaces.application.crypto_seal.as_ref().unwrap();
    assert_eq!((seal.alg, seal.secret.as_slice()), (Algorithm::ChaCha20_Poly1305, &b"a"[..]));

    let mut server = State::new(true);
    assert_eq!(set_write_secret(Some(&mut server.ex_data()), Level::ZeroRTT, AES128, b"z", true), 1);
    assert!(server.spaces.application.crypto_seal.is_none());
}

#[test]
fn bad_secrets_are_refused() {
    let mut state = State::new(true);
    assert_eq!(set_read_secret(Some(&mut state.ex_data()), Level::OneRTT, 7, b"a", true), 0);
    assert_eq!(set_write_secret(Some(&mut state.ex_data()), Level::OneRTT, 7, b"a", true), 0);
    assert_eq!(set_write_secret(Some(&mut state.ex_data()), Level::ZeroRTT, 7, b"a", true), 0);
    assert_eq!(set_read_secret(Some(&mut state.ex_data()), Level::OneRTT, AES128, b"a", false), 0);
    assert_eq!(set_write_secret(Some(&mut state.ex_data()), Level::OneRTT, AES128, b"a", false), 0);
    assert!(state.spaces.application.crypto_open.is_none());
    assert!(state.spaces.application.crypto_seal.is_none());
}

#[test]
fn callbacks_without_data_fail() {
    assert_eq!(set_read_secret(None, Level::OneRTT, AES128, b"a", true), 0);
    assert_eq!(set_write_secret(None, Level::OneRTT, AES128, b"a", true), 0);
    assert_eq!(add_handshake_data(None, Level::ZeroRTT, b"a"), 0);
    assert_eq!(send_alert(None, 1), 0);
    assert_eq!(select_alpn(None, b"\x02h3", 3), (3, None));
    assert_eq!(new_session(None, Some(b"t"), b"p"), 0);
    keylog(None, b"line");
    assert_eq!(flush_flight(), 1);
}

#[test]
fn handshake_data_waits_to_be_sent() {
    let mut state = State::new(false);
    assert_eq!(add_handshake_data(Some(&mut state.ex_data()), Level::Initial, b"hel"), 1);
    assert_eq!(add_handshake_data(Some(&mut state.ex_data()), Level::Initial, b"lo"), 1);
    assert_eq!(add_handshake_data(Some(&mut state.ex_data()), Level::Handshake, b"x"), 1);
    assert_eq!(add_handshake_data(Some(&mut state.ex_data()), Level::OneRTT, b"y"), 1);
    assert_eq!(state.spaces.initial.crypto_send.data, b"hello".to_vec());
    assert_eq!(state.spaces.handshake.crypto_send.data, b"x".to_vec());
    assert_eq!(state.spaces.application.crypto_send.data, b"y".to_vec());
    state.spaces.initial.crypto_send.fin = true;
    assert_eq!(add_handshake_data(Some(&mut state.ex_data()), Level::Initial, b"z"), 0);
    assert_eq!(state.spaces.initial.crypto_send.data, b"hello".to_vec());
}

#[test]
fn alert_closes_the_connection() {
    let mut state = State::new(false);
    assert_eq!(send_alert(Some(&mut state.ex_data()), 40), 1);
    let error = state.local_error.as_ref().unwrap();
    assert!(!error.is_app);
    assert_eq!(error.error_code, 0x128);
    assert!(error.reason.is_empty());
    assert_eq!(send_alert(Some(&mut state.ex_data()), 0), 1);
    assert_eq!(state.local_error.as_ref().unwrap().error_code, 0x100);
}

#[test]
fn key_log_lines_are_ended() {
    let mut state = State::new(false);
    keylog(Some(&mut state.ex_data()), b"CLIENT_RANDOM 00");
    keylog(Some(&mut state.ex_data()), b"");
    assert_eq!(state.lines, b"CLIENT_RANDOM 00\n\n".to_vec());
    let mut ex_data = state.ex_data();
    ex_data.keylog = None;
    keylog(Some(&mut ex_data), b"dropped");
    assert_eq!(state.lines.len(), 18);
}

#[test]
fn first_offered_protocol_is_selected() {
    let mut state = State::new(true);
    assert_eq!(select_alpn(Some(&mut state.ex_data()), b"\x02h2\x0ahq-interop\x02h3", 3), (0, Some(1)));
    assert_eq!(select_alpn(Some(&mut state.ex_data()), b"\x02h3\x0ahq-interop", 3), (0, Some(0)));
    assert_eq!(select_alpn(Some(&mut state.ex_data()), b"\x02h2", 3), (3, None));
    assert_eq!(select_alpn(Some(&mut state.ex_data()), b"\x02h2", 2), (2, None));
    assert_eq!(select_alpn(Some(&mut state.ex_data()), b"", 3), (3, None));
    // A protocol that is cut short ends the offer.
    assert_eq!(select_alpn(Some(&mut state.ex_data()), b"\x09h3\x02h3", 3), (3, None));
    state.protos.clear();
    assert_eq!(select_alpn(Some(&mut state.ex_data()), b"\x02h3", 3), (3, None));
}

#[test]
fn session_is_stored_with_the_parameters_of_the_peer() {
    let mut state = State::new(false);
    assert_eq!(new_session(Some(&mut state.ex_data()), None, b"params"), 0);
    assert_eq!(state.session, None);
    assert_eq!(new_session(Some(&mut state.ex_data()), Some(b"abc"), b"params"), 0);
    assert_eq!(
        state.session,
        Some(b"\0\0\0\0\0\0\0\x03abc\0\0\0\0\0\0\0\x06params".to_vec()),
    );
}

#[test]
fn answers_of_the_stack() {
    assert_eq!(map_result(1), Ok(()));
    assert_eq!(map_result(0), Err(Error::TlsFail));
    assert_eq!(map_result(-1), Err(Error::TlsFail));
    assert_eq!(map_result_zero_is_success(0), Ok(()));
    assert_eq!(map_result_zero_is_success(1), Err(Error::TlsFail));
    assert_eq!(map_result_ptr(Some(&7)), Ok(&7));
    assert_eq!(map_result_ptr::<u8>(None), Err(Error::TlsFail));
}
