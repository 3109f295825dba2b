//! Calls to the TLS stack.
use quic_oack::ca_store::{load_ca_certs, StoreCall, StoreStep};
use quic_oack::error::{ConnectionError, Error};
use quic_oack::handshake::{Call, Context, Handshake, Step};
use quic_oack::packet::{Algorithm, Level};

/// The calls that an operation makes and what it returns, when they are answered in turn.
fn run<'a>(
    start: Step<'a>,
    answers: &[i32],
    local_error: &mut Option<ConnectionError>,
) -> (Vec<Call<'a>>, Result<(), Error>) {
    let mut calls = Vec::new();
    let mut step = start;
    for answer in answers {
        match step {
            Step::Call(call, pending) => {
                calls.push(call);
                step = pending.resume(*answer, local_error);
            }
            Step::Return(_) => break,
        }
    }
    match step {
        Step::Return(result) => (calls, result),
        Step::Call(call, _) => panic!("{call:?} has no answer"),
    }
}

/// Runs an operation that closes no connection.
fn simple<'a>(start: Step<'a>, answers: &[i32]) -> (Vec<Call<'a>>, Result<(), Error>) {
    let mut local_error = None;
    let ran = run(start, answers, &mut local_error);
    assert!(local_error.is_none());
    ran
}

#[test]
fn context_is_set_up() {
    let calls = vec![
        Call::SetSessionCacheMode(1),
        Call::SetNewSessionCallback,
        Call::LoadCaCerts,
    ];
    assert_eq!(simple(Context::new(), &[0, 0, 1]), (calls.clone(), Ok(())));
    assert_eq!(simple(Context::new(), &[1, 1, 0]), (calls, Err(Error::TlsFail)));
}

#[test]
fn files_are_named_without_zero_bytes() {
    let step = Context::load_verify_locations_from_file("ca.pem");
    assert_eq!(simple(step, &[1]), (vec![Call::LoadVerifyFile("ca.pem")], Ok(())));
    let step = Context::load_verify_locations_from_directory("certs");
    assert_eq!(simple(step, &[0]), (vec![Call::LoadVerifyDirectory("certs")], Err(Error::TlsFail)));
    let step = Context::use_certificate_chain_file("chain.pem");
    assert_eq!(simple(step, &[1]), (vec![Call::UseCertificateChainFile("chain.pem")], Ok(())));
    let step = Context::use_privkey_file("key.pem");
    assert_eq!(simple(step, &[1]), (vec![Call::UsePrivateKeyFile("key.pem", 1)], Ok(())));
    let step = Context::set_ticket_key(b"key");
    assert_eq!(simple(step, &[1]), (vec![Call::SetTicketKeys(b"key")], Ok(())));

    let refused = Step::Return(Err(Error::TlsFail));
    assert_eq!(Context::load_verify_locations_from_file("a\0b"), refused);
    assert_eq!(Context::load_verify_locations_from_directory("\0"), refused);
    assert_eq!(Context::use_certificate_chain_file("a\0"), refused);
    assert_eq!(Context::use_privkey_file("\0a"), refused);
    assert_eq!(Handshake::new().set_host_name("a\0b"), refused);
    assert_eq!(Context::set_verify(true), 1);
    assert_eq!(Context::set_verify(false), 0);
}

#[test]
fn protocols_are_offered() {
    let mut wire = vec![1, 2, 3];
    let calls = vec![Call::SetAlpnSelectCallback, Call::SetAlpnProtos(b"\x02h3\x01x")];
    let protos: [&[u8]; 2] = [b"h3", b"x"];
    assert_eq!(simple(Context::set_alpn(&protos, &mut wire), &[1, 0]), (calls.clone(), Ok(())));
    let failed = (calls, Err(Error::TlsFail));
    assert_eq!(simple(Context::set_alpn(&protos, &mut wire), &[0, 1]), failed);
    assert_eq!(wire, b"\x02h3\x01x".to_vec());
}

#[test]
fn handshake_is_set_up_for_tls_1_3() {
    let calls = vec![
        Call::SetConnectState,
        Call::SetMinProtoVersion(0x0304),
        Call::SetMaxProtoVersion(0x0304),
        Call::SetQuicMethod,
        Call::SetQuicEarlyDataContext("quiche"),
        Call::SetQuietShutdown(1),
    ];
    let answers = [0, 1, 1, 1, 1, 0];
    assert_eq!(simple(Handshake::new().init(false), &answers), (calls.clone(), Ok(())));
    let mut server = calls.clone();
    server[0] = Call::SetAcceptState;
    assert_eq!(simple(Handshake::new().init(true), &answers), (server, Ok(())));
    // The first refusal ends it.
    for refused in 1..5 {
        let mut answers = answers;
        answers[refused] = 0;
        let expected = (calls[..refused + 1].to_vec(), Err(Error::TlsFail));
        assert_eq!(simple(Handshake::new().init(false), &answers), expected);
    }
    assert_eq!(Handshake::new().set_state(true), Call::SetAcceptState);
    assert_eq!(Handshake::new().set_state(false), Call::SetConnectState);
}

#[test]
fn host_name_is_asked_for_and_checked() {
    let ask = Call::SetHostName("host");
    let check = Call::SetVerifyHost("host");
    let mut handshake = Handshake::new();
    assert_eq!(simple(handshake.set_host_name("host"), &[1, 1]), (vec![ask, check], Ok(())));
    let failed = (vec![ask, check], Err(Error::TlsFail));
    assert_eq!(simple(handshake.set_host_name("host"), &[1, 0]), failed);
    let failed = (vec![ask, Call::GetError(0)], Err(Error::TlsFail));
    assert_eq!(simple(handshake.set_host_name("host"), &[0, 5]), failed);
}

#[test]
fn errors_of_the_stack_are_final_or_not() {
    let mut handshake = Handshake::new();
    let params = Call::SetQuicTransportParams(b"p");
    assert_eq!(simple(handshake.set_quic_transport_params(b"p"), &[1]), (vec![params], Ok(())));
    for error in -1..20 {
        let step = handshake.set_quic_transport_params(b"p");
        let expected = match error {
            2 | 3 | 4 | 11 | 12 | 13 | 14 | 15 | 16 => Error::Done,
            _ => Error::TlsFail,
        };
        let mut calls = vec![params, Call::GetError(-1)];
        if error == 15 {
            calls.push(Call::ResetEarlyDataReject);
        }
        assert_eq!(simple(step, &[-1, error, 0]), (calls, Err(expected)));
    }
    assert_eq!(simple(handshake.clear(), &[1]), (vec![Call::Clear], Ok(())));
    let failed = (vec![Call::Clear, Call::GetError(0)], Err(Error::TlsFail));
    assert_eq!(simple(handshake.clear(), &[0, 1]), failed);
}

#[test]
fn handshake_goes_on_with_its_data() {
    let mut handshake = Handshake::new();
    let calls = vec![Call::SetExData, Call::DoHandshake, Call::ClearExData, Call::GetError(1)];
    assert_eq!(simple(handshake.do_handshake(), &[1, 1, 1, 0]), (calls, Ok(())));
    // It waits for more data.
    let calls = vec![
        Call::SetExData,
        Call::DoHandshake,
        Call::ClearExData,
        Call::GetError(-1),
        Call::GetError(-1),
    ];
    let waiting = (calls.clone(), Err(Error::Done));
    assert_eq!(simple(handshake.do_handshake(), &[1, -1, 1, 2, 2]), waiting);
    // The data cannot be set or cleared.
    let failed = (vec![Call::SetExData], Err(Error::TlsFail));
    assert_eq!(simple(handshake.do_handshake(), &[0]), failed);
    let failed = (calls[..3].to_vec(), Err(Error::TlsFail));
    assert_eq!(simple(handshake.do_handshake(), &[1, 1, 0]), failed);
}

#[test]
fn failure_for_good_closes_the_connection() {
    let mut handshake = Handshake::new();
    let mut local_error = None;
    let (_, result) = run(handshake.do_handshake(), &[1, -1, 1, 1, 1], &mut local_error);
    assert_eq!(result, Err(Error::TlsFail));
    let error = local_error.as_ref().unwrap();
    assert_eq!((error.is_app, error.error_code, error.reason.len()), (false, 1, 0));

    // What has closed the connection before remains the reason.
    let mut local_error =
        Some(ConnectionError { is_app: false, error_code: 0x128, reason: vec![1] });
    let (_, result) = run(handshake.do_handshake(), &[1, -1, 1, 1, 1], &mut local_error);
    assert_eq!(result, Err(Error::TlsFail));
    let error = local_error.as_ref().unwrap();
    assert_eq!((error.error_code, error.reason.as_slice()), (0x128, &[1u8][..]));
}

#[test]
fn provided_data_is_processed_at_most_once() {
    let mut handshake = Handshake::new();
    assert_eq!(handshake.process_post_handshake(), Step::Return(Ok(())));
    let step = handshake.provide_data(Level::OneRTT, b"data");
    let calls = vec![Call::ProvideQuicData(Level::OneRTT, b"data")];
    assert_eq!(simple(step, &[1]), (calls, Ok(())));
    let calls = vec![
        Call::SetExData,
        Call::ProcessQuicPostHandshake,
        Call::ClearExData,
        Call::GetError(1),
    ];
    assert_eq!(simple(handshake.process_post_handshake(), &[1, 1, 1, 0]), (calls, Ok(())));
    assert_eq!(handshake.process_post_handshake(), Step::Return(Ok(())));
    // Data that the stack has refused is outstanding too.
    let step = handshake.provide_data(Level::Handshake, b"data");
    assert_eq!(simple(step, &[0, 1]).1, Err(Error::TlsFail));
    assert!(matches!(handshake.process_post_handshake(), Step::Call(Call::SetExData, _)));
}

#[test]
fn state_of_a_handshake() {
    let mut handshake = Handshake::new();
    assert_eq!(handshake.set_quiet_shutdown(true), Call::SetQuietShutdown(1));
    assert_eq!(handshake.set_quiet_shutdown(false), Call::SetQuietShutdown(0));
    assert_eq!(handshake.use_legacy_codepoint(true), Call::UseLegacyCodepoint(1));
    assert_eq!(handshake.use_legacy_codepoint(false), Call::UseLegacyCodepoint(0));
    let min = vec![Call::SetMinProtoVersion(0x0303)];
    assert_eq!(simple(handshake.set_min_proto_version(0x0303), &[1]), (min, Ok(())));
    let max = vec![Call::SetMaxProtoVersion(0x0304)];
    let failed = (max, Err(Error::TlsFail));
    assert_eq!(simple(handshake.set_max_proto_version(0x0304), &[0]), failed);
    let method = vec![Call::SetQuicMethod];
    assert_eq!(simple(handshake.set_quic_method(), &[1]), (method, Ok(())));
    assert_eq!(handshake.server_name(None), None);
    assert_eq!(handshake.server_name(Some("h\u{f6}st".as_bytes())), Some("h\u{f6}st"));
    assert_eq!(handshake.server_name(Some(b"a\xff")), None);
    assert_eq!(handshake.cipher(None), None);
    assert_eq!(handshake.cipher(Some(7)), None);
    assert_eq!(handshake.cipher(Some(0x0300_1302)), Some(Algorithm::AES256_GCM));
    assert!(handshake.is_completed(0));
    assert!(!handshake.is_completed(1));
    assert!(handshake.is_resumed(1));
    assert!(!handshake.is_resumed(0));
    assert!(!handshake.is_resumed(2));
}

/// The calls that load the certificates of a system, and the result.
fn load(store: bool, context: bool, decodable: &[bool]) -> (Vec<StoreCall>, Result<(), Error>) {
    let mut calls = Vec::new();
    let mut next: usize = 0;
    let mut step = load_ca_certs();
    loop {
        match step {
            StoreStep::Call(call, loading) => {
                calls.push(call);
                let given = match call {
                    StoreCall::OpenSystemStore => store,
                    StoreCall::GetContextStore => context,
                    StoreCall::FirstCertificate => next < decodable.len(),
                    StoreCall::NextCertificate => {
                        next += 1;
                        next < decodable.len()
                    }
                    StoreCall::Decode => decodable[next],
                    _ => true,
                };
                step = loading.resume(given);
            }
            StoreStep::Return(result) => return (calls, result),
        }
    }
}

#[test]
fn decodable_certificates_are_loaded() {
    let (calls, result) = load(true, true, &[true, false]);
    assert_eq!(result, Ok(()));
    assert_eq!(
        calls,
        vec![
            StoreCall::OpenSystemStore,
            StoreCall::GetContextStore,
            StoreCall::FirstCertificate,
            StoreCall::Decode,
            StoreCall::AddDecoded,
            StoreCall::FreeDecoded,
            StoreCall::NextCertificate,
            StoreCall::Decode,
            StoreCall::FreeDecoded,
            StoreCall::NextCertificate,
            StoreCall::FreeCertificate,
            StoreCall::CloseSystemStore,
        ],
    );
    assert_eq!(load(true, true, &[]).1, Ok(()));
}

#[test]
fn missing_stores_fail_the_loading() {
    let failed = (vec![StoreCall::OpenSystemStore], Err(Error::TlsFail));
    assert_eq!(load(false, true, &[true]), failed);
    let calls = vec![StoreCall::OpenSystemStore, StoreCall::GetContextStore];
    assert_eq!(load(true, false, &[true]), (calls, Err(Error::TlsFail)));
}
