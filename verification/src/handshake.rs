//! What is asked of the TLS stack, call by call.
//!
//! An operation is a sequence of calls. Each call goes out as a [`Step::Call`], with what is
//! [`Pending`] behind it. The answer of the stack resumes the operation, until it returns.
use crate::alpn::{encode, encode_protos};
use crate::error::{ConnectionError, ConnectionErrorView, Error};
use crate::packet::{Algorithm, Level};
use crate::text::from_utf8;
use crate::tls::{algorithm, get_cipher, map_result, map_result_zero_is_success};
use vstd::prelude::*;

verus! {

/// The version number of TLS 1.3.
pub const TLS1_3_VERSION: u16 = 0x0304;

/// The error code of an internal error.
pub const INTERNAL_ERROR: u64 = 0x01;

/// The session cache mode that lets a client have its sessions handed over.
pub const SESS_CACHE_CLIENT: i32 = 0x0001;

/// The format of a private key file.
pub const FILETYPE_PEM: i32 = 1;

/// What the stack answers when a handshake has failed for good.
pub const SSL_ERROR_SSL: i32 = 1;

/// What the stack answers when early data has been rejected.
pub const SSL_ERROR_EARLY_DATA_REJECTED: i32 = 15;

/// A call to the TLS stack.
#[derive(Clone, Copy, Debug, PartialEq, Eq)]
pub enum Call<'a> {
    SetSessionCacheMode(i32),
    SetNewSessionCallback,
    LoadCaCerts,
    LoadVerifyFile(&'a str),
    LoadVerifyDirectory(&'a str),
    UseCertificateChainFile(&'a str),
    UsePrivateKeyFile(&'a str, i32),
    SetTicketKeys(&'a [u8]),
    SetAlpnSelectCallback,
    SetAlpnProtos(&'a [u8]),
    SetAcceptState,
    SetConnectState,
    SetMinProtoVersion(u16),
    SetMaxProtoVersion(u16),
    SetQuicMethod,
    SetQuicEarlyDataContext(&'a str),
    SetQuietShutdown(i32),
    UseLegacyCodepoint(i32),
    SetHostName(&'a str),
    SetVerifyHost(&'a str),
    SetQuicTransportParams(&'a [u8]),
    ProvideQuicData(Level, &'a [u8]),
    Clear,
    SetExData,
    ClearExData,
    DoHandshake,
    ProcessQuicPostHandshake,
    GetError(i32),
    ResetEarlyDataReject,
}

/// What an operation does with the answer to its last call.
#[derive(Clone, Copy, Debug, PartialEq, Eq)]
pub enum Pending<'a> {
    /// The session cache mode has been set.
    ContextCacheMode,

    /// The session callback has been set.
    ContextCallback,

    /// The answer decides.
    Checked,

    /// The callback that selects a protocol has been set. These protocols are offered.
    AlpnCallback(&'a [u8]),

    /// The answer decides, and is 0 on success.
    ZeroChecked,

    /// The answer decides, and the stack is asked for the error if there is one.
    Mapped,

    /// The stack has been asked for the error.
    Error,

    /// The role has been set.
    InitState,

    /// The lowest version has been set.
    InitMinVersion,

    /// The highest version has been set.
    InitMaxVersion,

    /// The methods for QUIC have been set.
    InitQuicMethod,

    /// The context for early data has been set.
    InitEarlyData,

    /// Nothing is left to do but to return this.
    Ended(Result<(), Error>),

    /// The host name to ask for has been set.
    HostName(&'a str),

    /// The data for the callbacks has been set. The handshake goes on with this call.
    ExDataSet(Drive),

    /// The handshake has gone on.
    Driven,

    /// The data for the callbacks has been cleared, after the handshake went on with this answer.
    ExDataCleared(i32),

    /// The stack has been asked whether the handshake failed, after it went on with this answer.
    Failed(i32),
}

/// How a handshake goes on.
#[derive(Clone, Copy, Debug, PartialEq, Eq, Structural)]
pub enum Drive {
    /// Towards its completion.
    Handshake,

    /// After its completion.
    PostHandshake,
}

/// The next thing that an operation does.
#[derive(Clone, Copy, Debug, PartialEq, Eq)]
pub enum Step<'a> {
    /// A call goes out. Its answer resumes what is pending.
    Call(Call<'a>, Pending<'a>),

    /// The operation returns.
    Return(Result<(), Error>),
}

/// What an error of the stack means: the ones that go away when the handshake is taken up again
/// later are no failures.
pub open spec fn ssl_error(error: i32) -> Error {
    if 2 <= error <= 4 || 11 <= error <= 16 {
        Error::Done
    } else {
        Error::TlsFail
    }
}

/// The step after an answer that is 1 on success: otherwise the stack is asked for the error.
pub open spec fn mapped<'a>(answer: i32) -> Step<'a> {
    if answer == 1 {
        Step::Return(Ok(()))
    } else {
        Step::Call(Call::GetError(answer), Pending::Error)
    }
}

/// Goes on with the next call, if the answer to the last one was 1.
pub open spec fn on_success<'a>(answer: i32, call: Call<'a>, pending: Pending<'a>) -> Step<'a> {
    if answer == 1 {
        Step::Call(call, pending)
    } else {
        Step::Return(Err(Error::TlsFail))
    }
}

impl<'a> Pending<'a> {
    /// The step that follows the answer to the last call.
    pub open spec fn after(self, answer: i32) -> Step<'a> {
        match self {
            Pending::ContextCacheMode => Step::Call(
                Call::SetNewSessionCallback,
                Pending::ContextCallback,
            ),
            Pending::ContextCallback => Step::Call(Call::LoadCaCerts, Pending::Checked),
            Pending::Checked => Step::Return(
                if answer == 1 {
                    Ok(())
                } else {
                    Err(Error::TlsFail)
                },
            ),
            Pending::AlpnCallback(wire) => Step::Call(
                Call::SetAlpnProtos(wire),
                Pending::ZeroChecked,
            ),
            Pending::ZeroChecked => Step::Return(
                if answer == 0 {
                    Ok(())
                } else {
                    Err(Error::TlsFail)
                },
            ),
            Pending::Mapped => mapped(answer),
            Pending::Error => if answer == SSL_ERROR_EARLY_DATA_REJECTED {
                Step::Call(Call::ResetEarlyDataReject, Pending::Ended(Err(ssl_error(answer))))
            } else {
                Step::Return(Err(ssl_error(answer)))
            },
            Pending::InitState => Step::Call(
                Call::SetMinProtoVersion(TLS1_3_VERSION),
                Pending::InitMinVersion,
            ),
            Pending::InitMinVersion => on_success(
                answer,
                Call::SetMaxProtoVersion(TLS1_3_VERSION),
                Pending::InitMaxVersion,
            ),
            Pending::InitMaxVersion => on_success(
                answer,
                Call::SetQuicMethod,
                Pending::InitQuicMethod,
            ),
            Pending::InitQuicMethod => on_success(
                answer,
                Call::SetQuicEarlyDataContext("quiche"),
                Pending::InitEarlyData,
            ),
            Pending::InitEarlyData => on_success(
                answer,
                Call::SetQuietShutdown(1),
                Pending::Ended(Ok(())),
            ),
            Pending::Ended(result) => Step::Return(result),
            Pending::HostName(name) => if answer == 1 {
                Step::Call(Call::SetVerifyHost(name), Pending::Checked)
            } else {
                mapped(answer)
            },
            Pending::ExDataSet(drive) => on_success(
                answer,
                match drive {
                    Drive::Handshake => Call::DoHandshake,
                    Drive::PostHandshake => Call::ProcessQuicPostHandshake,
                },
                Pending::Driven,
            ),
            Pending::Driven => Step::Call(Call::ClearExData, Pending::ExDataCleared(answer)),
            Pending::ExDataCleared(driven) => on_success(
                answer,
                Call::GetError(driven),
                Pending::Failed(driven),
            ),
            Pending::Failed(driven) => mapped(driven),
        }
    }

    /// Why the connection is closed after the answer to the last call: a handshake that has failed
    /// for good closes it, unless it is closed already.
    pub open spec fn error_after(
        self,
        answer: i32,
        local_error: Option<ConnectionErrorView>,
    ) -> Option<ConnectionErrorView> {
        if self is Failed && answer == SSL_ERROR_SSL && local_error is None {
            Some(
                ConnectionErrorView {
                    is_app: false,
                    error_code: INTERNAL_ERROR,
                    reason: Seq::empty(),
                },
            )
        } else {
            local_error
        }
    }

    /// Resumes the operation with the answer to its last call.
    pub fn resume(self, answer: i32, local_error: &mut Option<ConnectionError>) -> (step: Step<'a>)
        ensures
            step == self.after(answer),
            error_view(*final(local_error)) == self.error_after(
                answer,
                error_view(*old(local_error)),
            ),
    {
        match self {
            Pending::ContextCacheMode => Step::Call(
                Call::SetNewSessionCallback,
                Pending::ContextCallback,
            ),
            Pending::ContextCallback => Step::Call(Call::LoadCaCerts, Pending::Checked),
            Pending::Checked => Step::Return(map_result(answer)),
            Pending::AlpnCallback(wire) => Step::Call(
                Call::SetAlpnProtos(wire),
                Pending::ZeroChecked,
            ),
            Pending::ZeroChecked => Step::Return(map_result_zero_is_success(answer)),
            Pending::Mapped => map_result_ssl(answer),
            Pending::Error => map_error(answer),
            Pending::InitState => Step::Call(
                Call::SetMinProtoVersion(TLS1_3_VERSION),
                Pending::InitMinVersion,
            ),
            Pending::InitMinVersion => call_on_success(
                answer,
                Call::SetMaxProtoVersion(TLS1_3_VERSION),
                Pending::InitMaxVersion,
            ),
            Pending::InitMaxVersion => call_on_success(
                answer,
                Call::SetQuicMethod,
                Pending::InitQuicMethod,
            ),
            Pending::InitQuicMethod => call_on_success(
                answer,
                Call::SetQuicEarlyDataContext("quiche"),
                Pending::InitEarlyData,
            ),
            Pending::InitEarlyData => call_on_success(
                answer,
                Call::SetQuietShutdown(1),
                Pending::Ended(Ok(())),
            ),
            Pending::Ended(result) => Step::Return(result),
            Pending::HostName(name) => if answer == 1 {
                Step::Call(Call::SetVerifyHost(name), Pending::Checked)
            } else {
                map_result_ssl(answer)
            },
            Pending::ExDataSet(Drive::Handshake) => call_on_success(
                answer,
                Call::DoHandshake,
                Pending::Driven,
            ),
            Pending::ExDataSet(Drive::PostHandshake) => call_on_success(
                answer,
                Call::ProcessQuicPostHandshake,
                Pending::Driven,
            ),
            Pending::Driven => Step::Call(Call::ClearExData, Pending::ExDataCleared(answer)),
            Pending::ExDataCleared(driven) => call_on_success(
                answer,
                Call::GetError(driven),
                Pending::Failed(driven),
            ),
            Pending::Failed(driven) => {
                set_transport_error(local_error, answer);
                map_result_ssl(driven)
            },
        }
    }
}

/// Why a connection is closed.
pub open spec fn error_view(local_error: Option<ConnectionError>) -> Option<ConnectionErrorView> {
    match local_error {
        Some(error) => Some(error@),
        None => None,
    }
}

/// Goes on with `call`, if the answer to the last call was 1.
fn call_on_success<'a>(answer: i32, call: Call<'a>, pending: Pending<'a>) -> (step: Step<'a>)
    ensures
        step == on_success(answer, call, pending),
{
    match map_result(answer) {
        Ok(_) => Step::Call(call, pending),
        Err(error) => Step::Return(Err(error)),
    }
}

/// Reads the answer to a call that is 1 on success, and asks the stack for the error otherwise.
fn map_result_ssl<'a>(answer: i32) -> (step: Step<'a>)
    ensures
        step == mapped::<'a>(answer),
{
    match answer {
        1 => Step::Return(Ok(())),
        _ => Step::Call(Call::GetError(answer), Pending::Error),
    }
}

/// Reads the error that the stack has been asked for.
fn map_error<'a>(error: i32) -> (step: Step<'a>)
    ensures
        step == Pending::<'a>::Error.after(error),
{
    match error {
        // SSL_ERROR_SSL
        1 => Step::Return(Err(Error::TlsFail)),
        // SSL_ERROR_WANT_READ
        2 => Step::Return(Err(Error::Done)),
        // SSL_ERROR_WANT_WRITE
        3 => Step::Return(Err(Error::Done)),
        // SSL_ERROR_WANT_X509_LOOKUP
        4 => Step::Return(Err(Error::Done)),
        // SSL_ERROR_SYSCALL
        5 => Step::Return(Err(Error::TlsFail)),
        // SSL_ERROR_PENDING_SESSION
        11 => Step::Return(Err(Error::Done)),
        // SSL_ERROR_PENDING_CERTIFICATE
        12 => Step::Return(Err(Error::Done)),
        // SSL_ERROR_WANT_PRIVATE_KEY_OPERATION
        13 => Step::Return(Err(Error::Done)),
        // SSL_ERROR_PENDING_TICKET
        14 => Step::Return(Err(Error::Done)),
        // SSL_ERROR_EARLY_DATA_REJECTED
        15 => Step::Call(Call::ResetEarlyDataReject, Pending::Ended(Err(Error::Done))),
        // SSL_ERROR_WANT_CERTIFICATE_VERIFY
        16 => Step::Return(Err(Error::Done)),
        _ => Step::Return(Err(Error::TlsFail)),
    }
}

/// A handshake that has failed for good cannot be recovered: makes sure that the connection is
/// closed.
fn set_transport_error(local_error: &mut Option<ConnectionError>, error: i32)
    ensures
        error_view(*final(local_error)) == Pending::Failed(0).error_after(
            error,
            error_view(*old(local_error)),
        ),
{
    if error == SSL_ERROR_SSL && local_error.is_none() {
        *local_error = Some(
            ConnectionError { is_app: false, error_code: INTERNAL_ERROR, reason: Vec::new() },
        );
    }
}

/// The name contains a zero byte, so it cannot be handed to the stack.
pub open spec fn has_nul(name: Seq<char>) -> bool {
    vstd::utf8::encode_utf8(name).contains(0)
}

/// Whether the name contains a zero byte.
fn contains_nul(name: &str) -> (found: bool)
    ensures
        found == has_nul(name@),
{
    let bytes = name.as_bytes();
    let mut i: usize = 0;
    while i < bytes.len()
        invariant
            i <= bytes@.len(),
            bytes@ == vstd::utf8::encode_utf8(name@),
            forall|j: int| 0 <= j < i ==> bytes@[j] != 0,
        decreases bytes@.len() - i,
    {
        if bytes[i] == 0 {
            assert(bytes@[i as int] == 0);
            return true;
        }
        i = i + 1;
    }
    false
}

/// The call with a name, if the stack can be handed the name.
pub open spec fn named<'a>(name: &'a str, call: Call<'a>, pending: Pending<'a>) -> Step<'a> {
    if has_nul(name@) {
        Step::Return(Err(Error::TlsFail))
    } else {
        Step::Call(call, pending)
    }
}

/// Makes the call with a name, if the stack can be handed the name.
fn call_with_name<'a>(name: &'a str, call: Call<'a>, pending: Pending<'a>) -> (step: Step<'a>)
    ensures
        step == named(name, call, pending),
{
    if contains_nul(name) {
        Step::Return(Err(Error::TlsFail))
    } else {
        Step::Call(call, pending)
    }
}

/// The configuration of the TLS stack.
pub struct Context;

impl Context {
    /// Sets up a context: enables the session callback, and loads the certificates of the system.
    pub fn new() -> (step: Step<'static>)
        ensures
            step == Step::Call(
                Call::SetSessionCacheMode(SESS_CACHE_CLIENT),
                Pending::ContextCacheMode,
            ),
    {
        Step::Call(Call::SetSessionCacheMode(SESS_CACHE_CLIENT), Pending::ContextCacheMode)
    }

    /// Trusts the certificates in a file.
    pub fn load_verify_locations_from_file<'a>(file: &'a str) -> (step: Step<'a>)
        ensures
            step == named(file, Call::LoadVerifyFile(file), Pending::Checked),
    {
        call_with_name(file, Call::LoadVerifyFile(file), Pending::Checked)
    }

    /// Trusts the certificates in a directory.
    pub fn load_verify_locations_from_directory<'a>(path: &'a str) -> (step: Step<'a>)
        ensures
            step == named(path, Call::LoadVerifyDirectory(path), Pending::Checked),
    {
        call_with_name(path, Call::LoadVerifyDirectory(path), Pending::Checked)
    }

    /// Presents the certificates in a file.
    pub fn use_certificate_chain_file<'a>(file: &'a str) -> (step: Step<'a>)
        ensures
            step == named(file, Call::UseCertificateChainFile(file), Pending::Checked),
    {
        call_with_name(file, Call::UseCertificateChainFile(file), Pending::Checked)
    }

    /// Uses the private key in a file.
    pub fn use_privkey_file<'a>(file: &'a str) -> (step: Step<'a>)
        ensures
            step == named(file, Call::UsePrivateKeyFile(file, FILETYPE_PEM), Pending::Checked),
    {
        call_with_name(file, Call::UsePrivateKeyFile(file, FILETYPE_PEM), Pending::Checked)
    }

    /// Sets the key that protects session tickets.
    pub fn set_ticket_key<'a>(key: &'a [u8]) -> (step: Step<'a>)
        ensures
            step == Step::Call(Call::SetTicketKeys(key), Pending::Checked),
    {
        Step::Call(Call::SetTicketKeys(key), Pending::Checked)
    }

    /// Supports the protocols `v`: a server selects among them, and a client offers them. They are
    /// written to `wire` for that.
    pub fn set_alpn<'a>(v: &[&[u8]], wire: &'a mut Vec<u8>) -> (step: Step<'a>)
        ensures
            final(wire)@ == encode(v@.map_values(|proto: &[u8]| proto@)),
            step matches Step::Call(call, Pending::AlpnCallback(protos)) && call
                == Call::SetAlpnSelectCallback && protos@ == final(wire)@,
    {
        *wire = encode_protos(v);
        Step::Call(Call::SetAlpnSelectCallback, Pending::AlpnCallback(wire.as_slice()))
    }

    /// The mode in which the stack verifies the peer: 1 if it does, 0 if it does not.
    pub fn set_verify(verify: bool) -> (mode: i32)
        ensures
            mode == if verify {
                1
            } else {
                0int
            },
    {
        if verify {
            1
        } else {
            0
        }
    }
}

/// The handshake of a connection.
pub struct Handshake {
    /// Whether data has been provided to the stack that it has not been asked to process since.
    pub provided_data_outstanding: bool,
}

impl Handshake {
    /// The handshake once data has been provided.
    pub open spec fn after_providing(self) -> Handshake {
        Handshake { provided_data_outstanding: true }
    }

    /// The handshake once the stack has been asked to process what has been provided.
    pub open spec fn after_processing(self) -> Handshake {
        Handshake { provided_data_outstanding: false }
    }

    /// What there is to do about the data that has been provided: nothing if that is none.
    pub open spec fn processing(self) -> Step<'static> {
        if self.provided_data_outstanding {
            Step::Call(Call::SetExData, Pending::ExDataSet(Drive::PostHandshake))
        } else {
            Step::Return(Ok(()))
        }
    }

    /// A handshake that has not begun.
    pub fn new() -> (handshake: Handshake)
        ensures
            !handshake.provided_data_outstanding,
    {
        Handshake { provided_data_outstanding: false }
    }

    /// Sets up the handshake of a server or a client, for TLS 1.3 over QUIC.
    pub fn init(&mut self, is_server: bool) -> (step: Step<'static>)
        ensures
            *final(self) == *old(self),
            step == Step::Call(
                if is_server {
                    Call::SetAcceptState
                } else {
                    Call::SetConnectState
                },
                Pending::InitState,
            ),
    {
        Step::Call(self.set_state(is_server), Pending::InitState)
    }

    /// The call that sets the role.
    pub fn set_state(&mut self, is_server: bool) -> (call: Call<'static>)
        ensures
            *final(self) == *old(self),
            call == if is_server {
                Call::SetAcceptState
            } else {
                Call::SetConnectState
            },
    {
        if is_server {
            Call::SetAcceptState
        } else {
            Call::SetConnectState
        }
    }

    /// Registers the callbacks for QUIC.
    pub fn set_quic_method(&mut self) -> (step: Step<'static>)
        ensures
            *final(self) == *old(self),
            step == Step::Call(Call::SetQuicMethod, Pending::Checked),
    {
        Step::Call(Call::SetQuicMethod, Pending::Checked)
    }

    /// Sets the lowest version of TLS that is spoken.
    pub fn set_min_proto_version(&mut self, version: u16) -> (step: Step<'static>)
        ensures
            *final(self) == *old(self),
            step == Step::Call(Call::SetMinProtoVersion(version), Pending::Checked),
    {
        Step::Call(Call::SetMinProtoVersion(version), Pending::Checked)
    }

    /// Sets the highest version of TLS that is spoken.
    pub fn set_max_proto_version(&mut self, version: u16) -> (step: Step<'static>)
        ensures
            *final(self) == *old(self),
            step == Step::Call(Call::SetMaxProtoVersion(version), Pending::Checked),
    {
        Step::Call(Call::SetMaxProtoVersion(version), Pending::Checked)
    }

    /// The call that has the stack shut down quietly or not.
    pub fn set_quiet_shutdown(&mut self, mode: bool) -> (call: Call<'static>)
        ensures
            *final(self) == *old(self),
            call == Call::SetQuietShutdown(
                if mode {
                    1
                } else {
                    0
                },
            ),
    {
        Call::SetQuietShutdown(
            if mode {
                1
            } else {
                0
            },
        )
    }

    /// The call that has the stack use the codepoint of the drafts of QUIC or not.
    pub fn use_legacy_codepoint(&mut self, use_legacy: bool) -> (call: Call<'static>)
        ensures
            *final(self) == *old(self),
            call == Call::UseLegacyCodepoint(
                if use_legacy {
                    1
                } else {
                    0
                },
            ),
    {
        Call::UseLegacyCodepoint(
            if use_legacy {
                1
            } else {
                0
            },
        )
    }

    /// Asks the server for the host `name`, and checks its certificate against it.
    pub fn set_host_name<'a>(&mut self, name: &'a str) -> (step: Step<'a>)
        ensures
            *final(self) == *old(self),
            step == named(name, Call::SetHostName(name), Pending::HostName(name)),
    {
        call_with_name(name, Call::SetHostName(name), Pending::HostName(name))
    }

    /// Sets the transport parameters that are sent to the peer.
    pub fn set_quic_transport_params<'a>(&mut self, buf: &'a [u8]) -> (step: Step<'a>)
        ensures
            *final(self) == *old(self),
            step == Step::Call(Call::SetQuicTransportParams(buf), Pending::Mapped),
    {
        Step::Call(Call::SetQuicTransportParams(buf), Pending::Mapped)
    }

    /// Provides data received at `level` to the stack.
    pub fn provide_data<'a>(&mut self, level: Level, buf: &'a [u8]) -> (step: Step<'a>)
        ensures
            *final(self) == old(self).after_providing(),
            step == Step::Call(Call::ProvideQuicData(level, buf), Pending::Mapped),
    {
        self.provided_data_outstanding = true;
        Step::Call(Call::ProvideQuicData(level, buf), Pending::Mapped)
    }

    /// Takes the handshake up again.
    pub fn do_handshake(&mut self) -> (step: Step<'static>)
        ensures
            *final(self) == *old(self),
            step == Step::Call(Call::SetExData, Pending::ExDataSet(Drive::Handshake)),
    {
        Step::Call(Call::SetExData, Pending::ExDataSet(Drive::Handshake))
    }

    /// Lets the stack process what has been provided to it since the last time. There is nothing to
    /// do if that is nothing.
    pub fn process_post_handshake(&mut self) -> (step: Step<'static>)
        ensures
            *final(self) == old(self).after_processing(),
            step == old(self).processing(),
    {
        if !self.provided_data_outstanding {
            return Step::Return(Ok(()));
        }
        self.provided_data_outstanding = false;
        Step::Call(Call::SetExData, Pending::ExDataSet(Drive::PostHandshake))
    }

    /// Resets the stack.
    pub fn clear(&mut self) -> (step: Step<'static>)
        ensures
            *final(self) == *old(self),
            step == Step::Call(Call::Clear, Pending::Mapped),
    {
        Step::Call(Call::Clear, Pending::Mapped)
    }

    /// The name that the client has asked for, when the stack answers `name` to what it is: `None` if
    /// there is none, or if it is no text.
    pub fn server_name<'a>(&self, name: Option<&'a [u8]>) -> (text: Option<&'a str>)
        ensures
            match text {
                Some(text) => name matches Some(name) && vstd::utf8::valid_utf8(name@) && text@
                    == vstd::utf8::decode_utf8(name@),
                None => name matches Some(name) ==> !vstd::utf8::valid_utf8(name@),
            },
    {
        match name {
            Some(name) => from_utf8(name),
            None => None,
        }
    }

    /// The algorithm in use, if there is a cipher suite and it is known.
    pub fn cipher(&self, cipher_id: Option<u32>) -> (alg: Option<Algorithm>)
        ensures
            alg == match cipher_id {
                Some(id) => algorithm(id),
                None => None,
            },
    {
        match cipher_id {
            Some(id) => match get_cipher(id) {
                Ok(alg) => Some(alg),
                Err(_) => None,
            },
            None => None,
        }
    }

    /// Whether the handshake is completed, when the stack answers `in_init` to whether it is still
    /// going on.
    pub fn is_completed(&self, in_init: i32) -> (completed: bool)
        ensures
            completed == (in_init == 0),
    {
        in_init == 0
    }

    /// Whether the session is resumed, when the stack answers `reused` to whether it is.
    pub fn is_resumed(&self, reused: i32) -> (resumed: bool)
        ensures
            resumed == (reused == 1),
    {
        reused == 1
    }
}

} // verus!
