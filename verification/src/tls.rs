//! What a connection does when the TLS stack calls back, and how the answers of the stack are read.
use crate::alpn::{contents, decode, select, select_proto};
use crate::error::{ConnectionError, ConnectionErrorView, Error};
use crate::packet::{
    epoch_of, Algorithm, KeyView, Level, Open, PktNumSpaces, Seal, SpaceView, SpacesView,
};
use crate::session::{store_session, stored_session};
use vstd::prelude::*;

verus! {

/// The error code of the TLS alert number 0.
pub const TLS_ALERT_ERROR: u64 = 0x100;

/// The status of a callback that has done its work.
pub const SUCCESS: i32 = 1;

/// The status of a callback that has failed.
pub const FAILURE: i32 = 0;

/// The status of a protocol selection that has found a protocol.
pub const ALPN_SELECTED: i32 = 0;

/// The byte that ends a line of the key log.
pub const LINE_FEED: u8 = 10;

/// What the callbacks of the TLS stack may read and change.
pub struct ExData<'a> {
    /// The application protocols that are supported.
    pub application_protos: &'a Vec<Vec<u8>>,

    /// The packet number spaces of the connection.
    pub pkt_num_spaces: &'a mut PktNumSpaces,

    /// The session, once there is one.
    pub session: &'a mut Option<Vec<u8>>,

    /// Why the connection is closed, once it is.
    pub local_error: &'a mut Option<ConnectionError>,

    /// The key log lines that wait to be written, if keys are logged.
    pub keylog: Option<&'a mut Vec<u8>>,

    /// The identifier of the connection in the logs.
    pub trace_id: &'a str,

    /// Whether this is the server.
    pub is_server: bool,
}

/// The mathematical content of an [`ExData`].
#[verifier::ext_equal]
pub ghost struct ExDataView {
    pub application_protos: Seq<Seq<u8>>,
    pub pkt_num_spaces: SpacesView,
    pub session: Option<Seq<u8>>,
    pub local_error: Option<ConnectionErrorView>,
    pub keylog: Option<Seq<u8>>,
    pub trace_id: Seq<char>,
    pub is_server: bool,
}

impl<'a> View for ExData<'a> {
    type V = ExDataView;

    open spec fn view(&self) -> ExDataView {
        ExDataView {
            application_protos: contents(self.application_protos@),
            pkt_num_spaces: self.pkt_num_spaces@,
            session: match *self.session {
                Some(session) => Some(session@),
                None => None,
            },
            local_error: match *self.local_error {
                Some(error) => Some(error@),
                None => None,
            },
            keylog: match self.keylog {
                Some(keylog) => Some(keylog@),
                None => None,
            },
            trace_id: self.trace_id@,
            is_server: self.is_server,
        }
    }
}

/// The algorithm of a cipher suite.
pub open spec fn algorithm(cipher_id: u32) -> Option<Algorithm> {
    if cipher_id == 0x0300_1301 {
        Some(Algorithm::AES128_GCM)
    } else if cipher_id == 0x0300_1302 {
        Some(Algorithm::AES256_GCM)
    } else if cipher_id == 0x0300_1303 {
        Some(Algorithm::ChaCha20_Poly1305)
    } else {
        None
    }
}

/// The algorithm of the cipher suite with the identifier `cipher_id`.
pub fn get_cipher(cipher_id: u32) -> (found: Result<Algorithm, Error>)
    ensures
        found == match algorithm(cipher_id) {
            Some(alg) => Ok(alg),
            None => Err(Error::TlsFail),
        },
{
    match cipher_id {
        0x0300_1301 => Ok(Algorithm::AES128_GCM),
        0x0300_1302 => Ok(Algorithm::AES256_GCM),
        0x0300_1303 => Ok(Algorithm::ChaCha20_Poly1305),
        _ => Err(Error::TlsFail),
    }
}

impl ExDataView {
    /// A secret of `level` is of no use here: 0-RTT packets are sent by the client, and received by
    /// the server.
    pub open spec fn idle_secret(self, level: Level, to_read: bool) -> bool {
        level == Level::ZeroRTT && self.is_server != to_read
    }

    /// The status of a callback that hands over a secret. It fails if the cipher suite is unknown,
    /// or if no keys can be derived from a secret that is of use.
    pub open spec fn secret_status(
        self,
        level: Level,
        to_read: bool,
        cipher_id: u32,
        derivable: bool,
    ) -> i32 {
        if algorithm(cipher_id) is Some && (self.idle_secret(level, to_read) || derivable) {
            SUCCESS
        } else {
            FAILURE
        }
    }

    /// What is left of the callback that hands over a secret to open packets with.
    pub open spec fn after_read_secret(
        self,
        level: Level,
        cipher_id: u32,
        secret: Seq<u8>,
        derivable: bool,
    ) -> ExDataView {
        if algorithm(cipher_id) is Some && !self.idle_secret(level, true) && derivable {
            let key = KeyView { alg: algorithm(cipher_id)->0, secret };
            let space = self.pkt_num_spaces.get(epoch_of(level));
            self.with_space(
                level,
                if level == Level::ZeroRTT {
                    SpaceView { crypto_0rtt_open: Some(key), ..space }
                } else {
                    SpaceView { crypto_open: Some(key), ..space }
                },
            )
        } else {
            self
        }
    }

    /// What is left of the callback that hands over a secret to seal packets with.
    pub open spec fn after_write_secret(
        self,
        level: Level,
        cipher_id: u32,
        secret: Seq<u8>,
        derivable: bool,
    ) -> ExDataView {
        if algorithm(cipher_id) is Some && !self.idle_secret(level, false) && derivable {
            let key = KeyView { alg: algorithm(cipher_id)->0, secret };
            let space = self.pkt_num_spaces.get(epoch_of(level));
            self.with_space(level, SpaceView { crypto_seal: Some(key), ..space })
        } else {
            self
        }
    }

    /// The status of the callback that hands over handshake data. It fails if the handshake data of
    /// the level is finished.
    pub open spec fn handshake_data_status(self, level: Level) -> i32 {
        if self.pkt_num_spaces.get(epoch_of(level)).crypto_fin {
            FAILURE
        } else {
            SUCCESS
        }
    }

    /// What is left of the callback that hands over handshake data.
    pub open spec fn after_handshake_data(self, level: Level, data: Seq<u8>) -> ExDataView {
        let space = self.pkt_num_spaces.get(epoch_of(level));
        if space.crypto_fin {
            self
        } else {
            self.with_space(
                level,
                SpaceView { crypto_data: space.crypto_data + data, ..space },
            )
        }
    }

    /// What is left of the callback that asks to send an alert.
    pub open spec fn after_alert(self, alert: u8) -> ExDataView {
        ExDataView {
            local_error: Some(
                ConnectionErrorView {
                    is_app: false,
                    error_code: (TLS_ALERT_ERROR + alert) as u64,
                    reason: Seq::empty(),
                },
            ),
            ..self
        }
    }

    /// What is left of the callback that hands over a line of the key log.
    pub open spec fn after_keylog(self, line: Seq<u8>) -> ExDataView {
        ExDataView {
            keylog: match self.keylog {
                Some(pending) => Some((pending + line).push(LINE_FEED)),
                None => None,
            },
            ..self
        }
    }

    /// What is left of the callback that hands over a session whose ticket is `ticket`, if it could
    /// be serialized.
    pub open spec fn after_session(
        self,
        ticket: Option<Seq<u8>>,
        peer_params: Seq<u8>,
    ) -> ExDataView {
        match ticket {
            Some(ticket) => ExDataView {
                session: Some(stored_session(ticket, peer_params)),
                ..self
            },
            None => self,
        }
    }

    /// With the space of an encryption level replaced.
    pub open spec fn with_space(self, level: Level, space: SpaceView) -> ExDataView {
        ExDataView { pkt_num_spaces: self.pkt_num_spaces.set(epoch_of(level), space), ..self }
    }
}

/// A copy of `bytes`.
fn to_vec(bytes: &[u8]) -> (copy: Vec<u8>)
    ensures
        copy@ == bytes@,
{
    let mut copy: Vec<u8> = Vec::new();
    copy.extend_from_slice(bytes);
    assert(copy@ =~= bytes@);
    copy
}

/// The TLS stack hands over the secret to open the packets of `level` with. `derivable` says
/// whether keys can be derived from it.
pub fn set_read_secret(
    ex_data: Option<&mut ExData<'_>>,
    level: Level,
    cipher_id: u32,
    secret: &[u8],
    derivable: bool,
) -> (status: i32)
    ensures
        match ex_data {
            Some(ex) => {
                &&& status == ex@.secret_status(level, true, cipher_id, derivable)
                &&& final(ex)@ == ex@.after_read_secret(level, cipher_id, secret@, derivable)
                &&& *final(final(ex).pkt_num_spaces) == *final(ex.pkt_num_spaces)
                &&& *final(final(ex).session) == *final(ex.session)
                &&& *final(final(ex).local_error) == *final(ex.local_error)
                &&& match (final(ex).keylog, ex.keylog) {
                    (Some(after), Some(before)) => *final(after) == *final(before),
                    (None, None) => true,
                    _ => false,
                }
            },
            None => status == FAILURE,
        },
{
    let ex = match ex_data {
        Some(ex) => ex,
        None => {
            return FAILURE;
        },
    };
    let alg = match get_cipher(cipher_id) {
        Ok(alg) => alg,
        Err(_) => {
            return FAILURE;
        },
    };
    // 0-RTT read secrets are present only on the server.
    if level != Level::ZeroRTT || ex.is_server {
        if !derivable {
            return FAILURE;
        }
        let open = Open { alg, secret: to_vec(secret) };
        let space = ex.pkt_num_spaces.get_mut(level.epoch());
        if level == Level::ZeroRTT {
            space.crypto_0rtt_open = Some(open);
        } else {
            space.crypto_open = Some(open);
        }
    }
    SUCCESS
}

/// The TLS stack hands over the secret to seal the packets of `level` with. `derivable` says
/// whether keys can be derived from it.
pub fn set_write_secret(
    ex_data: Option<&mut ExData<'_>>,
    level: Level,
    cipher_id: u32,
    secret: &[u8],
    derivable: bool,
) -> (status: i32)
    ensures
        match ex_data {
            Some(ex) => {
                &&& status == ex@.secret_status(level, false, cipher_id, derivable)
                &&& final(ex)@ == ex@.after_write_secret(level, cipher_id, secret@, derivable)
                &&& *final(final(ex).pkt_num_spaces) == *final(ex.pkt_num_spaces)
                &&& *final(final(ex).session) == *final(ex.session)
                &&& *final(final(ex).local_error) == *final(ex.local_error)
                &&& match (final(ex).keylog, ex.keylog) {
                    (Some(after), Some(before)) => *final(after) == *final(before),
                    (None, None) => true,
                    _ => false,
                }
            },
            None => status == FAILURE,
        },
{
    let ex = match ex_data {
        Some(ex) => ex,
        None => {
            return FAILURE;
        },
    };
    let alg = match get_cipher(cipher_id) {
        Ok(alg) => alg,
        Err(_) => {
            return FAILURE;
        },
    };
    // 0-RTT write secrets are present only on the client.
    if level != Level::ZeroRTT || !ex.is_server {
        if !derivable {
            return FAILURE;
        }
        let seal = Seal { alg, secret: to_vec(secret) };
        let space = ex.pkt_num_spaces.get_mut(level.epoch());
        space.crypto_seal = Some(seal);
    }
    SUCCESS
}

/// The TLS stack hands over handshake data to send at `level`. There is none at the 0-RTT level.
pub fn add_handshake_data(ex_data: Option<&mut ExData<'_>>, level: Level, data: &[u8]) -> (status:
    i32)
    requires
        ex_data is Some ==> level != Level::ZeroRTT,
    ensures
        match ex_data {
            Some(ex) => {
                &&& status == ex@.handshake_data_status(level)
                &&& final(ex)@ == ex@.after_handshake_data(level, data@)
                &&& *final(final(ex).pkt_num_spaces) == *final(ex.pkt_num_spaces)
                &&& *final(final(ex).session) == *final(ex.session)
                &&& *final(final(ex).local_error) == *final(ex.local_error)
                &&& match (final(ex).keylog, ex.keylog) {
                    (Some(after), Some(before)) => *final(after) == *final(before),
                    (None, None) => true,
                    _ => false,
                }
            },
            None => status == FAILURE,
        },
{
    let ex = match ex_data {
        Some(ex) => ex,
        None => {
            return FAILURE;
        },
    };
    let space = ex.pkt_num_spaces.get_mut(level.epoch());
    if space.crypto_send.write(data, false).is_err() {
        return FAILURE;
    }
    SUCCESS
}

/// The TLS stack asks to send what it has handed over. There is nothing to do: packets are made when
/// the connection sends.
pub fn flush_flight() -> (status: i32)
    ensures
        status == SUCCESS,
{
    SUCCESS
}

/// The TLS stack asks to send an alert: the connection is closed with the error code of the alert.
pub fn send_alert(ex_data: Option<&mut ExData<'_>>, alert: u8) -> (status: i32)
    ensures
        match ex_data {
            Some(ex) => {
                &&& status == SUCCESS
                &&& final(ex)@ == ex@.after_alert(alert)
                &&& *final(final(ex).pkt_num_spaces) == *final(ex.pkt_num_spaces)
                &&& *final(final(ex).session) == *final(ex.session)
                &&& *final(final(ex).local_error) == *final(ex.local_error)
                &&& match (final(ex).keylog, ex.keylog) {
                    (Some(after), Some(before)) => *final(after) == *final(before),
                    (None, None) => true,
                    _ => false,
                }
            },
            None => status == FAILURE,
        },
{
    let ex = match ex_data {
        Some(ex) => ex,
        None => {
            return FAILURE;
        },
    };
    *ex.local_error = Some(
        ConnectionError {
            is_app: false,
            error_code: TLS_ALERT_ERROR + alert as u64,
            reason: Vec::new(),
        },
    );
    SUCCESS
}

/// The TLS stack hands over a line of the key log. It is ended and kept to be written, if keys are
/// logged.
pub fn keylog(ex_data: Option<&mut ExData<'_>>, line: &[u8])
    ensures
        ex_data matches Some(ex) ==> {
            &&& final(ex)@ == ex@.after_keylog(line@)
            &&& *final(final(ex).pkt_num_spaces) == *final(ex.pkt_num_spaces)
            &&& *final(final(ex).session) == *final(ex.session)
            &&& *final(final(ex).local_error) == *final(ex.local_error)
            &&& match (final(ex).keylog, ex.keylog) {
                (Some(after), Some(before)) => *final(after) == *final(before),
                (None, None) => true,
                _ => false,
            }
        },
{
    if let Some(ex) = ex_data {
        if let Some(pending) = &mut ex.keylog {
            pending.extend_from_slice(line);
            pending.push(LINE_FEED);
        }
    }
}

/// The TLS stack asks which of the offered protocols to use: the first one that is supported. The
/// status is `tls_error` if there is none. The position is that among the supported protocols.
pub fn select_alpn(ex_data: Option<&ExData<'_>>, offered: &[u8], tls_error: i32) -> (answer: (
    i32,
    Option<usize>,
))
    ensures
        ({
            let selected = match ex_data {
                Some(ex) => select(ex@.application_protos, decode(offered@)),
                None => None,
            };
            match answer.1 {
                Some(index) => answer.0 == ALPN_SELECTED && selected == Some(index as int),
                None => answer.0 == tls_error && selected is None,
            }
        }),
{
    let ex = match ex_data {
        Some(ex) => ex,
        None => {
            return (tls_error, None);
        },
    };
    match select_proto(ex.application_protos, offered) {
        Some(index) => (ALPN_SELECTED, Some(index)),
        None => (tls_error, None),
    }
}

/// The TLS stack has established a session: its ticket is stored, with the transport parameters of
/// the peer, if the ticket could be serialized. The stack keeps its own session in any case.
pub fn new_session(ex_data: Option<&mut ExData<'_>>, ticket: Option<&[u8]>, peer_params: &[u8]) -> (
    status: i32)
    ensures
        status == FAILURE,
        ex_data matches Some(ex) ==> {
            &&& final(ex)@ == ex@.after_session(
                match ticket {
                    Some(ticket) => Some(ticket@),
                    None => None,
                },
                peer_params@,
            )
            &&& *final(final(ex).pkt_num_spaces) == *final(ex.pkt_num_spaces)
            &&& *final(final(ex).session) == *final(ex.session)
            &&& *final(final(ex).local_error) == *final(ex.local_error)
            &&& match (final(ex).keylog, ex.keylog) {
                (Some(after), Some(before)) => *final(after) == *final(before),
                (None, None) => true,
                _ => false,
            }
        },
{
    if let Some(ex) = ex_data {
        if let Some(ticket) = ticket {
            *ex.session = Some(store_session(ticket, peer_params));
        }
    }
    FAILURE
}

/// Reads an answer of the TLS stack that is 1 on success.
pub fn map_result(bssl_result: i32) -> (result: Result<(), Error>)
    ensures
        result == if bssl_result == 1 {
            Ok::<(), Error>(())
        } else {
            Err(Error::TlsFail)
        },
{
    match bssl_result {
        1 => Ok(()),
        _ => Err(Error::TlsFail),
    }
}

/// Reads an answer of the TLS stack that is 0 on success.
pub fn map_result_zero_is_success(bssl_result: i32) -> (result: Result<(), Error>)
    ensures
        result == if bssl_result == 0 {
            Ok::<(), Error>(())
        } else {
            Err(Error::TlsFail)
        },
{
    match bssl_result {
        0 => Ok(()),
        _ => Err(Error::TlsFail),
    }
}

/// Reads an answer of the TLS stack that is something on success.
pub fn map_result_ptr<T>(bssl_result: Option<&T>) -> (result: Result<&T, Error>)
    ensures
        result == match bssl_result {
            Some(v) => Ok::<&T, Error>(v),
            None => Err(Error::TlsFail),
        },
{
    match bssl_result {
        Some(v) => Ok(v),
        None => Err(Error::TlsFail),
    }
}

} // verus!
