//! Packet number spaces and the encryption levels that feed them.
use crate::error::Error;
use crate::ranges::RangeSet;
use crate::time::Instant;
use vstd::prelude::*;

verus! {

/// A packet number space.
#[derive(Clone, Copy, Debug, PartialEq, Eq, Structural)]
pub enum Epoch {
    Initial,
    Handshake,
    Application,
}

/// An encryption level of the handshake.
#[derive(Clone, Copy, Debug, PartialEq, Eq, Structural)]
pub enum Level {
    Initial,
    ZeroRTT,
    Handshake,
    OneRTT,
}

/// An AEAD algorithm that protects packets.
#[allow(non_camel_case_types)]
#[derive(Clone, Copy, Debug, PartialEq, Eq, Structural)]
pub enum Algorithm {
    AES128_GCM,
    AES256_GCM,
    ChaCha20_Poly1305,
}

/// What opens received packets: an algorithm and the secret that its keys derive from.
#[derive(Debug)]
pub struct Open {
    pub alg: Algorithm,
    pub secret: Vec<u8>,
}

/// What seals sent packets: an algorithm and the secret that its keys derive from.
#[derive(Debug)]
pub struct Seal {
    pub alg: Algorithm,
    pub secret: Vec<u8>,
}

/// An algorithm with a secret: the content of an [`Open`] or a [`Seal`].
pub ghost struct KeyView {
    pub alg: Algorithm,
    pub secret: Seq<u8>,
}

impl View for Open {
    type V = KeyView;

    open spec fn view(&self) -> KeyView {
        KeyView { alg: self.alg, secret: self.secret@ }
    }
}

impl View for Seal {
    type V = KeyView;

    open spec fn view(&self) -> KeyView {
        KeyView { alg: self.alg, secret: self.secret@ }
    }
}

/// The packet number space that carries the packets of an encryption level.
pub open spec fn epoch_of(level: Level) -> Epoch {
    match level {
        Level::Initial => Epoch::Initial,
        Level::Handshake => Epoch::Handshake,
        Level::ZeroRTT | Level::OneRTT => Epoch::Application,
    }
}

impl Level {
    /// The packet number space that carries the packets of this level.
    pub fn epoch(self) -> (epoch: Epoch)
        ensures
            epoch == epoch_of(self),
    {
        match self {
            Level::Initial => Epoch::Initial,
            Level::Handshake => Epoch::Handshake,
            Level::ZeroRTT => Epoch::Application,
            Level::OneRTT => Epoch::Application,
        }
    }
}

/// Handshake bytes that wait to be sent.
#[derive(Debug, Default)]
pub struct SendBuf {
    /// The bytes, in the order in which they were written.
    pub data: Vec<u8>,

    /// Whether the stream has been finished.
    pub fin: bool,
}

impl SendBuf {
    /// Appends `data`, and finishes the stream if `fin` is set. Nothing can be written to a stream
    /// that is finished.
    pub fn write(&mut self, data: &[u8], fin: bool) -> (written: Result<usize, Error>)
        ensures
            old(self).fin ==> written == Err::<usize, Error>(Error::FinalSize) && *final(self)
                == *old(self),
            !old(self).fin ==> {
                &&& written == Ok::<usize, Error>(data@.len() as usize)
                &&& final(self).data@ == old(self).data@ + data@
                &&& final(self).fin == fin
            },
    {
        if self.fin {
            return Err(Error::FinalSize);
        }
        self.data.extend_from_slice(data);
        self.fin = fin;
        Ok(data.len())
    }
}

/// The state of a packet number space.
pub struct PktNumSpace {
    /// The largest packet number recorded as received.
    pub largest_rx_pkt_num: u64,

    /// When the largest packet number that still needs to be acknowledged was received.
    pub largest_rx_pkt_time: Instant,

    /// The packet numbers that still need to be acknowledged.
    pub recv_pkt_need_ack: RangeSet,

    /// The packet numbers recorded as received.
    pub recv_pkt_num: RangeSet,

    /// Whether an acknowledgment has to be sent.
    pub ack_elicited: bool,

    /// The packet numbers received since they were last taken, where these are logged.
    pub oack_new_recv_pn: Option<RangeSet>,

    /// What opens packets.
    pub crypto_open: Option<Open>,

    /// What opens 0-RTT packets.
    pub crypto_0rtt_open: Option<Open>,

    /// What seals packets.
    pub crypto_seal: Option<Seal>,

    /// The handshake bytes to send.
    pub crypto_send: SendBuf,
}

/// The mathematical content of a [`PktNumSpace`].
#[verifier::ext_equal]
pub ghost struct SpaceView {
    pub largest_rx_pkt_num: u64,
    pub largest_rx_pkt_time: Instant,
    pub recv_pkt_need_ack: Set<u64>,
    pub recv_pkt_num: Set<u64>,
    pub ack_elicited: bool,
    pub oack_new_recv_pn: Option<Set<u64>>,
    pub crypto_open: Option<KeyView>,
    pub crypto_0rtt_open: Option<KeyView>,
    pub crypto_seal: Option<KeyView>,
    pub crypto_data: Seq<u8>,
    pub crypto_fin: bool,
}

impl SpaceView {
    /// The space of a connection that starts at `now`: nothing has been received.
    pub open spec fn fresh(now: Instant) -> SpaceView {
        SpaceView {
            largest_rx_pkt_num: 0,
            largest_rx_pkt_time: now,
            recv_pkt_need_ack: Set::empty(),
            recv_pkt_num: Set::empty(),
            ack_elicited: false,
            oack_new_recv_pn: None,
            crypto_open: None,
            crypto_0rtt_open: None,
            crypto_seal: None,
            crypto_data: Seq::empty(),
            crypto_fin: false,
        }
    }
}

impl View for PktNumSpace {
    type V = SpaceView;

    open spec fn view(&self) -> SpaceView {
        SpaceView {
            largest_rx_pkt_num: self.largest_rx_pkt_num,
            largest_rx_pkt_time: self.largest_rx_pkt_time,
            recv_pkt_need_ack: self.recv_pkt_need_ack@,
            recv_pkt_num: self.recv_pkt_num@,
            ack_elicited: self.ack_elicited,
            oack_new_recv_pn: match self.oack_new_recv_pn {
                Some(set) => Some(set@),
                None => None,
            },
            crypto_open: match self.crypto_open {
                Some(open) => Some(open@),
                None => None,
            },
            crypto_0rtt_open: match self.crypto_0rtt_open {
                Some(open) => Some(open@),
                None => None,
            },
            crypto_seal: match self.crypto_seal {
                Some(seal) => Some(seal@),
                None => None,
            },
            crypto_data: self.crypto_send.data@,
            crypto_fin: self.crypto_send.fin,
        }
    }
}

impl PktNumSpace {
    /// Creates the space of a connection that starts at `now`: nothing has been received.
    pub fn new(now: Instant) -> (space: PktNumSpace)
        ensures
            space@ == SpaceView::fresh(now),
    {
        PktNumSpace {
            largest_rx_pkt_num: 0,
            largest_rx_pkt_time: now,
            recv_pkt_need_ack: RangeSet::default(),
            recv_pkt_num: RangeSet::default(),
            ack_elicited: false,
            oack_new_recv_pn: None,
            crypto_open: None,
            crypto_0rtt_open: None,
            crypto_seal: None,
            crypto_send: SendBuf { data: Vec::new(), fin: false },
        }
    }
}

/// The packet number spaces of a connection.
pub struct PktNumSpaces {
    pub initial: PktNumSpace,
    pub handshake: PktNumSpace,
    pub application: PktNumSpace,
}

/// The mathematical content of a [`PktNumSpaces`].
#[verifier::ext_equal]
pub ghost struct SpacesView {
    pub initial: SpaceView,
    pub handshake: SpaceView,
    pub application: SpaceView,
}

impl SpacesView {
    /// The space of an epoch.
    pub open spec fn get(self, epoch: Epoch) -> SpaceView {
        match epoch {
            Epoch::Initial => self.initial,
            Epoch::Handshake => self.handshake,
            Epoch::Application => self.application,
        }
    }

    /// The spaces with the one of `epoch` replaced.
    pub open spec fn set(self, epoch: Epoch, space: SpaceView) -> SpacesView {
        match epoch {
            Epoch::Initial => SpacesView { initial: space, ..self },
            Epoch::Handshake => SpacesView { handshake: space, ..self },
            Epoch::Application => SpacesView { application: space, ..self },
        }
    }
}

impl View for PktNumSpaces {
    type V = SpacesView;

    open spec fn view(&self) -> SpacesView {
        SpacesView {
            initial: self.initial@,
            handshake: self.handshake@,
            application: self.application@,
        }
    }
}

impl PktNumSpaces {
    /// Creates the spaces of a connection that starts at `now`.
    pub fn new(now: Instant) -> (spaces: PktNumSpaces)
        ensures
            spaces@ == (SpacesView {
                initial: SpaceView::fresh(now),
                handshake: SpaceView::fresh(now),
                application: SpaceView::fresh(now),
            }),
    {
        PktNumSpaces {
            initial: PktNumSpace::new(now),
            handshake: PktNumSpace::new(now),
            application: PktNumSpace::new(now),
        }
    }

    /// The space of `epoch`.
    pub fn get_mut(&mut self, epoch: Epoch) -> (space: &mut PktNumSpace)
        ensures
            space@ == old(self)@.get(epoch),
            final(self)@ == old(self)@.set(epoch, final(space)@),
    {
        match epoch {
            Epoch::Initial => &mut self.initial,
            Epoch::Handshake => &mut self.handshake,
            Epoch::Application => &mut self.application,
        }
    }
}

} // verus!
