//! The state of a connection that opportunistic acknowledgments read and change.
use crate::error::Error;
use crate::flow::{FlowControl, Stream};
use crate::packet::{Epoch, PktNumSpaces, SpaceView, SpacesView};
use crate::ranges::{packet_numbers, RangeSet};
use crate::time::{Duration, Instant};
use std::collections::{HashMap, HashSet};
use std::ops::Range;
use vstd::prelude::*;

verus! {

broadcast use vstd::std_specs::hash::group_hash_axioms;

/// The payload that a packet is taken to have carried when it is acknowledged without having been
/// received.
pub const PAYLOAD_SIZE: u64 = 1200;

/// A network path.
#[derive(Clone, Copy, Debug, PartialEq, Eq, Structural)]
pub struct Path {
    /// The number of packets received.
    pub recv_count: usize,

    /// The number of bytes received.
    pub recv_bytes: u64,

    /// The smoothed round-trip time.
    pub rtt: Duration,
}

/// A connection.
pub struct Connection {
    /// The packet number spaces.
    pub pkt_num_spaces: PktNumSpaces,

    /// The network paths. The first one is the path that the connection was established on.
    pub paths: Vec<Path>,

    /// The streams, by their identifiers.
    pub streams: HashMap<u64, Stream>,

    /// The streams for which a higher limit has to be advertised.
    pub almost_full_streams: HashSet<u64>,

    /// The flow control of the connection.
    pub flow_control: FlowControl,

    /// The number of stream bytes received.
    pub rx_data: u64,

    /// Whether a higher limit has to be advertised for the connection.
    pub almost_full: bool,

    /// The number of packets received.
    pub recv_count: usize,

    /// The number of bytes received.
    pub recv_bytes: u64,

    /// Whether the handshake has been completed.
    pub handshake_completed: bool,

    /// Whether an ack-eliciting packet has been sent since a packet was last received.
    pub ack_eliciting_sent: bool,

    /// Whether the send capacity has to be computed anew.
    pub tx_cap_outdated: bool,

    /// The scaling factor of the opportunistic acknowledgments.
    pub oack_scaling_factor: Option<u64>,

    /// The first packet number received in the application space.
    pub oack_first_app_pn: Option<u64>,

    /// The largest packet number received in the application space on the first path. Packets that
    /// are acknowledged without having been received do not count.
    pub oack_max_app_pn: u64,
}

/// The mathematical content of a [`Connection`].
#[verifier::ext_equal]
pub ghost struct ConnectionView {
    pub pkt_num_spaces: SpacesView,
    pub paths: Seq<Path>,
    pub streams: Map<u64, Stream>,
    pub almost_full_streams: Set<u64>,
    pub flow_control: FlowControl,
    pub rx_data: u64,
    pub almost_full: bool,
    pub recv_count: usize,
    pub recv_bytes: u64,
    pub handshake_completed: bool,
    pub ack_eliciting_sent: bool,
    pub tx_cap_outdated: bool,
    pub oack_scaling_factor: Option<u64>,
    pub oack_first_app_pn: Option<u64>,
    pub oack_max_app_pn: u64,
}

impl View for Connection {
    type V = ConnectionView;

    open spec fn view(&self) -> ConnectionView {
        ConnectionView {
            pkt_num_spaces: self.pkt_num_spaces@,
            paths: self.paths@,
            streams: self.streams@,
            almost_full_streams: self.almost_full_streams@,
            flow_control: self.flow_control,
            rx_data: self.rx_data,
            almost_full: self.almost_full,
            recv_count: self.recv_count,
            recv_bytes: self.recv_bytes,
            handshake_completed: self.handshake_completed,
            ack_eliciting_sent: self.ack_eliciting_sent,
            tx_cap_outdated: self.tx_cap_outdated,
            oack_scaling_factor: self.oack_scaling_factor,
            oack_first_app_pn: self.oack_first_app_pn,
            oack_max_app_pn: self.oack_max_app_pn,
        }
    }
}

impl ConnectionView {
    /// The connection with the log of received packet numbers of a space replaced.
    pub open spec fn with_log(self, epoch: Epoch, log: Option<Set<u64>>) -> ConnectionView {
        let space = SpaceView { oack_new_recv_pn: log, ..self.pkt_num_spaces.get(epoch) };
        ConnectionView { pkt_num_spaces: self.pkt_num_spaces.set(epoch, space), ..self }
    }

    /// The connection with a range added to the log of received packet numbers of a space, if there
    /// is one.
    pub open spec fn with_range(self, epoch: Epoch, range: Range<u64>) -> ConnectionView {
        match self.log(epoch) {
            Some(log) => self.with_log(
                epoch,
                Some(log.union(packet_numbers(range.start as int, range.end as int))),
            ),
            None => self,
        }
    }

    /// The connection with opportunistic acknowledgments enabled.
    pub open spec fn after_enabling(self, factor: u64) -> ConnectionView {
        ConnectionView {
            oack_scaling_factor: Some(factor),
            ..self.with_log(Epoch::Handshake, Some(Set::empty())).with_log(
                Epoch::Application,
                Some(Set::empty()),
            )
        }
    }

    /// The connection with the advertisement of higher limits scheduled, if opportunistic
    /// acknowledgments are enabled.
    pub open spec fn after_new_max_data(self, stream_id: u64) -> ConnectionView {
        if self.log(Epoch::Application) is Some {
            ConnectionView {
                almost_full: true,
                almost_full_streams: self.almost_full_streams.insert(stream_id),
                ..self
            }
        } else {
            self
        }
    }

    /// The log of received packet numbers of a space.
    pub open spec fn log(self, epoch: Epoch) -> Option<Set<u64>> {
        self.pkt_num_spaces.get(epoch).oack_new_recv_pn
    }
}

/// How far an insertion of opportunistic acknowledgments gets.
pub ghost struct OackRun {
    /// The packet numbers up to this one are recorded as received.
    pub stop: int,

    /// How many packets the connection counts as received.
    pub counted: int,

    /// How many packets the first path counts as received; the bytes of these are counted too.
    pub sized: int,

    /// How many packets are charged to the flow control.
    pub charged: int,

    /// The stream that the packets are charged to, as it is before the first charge.
    pub stream: Option<Stream>,

    /// What the insertion returns.
    pub outcome: Result<(), Error>,
}

impl SpaceView {
    /// The space after the packet numbers from `start` up to, but not including, `stop` have been
    /// recorded as received at `now`.
    pub open spec fn after_receiving(self, start: int, stop: int, now: Instant) -> SpaceView {
        if start >= stop {
            self
        } else {
            SpaceView {
                largest_rx_pkt_num: if self.largest_rx_pkt_num < stop - 1 {
                    (stop - 1) as u64
                } else {
                    self.largest_rx_pkt_num
                },
                largest_rx_pkt_time: if forall|pn: u64|
                    self.recv_pkt_need_ack.contains(pn) ==> pn < stop - 1 {
                    now
                } else {
                    self.largest_rx_pkt_time
                },
                recv_pkt_need_ack: self.recv_pkt_need_ack.union(packet_numbers(start, stop)),
                recv_pkt_num: self.recv_pkt_num.union(packet_numbers(start, stop)),
                ack_elicited: true,
                ..self
            }
        }
    }
}

impl Path {
    /// The path after `packets` more have been received on it.
    pub open spec fn after_receiving(self, packets: int) -> Path {
        Path {
            recv_count: (self.recv_count + packets) as usize,
            recv_bytes: (self.recv_bytes + PAYLOAD_SIZE * packets) as u64,
            ..self
        }
    }
}

/// The first packet number of a range from `start` on that is larger than `last_max_pn`.
pub open spec fn first_new(start: u64, last_max_pn: u64) -> int {
    if start <= last_max_pn {
        last_max_pn + 1
    } else {
        start as int
    }
}

impl ConnectionView {
    /// The stream that is found under `stream_id`, or else opened as `opening` says.
    pub open spec fn stream(self, stream_id: u64, opening: Result<Stream, Error>) -> Result<
        Stream,
        Error,
    > {
        if self.streams.contains_key(stream_id) {
            Ok(self.streams[stream_id])
        } else {
            opening
        }
    }

    /// How many packets the flow control of the connection has room for.
    pub open spec fn room(self) -> int {
        (self.flow_control.max_data - self.rx_data) / PAYLOAD_SIZE as int
    }

    /// How far the insertion of `range` gets.
    ///
    /// Packet numbers are recorded in ascending order. Those larger than `last_max_pn` are counted
    /// and charged to the stream as well. The first of them that finds no path, no stream or no
    /// room is the last one that is recorded.
    pub open spec fn oack_run(
        self,
        range: Range<u64>,
        stream_id: u64,
        last_max_pn: u64,
        opening: Result<Stream, Error>,
    ) -> OackRun {
        let first = first_new(range.start, last_max_pn);
        let run = OackRun {
            stop: first + 1,
            counted: 1,
            sized: 1,
            charged: 0,
            stream: None,
            outcome: Ok(()),
        };
        if range.end <= first {
            OackRun { stop: range.end as int, counted: 0, sized: 0, ..run }
        } else if self.paths.len() == 0 {
            OackRun { sized: 0, outcome: Err(Error::InvalidState), ..run }
        } else {
            match self.stream(stream_id, opening) {
                Err(Error::Done) => run,
                Err(error) => OackRun { outcome: Err(error), ..run },
                Ok(stream) => if range.end - first <= self.room() {
                    OackRun {
                        stop: range.end as int,
                        counted: range.end - first,
                        sized: range.end - first,
                        charged: range.end - first,
                        stream: Some(stream),
                        outcome: Ok(()),
                    }
                } else {
                    OackRun {
                        stop: first + self.room() + 1,
                        counted: self.room() + 1,
                        sized: self.room() + 1,
                        charged: self.room(),
                        stream: Some(stream),
                        outcome: Err(Error::FlowControl),
                    }
                },
            }
        }
    }

    /// The bytes that charging `packets` to `stream` consumes from the flow control of the
    /// connection: the data of a draining stream is consumed on arrival, and once more with its
    /// acknowledgment.
    pub open spec fn consumed_by(stream: Stream, packets: int) -> int {
        if stream.drain {
            PAYLOAD_SIZE * (2 * packets)
        } else {
            PAYLOAD_SIZE * packets
        }
    }

    /// The connection after the packet numbers from `start` on have been inserted as far as `run`
    /// says.
    pub open spec fn after_run(
        self,
        start: u64,
        now: Instant,
        stream_id: u64,
        run: OackRun,
    ) -> ConnectionView {
        let recorded = ConnectionView {
            pkt_num_spaces: SpacesView {
                application: self.pkt_num_spaces.application.after_receiving(
                    start as int,
                    run.stop,
                    now,
                ),
                ..self.pkt_num_spaces
            },
            tx_cap_outdated: self.tx_cap_outdated || start < run.stop,
            recv_count: (self.recv_count + run.counted) as usize,
            ..self
        };
        let received = if run.sized == 0 {
            recorded
        } else {
            ConnectionView {
                recv_bytes: (self.recv_bytes + PAYLOAD_SIZE * run.sized) as u64,
                paths: self.paths.update(0, self.paths[0].after_receiving(run.sized)),
                ack_eliciting_sent: false,
                ..recorded
            }
        };
        match run.stream {
            None => received,
            Some(stream) => {
                let flow_control = self.flow_control.after_consuming(
                    Self::consumed_by(stream, run.charged),
                );
                let charged = stream.after_consuming(PAYLOAD_SIZE * run.charged);
                ConnectionView {
                    rx_data: (self.rx_data + PAYLOAD_SIZE * run.charged) as u64,
                    flow_control,
                    almost_full: self.almost_full || (run.charged > 0
                        && flow_control.running_low()),
                    streams: self.streams.insert(stream_id, charged),
                    almost_full_streams: if run.charged > 0 && charged.spec_almost_full() {
                        self.almost_full_streams.insert(stream_id)
                    } else {
                        self.almost_full_streams
                    },
                    ..received
                }
            },
        }
    }

    /// The counters of the connection can hold what `run` adds to them.
    pub open spec fn fits(self, run: OackRun) -> bool {
        &&& self.recv_count + run.counted <= usize::MAX
        &&& run.sized > 0 ==> {
            &&& self.recv_bytes + PAYLOAD_SIZE * run.sized <= u64::MAX
            &&& self.paths[0].recv_count + run.sized <= usize::MAX
            &&& self.paths[0].recv_bytes + PAYLOAD_SIZE * run.sized <= u64::MAX
        }
        &&& run.stream matches Some(stream) ==> {
            &&& self.rx_data <= self.flow_control.max_data
            &&& self.flow_control.consumed + Self::consumed_by(stream, run.charged) <= u64::MAX
            &&& stream.flow_control.consumed + PAYLOAD_SIZE * run.charged <= u64::MAX
        }
    }

    /// Inserting `range` overflows no counter of the connection.
    pub open spec fn can_insert_oack(
        self,
        range: Range<u64>,
        stream_id: u64,
        last_max_pn: u64,
        opening: Result<Stream, Error>,
    ) -> bool {
        self.handshake_completed ==> self.fits(
            self.oack_run(range, stream_id, last_max_pn, opening),
        )
    }

    /// The connection after the insertion of `range`.
    pub open spec fn insert_oack(
        self,
        range: Range<u64>,
        now: Instant,
        stream_id: u64,
        last_max_pn: u64,
        opening: Result<Stream, Error>,
    ) -> ConnectionView {
        if self.handshake_completed {
            self.after_run(
                range.start,
                now,
                stream_id,
                self.oack_run(range, stream_id, last_max_pn, opening),
            )
        } else {
            self
        }
    }

    /// What the insertion of `range` returns.
    pub open spec fn insert_oack_outcome(
        self,
        range: Range<u64>,
        stream_id: u64,
        last_max_pn: u64,
        opening: Result<Stream, Error>,
    ) -> Result<(), Error> {
        if self.handshake_completed {
            self.oack_run(range, stream_id, last_max_pn, opening).outcome
        } else {
            Ok(())
        }
    }
}

impl Connection {
    /// Returns the packet numbers that were received since the last call, and forgets them. `None`
    /// if they are not logged.
    pub fn oack_take_new_pn(&mut self, epoch: Epoch) -> (taken: Option<RangeSet>)
        ensures
            match taken {
                Some(set) => old(self)@.log(epoch) == Some(set@) && final(self)@ == old(
                    self,
                )@.with_log(epoch, Some(Set::empty())),
                None => old(self)@.log(epoch) is None && final(self)@ == old(self)@,
            },
    {
        let space = self.pkt_num_spaces.get_mut(epoch);
        let taken = space.oack_new_recv_pn.take();
        if taken.is_some() {
            space.oack_new_recv_pn = Some(RangeSet::default());
        }
        taken
    }

    /// Returns the packet numbers that were received in the application space since the last call,
    /// and forgets them. `None` if they are not logged.
    pub fn oack_take_new_pn_app(&mut self) -> (taken: Option<RangeSet>)
        ensures
            match taken {
                Some(set) => old(self)@.log(Epoch::Application) == Some(set@) && final(self)@
                    == old(self)@.with_log(Epoch::Application, Some(Set::empty())),
                None => old(self)@.log(Epoch::Application) is None && final(self)@ == old(self)@,
            },
    {
        self.oack_take_new_pn(Epoch::Application)
    }

    /// Adds a range of packet numbers to the log of received ones, if there is one.
    pub fn oack_insert_range_pn(&mut self, range: Range<u64>, epoch: Epoch)
        ensures
            final(self)@ == old(self)@.with_range(epoch, range),
    {
        let space = self.pkt_num_spaces.get_mut(epoch);
        if let Some(log) = space.oack_new_recv_pn.as_mut() {
            log.insert(range);
        }
    }

    /// Enables opportunistic acknowledgments: from now on the packet numbers received in the
    /// handshake and application spaces are logged.
    pub fn enable_oack(&mut self, factor: u64)
        ensures
            final(self)@ == old(self)@.after_enabling(factor),
    {
        self.pkt_num_spaces.handshake.oack_new_recv_pn = Some(RangeSet::default());
        self.pkt_num_spaces.application.oack_new_recv_pn = Some(RangeSet::default());
        self.oack_scaling_factor = Some(factor);
    }

    /// Whether opportunistic acknowledgments are enabled.
    pub fn is_oack_enabled(&self) -> (enabled: bool)
        ensures
            enabled == self@.log(Epoch::Application) is Some,
    {
        self.pkt_num_spaces.application.oack_new_recv_pn.is_some()
    }

    /// The smoothed round-trip time of the first path. `None` if there is no path.
    pub fn oack_get_rtt(&self) -> (rtt: Option<Duration>)
        ensures
            rtt == if self@.paths.len() > 0 {
                Some(self@.paths[0].rtt)
            } else {
                None
            },
    {
        if self.paths.len() > 0 {
            Some(self.paths[0].rtt)
        } else {
            None
        }
    }

    /// Schedules the advertisement of higher limits for the connection and for the stream
    /// `stream_id`, if opportunistic acknowledgments are enabled.
    pub fn oack_new_max_data(&mut self, stream_id: u64)
        ensures
            final(self)@ == old(self)@.after_new_max_data(stream_id),
    {
        if self.is_oack_enabled() {
            self.almost_full = true;
            self.almost_full_streams.insert(stream_id);
        }
    }

    /// The first packet number received in the application space, or 0 if there is none.
    pub fn oack_get_first_pn(&self) -> (pn: u64)
        ensures
            pn == match self@.oack_first_app_pn {
                Some(first) => first,
                None => 0,
            },
    {
        match self.oack_first_app_pn {
            Some(first) => first,
            None => 0,
        }
    }

    /// The largest packet number received in the application space on the first path.
    pub fn oack_get_max_pn(&self) -> (pn: u64)
        ensures
            pn == self@.oack_max_app_pn,
    {
        self.oack_max_app_pn
    }

    /// The stream `stream_id`. If the connection does not hold it, `opening` says how it is opened,
    /// or why it cannot be.
    fn get_or_create_stream(&mut self, stream_id: u64, opening: Result<Stream, Error>) -> (found:
        Result<Stream, Error>)
        ensures
            found == old(self)@.stream(stream_id, opening),
            final(self)@ == (ConnectionView {
                streams: match found {
                    Ok(stream) => old(self)@.streams.insert(stream_id, stream),
                    Err(_) => old(self)@.streams,
                },
                ..old(self)@
            }),
    {
        if let Some(stream) = self.streams.get(&stream_id) {
            let stream = *stream;
            assert(self@.streams =~= self@.streams.insert(stream_id, stream));
            return Ok(stream);
        }
        match opening {
            Ok(stream) => {
                self.streams.insert(stream_id, stream);
                Ok(stream)
            },
            Err(error) => Err(error),
        }
    }

    /// Records the packet `pn` as received at `now` in the application space.
    fn record_app(&mut self, pn: u64, now: Instant)
        requires
            pn < u64::MAX,
        ensures
            final(self)@ == (ConnectionView {
                pkt_num_spaces: SpacesView {
                    application: old(self)@.pkt_num_spaces.application.after_receiving(
                        pn as int,
                        pn + 1,
                        now,
                    ),
                    ..old(self)@.pkt_num_spaces
                },
                tx_cap_outdated: true,
                ..old(self)@
            }),
    {
        let space = &mut self.pkt_num_spaces.application;
        let ghost needed = space.recv_pkt_need_ack@;
        let ghost received = space.recv_pkt_num@;

        // Only the time of arrival of the largest packet number that still needs to be acknowledged
        // is recorded, for the computation of the acknowledgment delay.
        let newest = match space.recv_pkt_need_ack.last() {
            Some(last) => last < pn,
            None => true,
        };
        if newest {
            space.largest_rx_pkt_time = now;
        }
        space.recv_pkt_num.push_item(pn);
        space.recv_pkt_need_ack.push_item(pn);
        assert(needed.insert(pn) =~= needed.union(packet_numbers(pn as int, pn + 1)));
        assert(received.insert(pn) =~= received.union(packet_numbers(pn as int, pn + 1)));
        space.ack_elicited = true;
        if space.largest_rx_pkt_num < pn {
            space.largest_rx_pkt_num = pn;
        }
        self.tx_cap_outdated = true;
    }

    /// Inserts an opportunistic acknowledgment for the packet `pn`. On success, says whether the
    /// packets that follow are to be inserted too.
    #[verifier::spinoff_prover]
    #[verifier::rlimit(20)]
    fn insert_oack_pn(
        &mut self,
        pn: u64,
        now: Instant,
        stream_id: u64,
        last_max_pn: u64,
        opening: Result<Stream, Error>,
    ) -> (outcome: Result<bool, Error>)
        requires
            pn < u64::MAX,
            old(self)@.fits(
                old(self)@.oack_run(pn..(pn + 1) as u64, stream_id, last_max_pn, opening),
            ),
        ensures
            ({
                let run = old(self)@.oack_run(
                    pn..(pn + 1) as u64,
                    stream_id,
                    last_max_pn,
                    opening,
                );
                &&& final(self)@ == old(self)@.after_run(pn, now, stream_id, run)
                &&& outcome == match run.outcome {
                    Ok(_) => Ok::<bool, Error>(run.sized == run.charged),
                    Err(error) => Err(error),
                }
            }),
    {
        let ghost before = self@;
        let ghost run = before.oack_run(pn..(pn + 1) as u64, stream_id, last_max_pn, opening);
        self.record_app(pn, now);
        if pn <= last_max_pn {
            return Ok(true);
        }
        self.recv_count = self.recv_count + 1;
        if self.paths.len() == 0 {
            return Err(Error::InvalidState);
        }
        let mut path = self.paths[0];
        path.recv_count = path.recv_count + 1;
        self.recv_bytes = self.recv_bytes + PAYLOAD_SIZE;
        path.recv_bytes = path.recv_bytes + PAYLOAD_SIZE;
        self.paths.set(0, path);
        self.ack_eliciting_sent = false;
        let mut stream = match self.get_or_create_stream(stream_id, opening) {
            Ok(stream) => stream,
            Err(Error::Done) => {
                return Ok(false);
            },
            Err(error) => {
                return Err(error);
            },
        };
        if PAYLOAD_SIZE > self.flow_control.max_data - self.rx_data {
            assert(before.room() == 0);
            assert(self@ =~= before.after_run(pn, now, stream_id, run));
            return Err(Error::FlowControl);
        }
        self.rx_data = self.rx_data + PAYLOAD_SIZE;
        if stream.is_draining() {
            // The data of a draining stream is not queued for the application: it is consumed at
            // once, which might call for a flow control update.
            self.flow_control.add_consumed(PAYLOAD_SIZE);
            if self.flow_control.should_update_max_data() {
                self.almost_full = true;
            }
        }
        self.flow_control.add_consumed(PAYLOAD_SIZE);
        if self.flow_control.should_update_max_data() {
            self.almost_full = true;
        }
        stream.oack_add_consumed(PAYLOAD_SIZE);
        self.streams.insert(stream_id, stream);
        if stream.almost_full() {
            self.almost_full_streams.insert(stream_id);
        }
        assert(before.room() >= 1);
        assert(self@.streams =~= before.streams.insert(stream_id, stream));
        assert(self@ =~= before.after_run(pn, now, stream_id, run));
        Ok(true)
    }

    /// Inserts opportunistic acknowledgments for the packet numbers of `range` in the application
    /// space, as if the packets had been received at `now`.
    ///
    /// The packets beyond `last_max_pn` are counted, and taken to carry data of the stream
    /// `stream_id`. Where the connection does not hold that stream, `opening` is what opening it
    /// gives. Before the handshake has been completed nothing is inserted.
    pub fn insert_oack_app(
        &mut self,
        range: Range<u64>,
        now: Instant,
        stream_id: u64,
        last_max_pn: u64,
        opening: Result<Stream, Error>,
    ) -> (outcome: Result<(), Error>)
        requires
            old(self)@.can_insert_oack(range, stream_id, last_max_pn, opening),
        ensures
            final(self)@ == old(self)@.insert_oack(range, now, stream_id, last_max_pn, opening),
            outcome == old(self)@.insert_oack_outcome(range, stream_id, last_max_pn, opening),
    {
        if !self.handshake_completed {
            return Ok(());
        }
        let ghost before = self@;
        let mut pn: u64 = range.start;
        assert(self@ =~= before.after_run(
            range.start,
            now,
            stream_id,
            before.oack_part(range.start, pn, stream_id, last_max_pn, opening),
        ));
        while pn < range.end
            invariant
                before == old(self)@,
                before.handshake_completed,
                before.oack_going(range, pn, stream_id, last_max_pn, opening),
                before.fits(before.oack_run(range, stream_id, last_max_pn, opening)),
                self@ == before.after_run(
                    range.start,
                    now,
                    stream_id,
                    before.oack_part(range.start, pn, stream_id, last_max_pn, opening),
                ),
            decreases range.end - pn,
        {
            proof {
                before.lemma_oack_step(range, pn, now, stream_id, last_max_pn, opening);
            }
            match self.insert_oack_pn(pn, now, stream_id, last_max_pn, opening) {
                Ok(true) => {},
                Ok(false) => {
                    return Ok(());
                },
                Err(error) => {
                    return Err(error);
                },
            }
            pn = pn + 1;
        }
        Ok(())
    }
}

impl ConnectionView {
    /// How far the insertion of a range has got when the packets from `start` up to, but not
    /// including, `pn` have been inserted without a hitch.
    spec fn oack_part(
        self,
        start: u64,
        pn: u64,
        stream_id: u64,
        last_max_pn: u64,
        opening: Result<Stream, Error>,
    ) -> OackRun {
        let first = first_new(start, last_max_pn);
        let inserted = if pn > first {
            pn - first
        } else {
            0
        };
        OackRun {
            stop: pn as int,
            counted: inserted,
            sized: inserted,
            charged: inserted,
            stream: if inserted > 0 {
                Some(self.stream(stream_id, opening)->Ok_0)
            } else {
                None
            },
            outcome: Ok(()),
        }
    }

    /// The packets of `range` up to, but not including, `pn` can be inserted without a hitch.
    spec fn oack_going(
        self,
        range: Range<u64>,
        pn: u64,
        stream_id: u64,
        last_max_pn: u64,
        opening: Result<Stream, Error>,
    ) -> bool {
        let first = first_new(range.start, last_max_pn);
        &&& range.start <= pn
        &&& range.start < range.end ==> pn <= range.end
        &&& range.start >= range.end ==> pn == range.start
        &&& pn > first ==> {
            &&& self.paths.len() > 0
            &&& self.stream(stream_id, opening) is Ok
            &&& pn - first <= self.room()
        }
    }

    /// Inserting `pn` after the packets of `range` that precede it either goes on towards the end
    /// of the range, or stops where the insertion of the whole range stops.
    #[verifier::spinoff_prover]
    #[verifier::rlimit(40)]
    proof fn lemma_oack_step(
        self,
        range: Range<u64>,
        pn: u64,
        now: Instant,
        stream_id: u64,
        last_max_pn: u64,
        opening: Result<Stream, Error>,
    )
        requires
            self.oack_going(range, pn, stream_id, last_max_pn, opening),
            self.fits(self.oack_run(range, stream_id, last_max_pn, opening)),
            pn < range.end,
        ensures
            ({
                let part = self.oack_part(range.start, pn, stream_id, last_max_pn, opening);
                let so_far = self.after_run(range.start, now, stream_id, part);
                let step = so_far.oack_run(pn..(pn + 1) as u64, stream_id, last_max_pn, opening);
                let next = so_far.after_run(pn, now, stream_id, step);
                let whole = self.oack_run(range, stream_id, last_max_pn, opening);
                &&& so_far.fits(step)
                &&& if step.outcome is Ok && step.sized == step.charged {
                    &&& self.oack_going(range, (pn + 1) as u64, stream_id, last_max_pn, opening)
                    &&& next == self.after_run(
                        range.start,
                        now,
                        stream_id,
                        self.oack_part(
                            range.start,
                            (pn + 1) as u64,
                            stream_id,
                            last_max_pn,
                            opening,
                        ),
                    )
                } else {
                    &&& next == self.after_run(range.start, now, stream_id, whole)
                    &&& step.outcome == whole.outcome
                }
            }),
    {
        let first = first_new(range.start, last_max_pn);
        let part = self.oack_part(range.start, pn, stream_id, last_max_pn, opening);
        let so_far = self.after_run(range.start, now, stream_id, part);
        let step = so_far.oack_run(pn..(pn + 1) as u64, stream_id, last_max_pn, opening);
        let next = so_far.after_run(pn, now, stream_id, step);
        let whole = self.oack_run(range, stream_id, last_max_pn, opening);
        self.pkt_num_spaces.application.lemma_receive_next(range.start as int, pn as int, now);
        if pn < first {
            assert(next =~= self.after_run(
                range.start,
                now,
                stream_id,
                self.oack_part(range.start, (pn + 1) as u64, stream_id, last_max_pn, opening),
            ));
        } else if self.paths.len() == 0 {
            assert(next =~= self.after_run(range.start, now, stream_id, whole));
        } else if self.stream(stream_id, opening) is Err {
            assert(next =~= self.after_run(range.start, now, stream_id, whole));
        } else if pn - first < self.room() {
            assert(so_far.room() == self.room() - (pn - first));
            assert(next =~= self.after_run(
                range.start,
                now,
                stream_id,
                self.oack_part(range.start, (pn + 1) as u64, stream_id, last_max_pn, opening),
            ));
        } else {
            assert(so_far.room() == self.room() - (pn - first));
            assert(next =~= self.after_run(range.start, now, stream_id, whole));
        }
    }
}

impl SpaceView {
    /// Receiving one packet after those from `start` on is receiving them all.
    proof fn lemma_receive_next(self, start: int, pn: int, now: Instant)
        requires
            0 <= start <= pn < u64::MAX,
        ensures
            self.after_receiving(start, pn, now).after_receiving(pn, pn + 1, now)
                == self.after_receiving(start, pn + 1, now),
    {
        let some = self.after_receiving(start, pn, now);
        let next = some.after_receiving(pn, pn + 1, now);
        let all = self.after_receiving(start, pn + 1, now);
        assert(next.recv_pkt_need_ack =~= all.recv_pkt_need_ack);
        assert(next.recv_pkt_num =~= all.recv_pkt_num);
        if forall|x: u64| self.recv_pkt_need_ack.contains(x) ==> x < pn {
            assert(forall|x: u64| some.recv_pkt_need_ack.contains(x) ==> x < pn);
        } else {
            let x = choose|x: u64| self.recv_pkt_need_ack.contains(x) && x >= pn;
            assert(some.recv_pkt_need_ack.contains(x));
        }
    }
}

/// What decides how far an insertion of opportunistic acknowledgments gets, and whether it overflows
/// a counter.
#[derive(Clone, Copy)]
pub(crate) struct Ledger {
    pub(crate) handshake_completed: bool,
    pub(crate) path: Option<Path>,
    pub(crate) recv_count: usize,
    pub(crate) recv_bytes: u64,
    pub(crate) flow_control: FlowControl,
    pub(crate) rx_data: u64,
    pub(crate) stream: Result<Stream, Error>,
}

/// An [`OackRun`] without the packet numbers.
struct Tally {
    counted: u64,
    sized: u64,
    charged: u64,
    stream: Option<Stream>,
    outcome: Result<(), Error>,
}

impl Tally {
    /// The tally is that of `run`.
    spec fn is_of(self, run: OackRun) -> bool {
        &&& self.counted == run.counted
        &&& self.sized == run.sized
        &&& self.charged == run.charged
        &&& self.stream == run.stream
        &&& self.outcome == run.outcome
    }
}

impl ConnectionView {
    /// The ledger of the connection for insertions on the stream `stream_id`.
    pub(crate) open(crate) spec fn ledger(
        self,
        stream_id: u64,
        opening: Result<Stream, Error>,
    ) -> Ledger {
        Ledger {
            handshake_completed: self.handshake_completed,
            path: if self.paths.len() > 0 {
                Some(self.paths[0])
            } else {
                None
            },
            recv_count: self.recv_count,
            recv_bytes: self.recv_bytes,
            flow_control: self.flow_control,
            rx_data: self.rx_data,
            stream: self.stream(stream_id, opening),
        }
    }
}

impl Ledger {
    /// How far the insertion of `range` gets. `None` if more data has been received than the flow
    /// control allows, and that matters.
    fn tally(
        &self,
        range: &Range<u64>,
        last_max_pn: u64,
        Ghost(conn): Ghost<ConnectionView>,
        Ghost(stream_id): Ghost<u64>,
        Ghost(opening): Ghost<Result<Stream, Error>>,
    ) -> (tally: Option<Tally>)
        requires
            *self == conn.ledger(stream_id, opening),
        ensures
            match tally {
                Some(tally) => tally.is_of(
                    conn.oack_run(*range, stream_id, last_max_pn, opening),
                ),
                None => conn.rx_data > conn.flow_control.max_data && conn.oack_run(
                    *range,
                    stream_id,
                    last_max_pn,
                    opening,
                ).stream is Some,
            },
    {
        let first: u128 = if range.start <= last_max_pn {
            last_max_pn as u128 + 1
        } else {
            range.start as u128
        };
        if range.end as u128 <= first {
            return Some(Tally { counted: 0, sized: 0, charged: 0, stream: None, outcome: Ok(()) });
        }
        if self.path.is_none() {
            return Some(
                Tally {
                    counted: 1,
                    sized: 0,
                    charged: 0,
                    stream: None,
                    outcome: Err(Error::InvalidState),
                },
            );
        }
        let stream = match self.stream {
            Ok(stream) => stream,
            Err(Error::Done) => {
                return Some(
                    Tally { counted: 1, sized: 1, charged: 0, stream: None, outcome: Ok(()) },
                );
            },
            Err(error) => {
                return Some(
                    Tally { counted: 1, sized: 1, charged: 0, stream: None, outcome: Err(error) },
                );
            },
        };
        if self.rx_data > self.flow_control.max_data {
            return None;
        }
        let room = (self.flow_control.max_data - self.rx_data) / PAYLOAD_SIZE;
        let wanted = (range.end as u128 - first) as u64;
        if wanted <= room {
            Some(
                Tally {
                    counted: wanted,
                    sized: wanted,
                    charged: wanted,
                    stream: Some(stream),
                    outcome: Ok(()),
                },
            )
        } else {
            Some(
                Tally {
                    counted: room + 1,
                    sized: room + 1,
                    charged: room,
                    stream: Some(stream),
                    outcome: Err(Error::FlowControl),
                },
            )
        }
    }

    /// Whether the counters can hold what an insertion adds to them.
    fn fits(
        &self,
        tally: &Tally,
        Ghost(conn): Ghost<ConnectionView>,
        Ghost(stream_id): Ghost<u64>,
        Ghost(opening): Ghost<Result<Stream, Error>>,
        Ghost(run): Ghost<OackRun>,
    ) -> (enough: bool)
        requires
            *self == conn.ledger(stream_id, opening),
            tally.is_of(run),
            tally.stream is Some ==> conn.rx_data <= conn.flow_control.max_data,
            run.sized > 0 ==> conn.paths.len() > 0,
        ensures
            enough == conn.fits(run),
    {
        let payload: u128 = PAYLOAD_SIZE as u128;
        let count: u128 = usize::MAX as u128;
        let bytes: u128 = u64::MAX as u128;
        let sized: u128 = tally.sized as u128;
        let charged: u128 = tally.charged as u128;
        if self.recv_count as u128 + tally.counted as u128 > count {
            return false;
        }
        if tally.sized > 0 {
            if self.recv_bytes as u128 + payload * sized > bytes {
                return false;
            }
            if let Some(path) = self.path {
                if path.recv_count as u128 + sized > count {
                    return false;
                }
                if path.recv_bytes as u128 + payload * sized > bytes {
                    return false;
                }
            }
        }
        match tally.stream {
            Some(stream) => {
                let consumed: u128 = if stream.drain {
                    payload * (2 * charged)
                } else {
                    payload * charged
                };
                self.flow_control.consumed as u128 + consumed <= bytes
                    && stream.flow_control.consumed as u128 + payload * charged <= bytes
            },
            None => true,
        }
    }

    /// Enters the insertion of `range`, if it overflows no counter. `None` if it does.
    pub(crate) fn enter(
        &mut self,
        range: &Range<u64>,
        last_max_pn: u64,
        Ghost(conn): Ghost<ConnectionView>,
        Ghost(now): Ghost<Instant>,
        Ghost(stream_id): Ghost<u64>,
        Ghost(opening): Ghost<Result<Stream, Error>>,
    ) -> (outcome: Option<Result<(), Error>>)
        requires
            *old(self) == conn.ledger(stream_id, opening),
        ensures
            match outcome {
                Some(outcome) => {
                    &&& conn.can_insert_oack(*range, stream_id, last_max_pn, opening)
                    &&& outcome == conn.insert_oack_outcome(
                        *range,
                        stream_id,
                        last_max_pn,
                        opening,
                    )
                    &&& *final(self) == conn.insert_oack(
                        *range,
                        now,
                        stream_id,
                        last_max_pn,
                        opening,
                    ).ledger(stream_id, opening)
                },
                None => !conn.can_insert_oack(*range, stream_id, last_max_pn, opening),
            },
    {
        if !self.handshake_completed {
            return Some(Ok(()));
        }
        let ghost run = conn.oack_run(*range, stream_id, last_max_pn, opening);
        let tally = match self.tally(
            range,
            last_max_pn,
            Ghost(conn),
            Ghost(stream_id),
            Ghost(opening),
        ) {
            Some(tally) => tally,
            None => {
                return None;
            },
        };
        if let Some(_) = tally.stream {
            if self.rx_data > self.flow_control.max_data {
                return None;
            }
        }
        if !self.fits(&tally, Ghost(conn), Ghost(stream_id), Ghost(opening), Ghost(run)) {
            return None;
        }
        self.recv_count = self.recv_count + tally.counted as usize;
        if tally.sized > 0 {
            let bytes = PAYLOAD_SIZE * tally.sized;
            self.recv_bytes = self.recv_bytes + bytes;
            if let Some(mut path) = self.path {
                path.recv_count = path.recv_count + tally.sized as usize;
                path.recv_bytes = path.recv_bytes + bytes;
                self.path = Some(path);
            }
        }
        if let Some(mut stream) = tally.stream {
            let bytes = PAYLOAD_SIZE * tally.charged;
            self.rx_data = self.rx_data + bytes;
            self.flow_control.add_consumed(bytes);
            if stream.drain {
                self.flow_control.add_consumed(bytes);
            }
            stream.oack_add_consumed(bytes);
            self.stream = Ok(stream);
        }
        Some(tally.outcome)
    }
}

impl Connection {
    /// The ledger of the connection for insertions on the stream `stream_id`.
    pub(crate) fn ledger(&self, stream_id: u64, opening: Result<Stream, Error>) -> (ledger: Ledger)
        ensures
            ledger == self@.ledger(stream_id, opening),
    {
        Ledger {
            handshake_completed: self.handshake_completed,
            path: if self.paths.len() > 0 {
                Some(self.paths[0])
            } else {
                None
            },
            recv_count: self.recv_count,
            recv_bytes: self.recv_bytes,
            flow_control: self.flow_control,
            rx_data: self.rx_data,
            stream: match self.streams.get(&stream_id) {
                Some(stream) => Ok(*stream),
                None => opening,
            },
        }
    }

    /// Whether inserting `range` overflows no counter of the connection.
    pub fn can_insert_oack(
        &self,
        range: Range<u64>,
        stream_id: u64,
        last_max_pn: u64,
        opening: Result<Stream, Error>,
    ) -> (possible: bool)
        ensures
            possible == self@.can_insert_oack(range, stream_id, last_max_pn, opening),
    {
        let mut ledger = self.ledger(stream_id, opening);
        ledger.enter(
            &range,
            last_max_pn,
            Ghost(self@),
            Ghost(Instant { nanos: 0 }),
            Ghost(stream_id),
            Ghost(opening),
        ).is_some()
    }
}

} // verus!
