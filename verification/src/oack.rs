//! Strategies that decide which packets to acknowledge before they have been received.
use crate::connection::{Connection, ConnectionView};
use crate::error::Error;
use crate::flow::Stream;
use crate::qlog::{
    acks_in, delay, first_error, is_usable_trace, json_records, leading, read_qlog, schedule,
    schedule_view, usable, QlogError, INITIAL_DELAY,
};
use crate::time::{Duration, Instant};
use std::ops::Range;
use vstd::prelude::*;

verus! {

/// No time at all.
pub open spec fn at_once() -> Duration {
    Duration { nanos: 0 }
}

/// Acknowledges packets ahead of the largest one that has been received.
pub struct OpportunistMaxPn {
    /// The last maximum packet number we acknowledged.
    last_max_pn: u64,

    /// The end of the range to acknowledge: one past the largest packet number in it.
    next_max_pn: u64,

    /// Whether we are active.
    active: bool,

    /// Potential shift with respect to the maximum received packet number.
    shift_pn: Option<u64>,

    /// Potential lag before the shift is added to the maximum received packet number.
    lag_shift: Option<u64>,

    /// The true last maximum packet number we received.
    true_last_recv_pn: u64,

    /// The true last maximum packet number at which we acknowledged.
    true_last_pn_oack: u64,

    /// First application packet number.
    first_app_pn: Option<u64>,

    /// Last increase of the shift.
    last_increase: u64,
}

/// The mathematical content of an [`OpportunistMaxPn`].
pub ghost struct MaxPnView {
    pub last_max_pn: u64,
    pub next_max_pn: u64,
    pub active: bool,
    pub shift_pn: Option<u64>,
    pub lag_shift: Option<u64>,
    pub true_last_recv_pn: u64,
    pub true_last_pn_oack: u64,
    pub first_app_pn: Option<u64>,
    pub last_increase: u64,
}

impl View for OpportunistMaxPn {
    type V = MaxPnView;

    closed spec fn view(&self) -> MaxPnView {
        MaxPnView {
            last_max_pn: self.last_max_pn,
            next_max_pn: self.next_max_pn,
            active: self.active,
            shift_pn: self.shift_pn,
            lag_shift: self.lag_shift,
            true_last_recv_pn: self.true_last_recv_pn,
            true_last_pn_oack: self.true_last_pn_oack,
            first_app_pn: self.first_app_pn,
            last_increase: self.last_increase,
        }
    }
}

impl MaxPnView {
    /// A strategy that has not seen a packet yet. A lag without a shift has no meaning.
    pub open spec fn start(shift_pn: Option<u64>, lag_shift: Option<u64>) -> MaxPnView {
        MaxPnView {
            last_max_pn: 0,
            next_max_pn: 0,
            active: false,
            shift_pn,
            lag_shift: if shift_pn is Some {
                lag_shift
            } else {
                None
            },
            true_last_recv_pn: 0,
            true_last_pn_oack: 0,
            first_app_pn: None,
            last_increase: 0,
        }
    }

    /// A packet has been received since the last acknowledgment.
    pub open spec fn pending(self) -> bool {
        self.true_last_recv_pn != self.true_last_pn_oack
    }

    /// There is something to acknowledge: a packet has been received since the last time, and the
    /// packet numbers to acknowledge have caught up with the first one.
    pub open spec fn fires(self) -> bool {
        self.pending() && self.first_app_pn is Some && self.first_app_pn->0 <= self.next_max_pn
    }

    /// The packet numbers that are acknowledged next.
    pub open spec fn next_range(self) -> Range<u64> {
        Range { start: self.first_app_pn->0, end: self.next_max_pn }
    }

    /// The strategy after it has acknowledged what there was. The last maximum is the last packet
    /// number of the range, if there is one.
    pub open spec fn after_firing(self) -> MaxPnView {
        MaxPnView {
            last_max_pn: if self.first_app_pn->0 < self.next_max_pn {
                (self.next_max_pn - 1) as u64
            } else {
                self.last_max_pn
            },
            true_last_pn_oack: self.true_last_recv_pn,
            ..self
        }
    }

    /// The shift after the next packet. It grows by two until it has reached 4000, and from then on
    /// as it grew last.
    pub open spec fn next_shift(self) -> int {
        let shift = self.shift_pn->0;
        if shift < 4_000 {
            shift + 2
        } else {
            shift + self.last_increase
        }
    }

    /// The first application packet number once `pn` has been received.
    pub open spec fn first_with(self, pn: u64) -> Option<u64> {
        if self.first_app_pn is None && pn > 0 {
            Some(pn)
        } else {
            self.first_app_pn
        }
    }

    /// The shift is added to `pn`: there is one, and `pn` is past the lag.
    pub open spec fn shifts(self, pn: u64) -> bool {
        &&& pn != self.true_last_recv_pn
        &&& self.shift_pn is Some
        &&& self.first_with(pn) matches Some(first)
        &&& self.lag_shift matches Some(lag) ==> lag + first < pn
    }

    /// The strategy after `pn` has been received as the largest packet number.
    pub open spec fn after_receiving(self, pn: u64) -> MaxPnView {
        let seen = MaxPnView {
            true_last_recv_pn: pn,
            first_app_pn: self.first_with(pn),
            ..self
        };
        if pn == self.true_last_recv_pn {
            self
        } else if self.shifts(pn) {
            MaxPnView {
                shift_pn: Some(self.next_shift() as u64),
                last_increase: (self.next_shift() - self.shift_pn->0) as u64,
                next_max_pn: if self.next_max_pn < pn + self.next_shift() {
                    (pn + self.next_shift()) as u64
                } else {
                    self.next_max_pn
                },
                ..seen
            }
        } else {
            seen
        }
    }

    /// No packet number gets too large when `pn` is received.
    pub open spec fn can_receive(self, pn: u64) -> bool {
        &&& pn != self.true_last_recv_pn && self.lag_shift is Some && self.first_with(pn) is Some
            ==> self.lag_shift->0 + self.first_with(pn)->0 <= u64::MAX
        &&& self.shifts(pn) ==> pn + self.next_shift() <= u64::MAX
    }
}

impl OpportunistMaxPn {
    /// Creates a new instance.
    pub fn new(shift_pn: Option<u64>, lag_shift: Option<u64>) -> (strategy: OpportunistMaxPn)
        ensures
            strategy@ == MaxPnView::start(shift_pn, lag_shift),
    {
        OpportunistMaxPn {
            last_max_pn: 0,
            next_max_pn: 0,
            active: false,
            shift_pn,
            lag_shift: if shift_pn.is_some() {
                lag_shift
            } else {
                None
            },
            true_last_recv_pn: 0,
            true_last_pn_oack: 0,
            first_app_pn: None,
            last_increase: 0,
        }
    }

    /// How long to wait before acknowledging: not at all, once a packet has been received since the
    /// last time.
    pub fn timeout(&self) -> (timeout: Option<Duration>)
        ensures
            timeout == if self@.pending() {
                Some(at_once())
            } else {
                None
            },
    {
        if self.true_last_recv_pn != self.true_last_pn_oack {
            Some(Duration { nanos: 0 })
        } else {
            None
        }
    }

    /// Acknowledges what there is to acknowledge on `conn`. Whether the connection takes it or not,
    /// it is not acknowledged again.
    pub fn on_timeout(
        &mut self,
        conn: &mut Connection,
        stream_id: u64,
        now: Instant,
        opening: Result<Stream, Error>,
    ) -> (outcome: Result<(), Error>)
        requires
            old(self)@.fires() ==> old(conn)@.can_insert_oack(
                old(self)@.next_range(),
                stream_id,
                old(self)@.last_max_pn,
                opening,
            ),
        ensures
            outcome == Ok::<(), Error>(()),
            if old(self)@.fires() {
                &&& final(self)@ == old(self)@.after_firing()
                &&& final(conn)@ == old(conn)@.insert_oack(
                    old(self)@.next_range(),
                    now,
                    stream_id,
                    old(self)@.last_max_pn,
                    opening,
                )
            } else {
                &&& final(self)@ == old(self)@
                &&& final(conn)@ == old(conn)@
            },
    {
        // Avoid injecting acknowledgments while there is no first packet number, or nothing beyond
        // it.
        let first = match self.first_app_pn {
            Some(first) => first,
            None => {
                return Ok(());
            },
        };
        if self.next_max_pn < first {
            return Ok(());
        }
        if self.timeout().is_some() {
            let _ = conn.insert_oack_app(
                first..self.next_max_pn,
                now,
                stream_id,
                self.last_max_pn,
                opening,
            );
            if first < self.next_max_pn {
                self.last_max_pn = self.next_max_pn - 1;
            }
            self.true_last_pn_oack = self.true_last_recv_pn;
        }
        Ok(())
    }

    /// Whether the strategy is active.
    pub fn is_active(&self) -> (active: bool)
        ensures
            active == self@.active,
    {
        self.active
    }

    /// Activates or deactivates the strategy.
    pub fn set_active(&mut self, v: bool)
        ensures
            final(self)@ == (MaxPnView { active: v, ..old(self)@ }),
    {
        self.active = v;
    }

    /// Whether `pn` can be received without a packet number getting too large.
    pub fn can_receive(&self, pn: u64) -> (possible: bool)
        ensures
            possible == self@.can_receive(pn),
    {
        if pn == self.true_last_recv_pn {
            return true;
        }
        let first = match self.first_app_pn {
            Some(first) => first,
            None => if pn > 0 {
                pn
            } else {
                return true;
            },
        };
        let past_lag = match self.lag_shift {
            Some(lag) => {
                if lag > u64::MAX - first {
                    return false;
                }
                lag + first < pn
            },
            None => true,
        };
        match self.shift_pn {
            Some(shift) => {
                let increase = if shift < 4_000 {
                    2
                } else {
                    self.last_increase
                };
                !past_lag || pn as u128 + shift as u128 + increase as u128 <= u64::MAX as u128
            },
            None => true,
        }
    }

    /// Takes note of the largest packet number that has been received.
    pub fn on_new_max_recv_pn(&mut self, pn: u64)
        requires
            old(self)@.can_receive(pn),
        ensures
            final(self)@ == old(self)@.after_receiving(pn),
    {
        // Avoid computing twice the same.
        if pn == self.true_last_recv_pn {
            return;
        }
        self.true_last_recv_pn = pn;
        if self.first_app_pn.is_none() && pn > 0 {
            self.first_app_pn = Some(pn);
        }
        let first = match self.first_app_pn {
            Some(first) => first,
            None => {
                return;
            },
        };
        let past_lag = match self.lag_shift {
            Some(lag) => lag + first < pn,
            None => true,
        };
        if let Some(shift) = self.shift_pn {
            if past_lag {
                let new_shift = if shift < 4_000 {
                    shift + 2
                } else {
                    shift + self.last_increase
                };
                self.last_increase = new_shift - shift;
                self.shift_pn = Some(new_shift);
                if self.next_max_pn < pn + new_shift {
                    self.next_max_pn = pn + new_shift;
                }
            }
        }
    }
}

/// Acknowledges a constant range, to see whether a peer checks the acknowledgments that it receives.
pub struct OpportunistConstant {
    /// Range to advertise.
    range: Range<u64>,

    /// Whether a new packet was received since the last acknowledgment.
    new_recv: bool,

    /// First application packet number.
    first_app_pn: Option<u64>,

    /// Lag before acknowledging.
    lag: Option<u64>,

    /// Last maximum packet number we received.
    last_recv_pn: Option<u64>,
}

/// The mathematical content of an [`OpportunistConstant`].
pub ghost struct ConstantView {
    pub range: Range<u64>,
    pub new_recv: bool,
    pub first_app_pn: Option<u64>,
    pub lag: Option<u64>,
    pub last_recv_pn: Option<u64>,
}

impl View for OpportunistConstant {
    type V = ConstantView;

    closed spec fn view(&self) -> ConstantView {
        ConstantView {
            range: self.range,
            new_recv: self.new_recv,
            first_app_pn: self.first_app_pn,
            lag: self.lag,
            last_recv_pn: self.last_recv_pn,
        }
    }
}

/// `a + b`, or the largest packet number if that is too large.
pub open spec fn plus(a: u64, b: u64) -> u64 {
    if a + b <= u64::MAX {
        (a + b) as u64
    } else {
        u64::MAX
    }
}

impl ConstantView {
    /// The strategy after `pn` has been received as the largest packet number. The first packet
    /// number moves the range. A packet calls for an acknowledgment if it is new, and further from the
    /// first one than the lag.
    pub open spec fn after_receiving(self, pn: u64) -> ConstantView {
        let moved = if self.first_app_pn is None {
            ConstantView {
                first_app_pn: Some(pn),
                range: Range { start: plus(self.range.start, pn), end: plus(self.range.end, pn) },
                ..self
            }
        } else {
            self
        };
        let distance = if pn > moved.first_app_pn->0 {
            pn - moved.first_app_pn->0
        } else {
            0
        };
        ConstantView {
            new_recv: self.new_recv || (self.last_recv_pn != Some(pn) && match self.lag {
                Some(lag) => distance > lag,
                None => true,
            }),
            last_recv_pn: Some(pn),
            ..moved
        }
    }
}

impl OpportunistConstant {
    /// Creates a new instance.
    pub fn new(range: Range<u64>, lag: Option<u64>) -> (strategy: OpportunistConstant)
        ensures
            strategy@ == (ConstantView {
                range,
                new_recv: false,
                first_app_pn: None,
                lag,
                last_recv_pn: None,
            }),
    {
        OpportunistConstant {
            range,
            new_recv: false,
            first_app_pn: None,
            lag,
            last_recv_pn: None,
        }
    }

    /// How long to wait before acknowledging: not at all, once a new packet calls for it.
    pub fn timeout(&self) -> (timeout: Option<Duration>)
        ensures
            timeout == if self@.new_recv {
                Some(at_once())
            } else {
                None
            },
    {
        if self.new_recv {
            Some(Duration { nanos: 0 })
        } else {
            None
        }
    }

    /// Acknowledges the range on `conn`, if a new packet calls for it.
    pub fn on_timeout(
        &mut self,
        conn: &mut Connection,
        stream_id: u64,
        now: Instant,
        opening: Result<Stream, Error>,
    ) -> (outcome: Result<(), Error>)
        requires
            old(self)@.new_recv ==> old(conn)@.can_insert_oack(
                old(self)@.range,
                stream_id,
                old(self)@.range.end,
                opening,
            ),
        ensures
            final(self)@ == (ConstantView { new_recv: false, ..old(self)@ }),
            if old(self)@.new_recv {
                &&& final(conn)@ == old(conn)@.insert_oack(
                    old(self)@.range,
                    now,
                    stream_id,
                    old(self)@.range.end,
                    opening,
                )
                &&& outcome == old(conn)@.insert_oack_outcome(
                    old(self)@.range,
                    stream_id,
                    old(self)@.range.end,
                    opening,
                )
            } else {
                &&& final(conn)@ == old(conn)@
                &&& outcome == Ok::<(), Error>(())
            },
    {
        if self.timeout().is_some() {
            self.new_recv = false;
            conn.insert_oack_app(
                self.range.start..self.range.end,
                now,
                stream_id,
                self.range.end,
                opening,
            )
        } else {
            Ok(())
        }
    }

    /// Whether the strategy is active: it always is.
    pub fn is_active(&self) -> (active: bool)
        ensures
            active,
    {
        true
    }

    /// Does nothing: the strategy is always active.
    pub fn set_active(&mut self)
        ensures
            *final(self) == *old(self),
    {
    }

    /// Takes note of the largest packet number that has been received.
    pub fn on_new_max_recv_pn(&mut self, pn: u64)
        ensures
            final(self)@ == old(self)@.after_receiving(pn),
    {
        let first = match self.first_app_pn {
            Some(first) => first,
            None => {
                self.first_app_pn = Some(pn);
                self.range = self.range.start.saturating_add(pn)..self.range.end.saturating_add(pn);
                pn
            },
        };
        let beyond_lag = match self.lag {
            Some(lag) => pn.saturating_sub(first) > lag,
            None => true,
        };
        let is_new = match self.last_recv_pn {
            Some(last) => last != pn,
            None => true,
        };
        if is_new && beyond_lag {
            self.new_recv = true;
        }
        self.last_recv_pn = Some(pn);
    }
}

/// Replays the acknowledgments of a trace.
pub struct OpportunistQlog {
    /// List of all acknowledgments the client has to send.
    oack: Vec<(Duration, Vec<Range<u64>>)>,

    /// Time at which we start sending acknowledgments.
    start_time: Option<Instant>,

    /// Current index in the list.
    idx: usize,

    /// Last maximum packet that we acked.
    last_max_pn: u64,

    /// Whether the strategy is currently active.
    active: bool,
}

/// The mathematical content of an [`OpportunistQlog`].
#[verifier::ext_equal]
pub ghost struct QlogView {
    pub oack: Seq<(Duration, Seq<Range<u64>>)>,
    pub start_time: Option<Instant>,
    pub idx: int,
    pub last_max_pn: u64,
    pub active: bool,
}

impl View for OpportunistQlog {
    type V = QlogView;

    closed spec fn view(&self) -> QlogView {
        QlogView {
            oack: schedule_view(self.oack@),
            start_time: self.start_time,
            idx: self.idx as int,
            last_max_pn: self.last_max_pn,
            active: self.active,
        }
    }
}

/// How far the replay of the ranges of an acknowledgment gets.
pub ghost struct Replay {
    /// The connection when the replay ends.
    pub conn: ConnectionView,

    /// The last packet number of the last range that the connection took.
    pub last_max_pn: u64,

    /// What the replay returns.
    pub outcome: Result<(), Error>,
}

/// What is inserted for a recorded range, on a connection whose packet numbers start at `shift`:
/// everything from the first packet number up to the end of the range.
pub open spec fn range_on(range: Range<u64>, shift: u64) -> Range<u64> {
    Range { start: shift, end: (range.end + shift) as u64 }
}

/// The last packet number that has been acknowledged once `range` is, on a connection whose packet
/// numbers start at `shift`.
pub open spec fn last_acknowledged(range: Range<u64>, shift: u64, last_max_pn: u64) -> u64 {
    if range.end > 0 {
        (range.end + shift - 1) as u64
    } else {
        last_max_pn
    }
}

/// Inserts the recorded ranges one after the other, up to the first one that the connection refuses.
pub open spec fn replay(
    conn: ConnectionView,
    ranges: Seq<Range<u64>>,
    shift: u64,
    now: Instant,
    stream_id: u64,
    last_max_pn: u64,
    opening: Result<Stream, Error>,
) -> Replay
    decreases ranges.len(),
{
    if ranges.len() == 0 {
        Replay { conn, last_max_pn, outcome: Ok(()) }
    } else {
        let range = range_on(ranges[0], shift);
        let next = conn.insert_oack(range, now, stream_id, last_max_pn, opening);
        match conn.insert_oack_outcome(range, stream_id, last_max_pn, opening) {
            Ok(_) => replay(
                next,
                ranges.drop_first(),
                shift,
                now,
                stream_id,
                last_acknowledged(ranges[0], shift, last_max_pn),
                opening,
            ),
            Err(error) => Replay { conn: next, last_max_pn, outcome: Err(error) },
        }
    }
}

/// The replay of the ranges overflows neither a packet number nor a counter of the connection.
pub open spec fn can_replay(
    conn: ConnectionView,
    ranges: Seq<Range<u64>>,
    shift: u64,
    now: Instant,
    stream_id: u64,
    last_max_pn: u64,
    opening: Result<Stream, Error>,
) -> bool
    decreases ranges.len(),
{
    ranges.len() > 0 ==> {
        let range = range_on(ranges[0], shift);
        &&& ranges[0].end + shift <= u64::MAX
        &&& conn.can_insert_oack(range, stream_id, last_max_pn, opening)
        &&& conn.insert_oack_outcome(range, stream_id, last_max_pn, opening) is Ok ==> can_replay(
            conn.insert_oack(range, now, stream_id, last_max_pn, opening),
            ranges.drop_first(),
            shift,
            now,
            stream_id,
            last_acknowledged(ranges[0], shift, last_max_pn),
            opening,
        )
    }
}

/// The first packet number of the application space, or 0 if there is none.
pub open spec fn first_pn(conn: ConnectionView) -> u64 {
    match conn.oack_first_app_pn {
        Some(first) => first,
        None => 0,
    }
}

impl QlogView {
    /// A strategy that has not begun to replay the schedule `oack`.
    pub open spec fn start(oack: Seq<(Duration, Seq<Range<u64>>)>) -> QlogView {
        QlogView { oack, start_time: None, idx: 0, last_max_pn: 0, active: false }
    }

    /// The index is in the list or at its end, and the times come from a trace.
    pub open spec fn valid(self) -> bool {
        &&& 0 <= self.idx <= self.oack.len()
        &&& forall|i: int|
            0 <= i < self.oack.len() ==> (#[trigger] self.oack[i]).0.nanos <= u64::MAX
                + INITIAL_DELAY
    }

    /// The start of the replay: the first time that the timeout of the active strategy is asked for.
    pub open spec fn started(self, now: Instant) -> QlogView {
        if self.active && self.start_time is None {
            QlogView { start_time: Some(now), ..self }
        } else {
            self
        }
    }

    /// How long to wait at `now` for the next acknowledgment: until a microsecond past its time.
    pub open spec fn timeout_at(self, now: Instant) -> Option<Duration> {
        if self.active && self.idx < self.oack.len() {
            let due = self.started(now).start_time->0.nanos + self.oack[self.idx].0.nanos + 1_000;
            Some(
                Duration {
                    nanos: (if due > now.nanos {
                        due - now.nanos
                    } else {
                        0
                    }) as u128,
                },
            )
        } else {
            None
        }
    }

    /// The next acknowledgment is due at `now`.
    pub open spec fn due(self, now: Instant) -> bool {
        self.timeout_at(now) == Some(at_once())
    }

    /// The ranges of the next acknowledgment.
    pub open spec fn next_ranges(self) -> Seq<Range<u64>> {
        self.oack[self.idx].1
    }

    /// The strategy after the replay of the next acknowledgment. If the connection has refused it,
    /// the same one comes next.
    pub open spec fn after_replay(self, replay: Replay) -> QlogView {
        match replay.outcome {
            Ok(_) => QlogView {
                last_max_pn: replay.last_max_pn,
                idx: self.idx + 1,
                active: self.active && self.idx + 1 < self.oack.len(),
                ..self
            },
            Err(_) => QlogView { last_max_pn: replay.last_max_pn, ..self },
        }
    }
}

impl OpportunistQlog {
    #[verifier::type_invariant]
    spec fn well_formed(self) -> bool {
        self@.valid()
    }

    /// Creates a new instance from a trace whose records were made at `nanos`.
    pub fn new(trace: &[u8], nanos: &Vec<u64>) -> (strategy: Result<OpportunistQlog, QlogError>)
        requires
            usable(json_records(trace@), nanos@),
        ensures
            match strategy {
                Ok(strategy) => {
                    &&& first_error(json_records(trace@)) is None
                    &&& strategy@ == QlogView::start(
                        schedule(acks_in(leading(json_records(trace@)), nanos@)),
                    )
                },
                Err(error) => first_error(json_records(trace@)) == Some(error),
            },
    {
        match read_qlog(trace, nanos) {
            Ok(oack) => {
                proof {
                    let acks = acks_in(leading(json_records(trace@)), nanos@);
                    assert forall|i: int| 0 <= i < oack@.len() implies (
                    #[trigger] schedule_view(oack@)[i]).0.nanos <= u64::MAX + INITIAL_DELAY by {
                        assert(schedule_view(oack@).len() == oack@.len());
                        assert(schedule(acks)[i].0 == delay(acks[i].time, acks[0].time));
                    }
                }
                Ok(OpportunistQlog { oack, start_time: None, idx: 0, last_max_pn: 0, active: false })
            },
            Err(error) => Err(error),
        }
    }

    /// How long to wait at `now` for the next acknowledgment. `None` if the strategy is not active,
    /// or has no acknowledgment left.
    pub fn timeout(&mut self, now: Instant) -> (timeout: Option<Duration>)
        ensures
            timeout == old(self)@.timeout_at(now),
            final(self)@ == old(self)@.started(now),
            old(self)@.valid(),
    {
        proof {
            use_type_invariant(&*self);
        }
        if !self.is_active() {
            return None;
        }
        let start_time = match self.start_time {
            Some(start_time) => start_time,
            None => {
                self.start_time = Some(now);
                now
            },
        };
        if self.idx >= self.oack.len() {
            return None;
        }
        let next_timeout = self.oack[self.idx].0;
        let due: u128 = start_time.nanos as u128 + next_timeout.nanos + 1_000;
        assert(self@.oack[self.idx as int].0 == next_timeout);
        if due > now.nanos as u128 {
            Some(Duration { nanos: due - now.nanos as u128 })
        } else {
            Some(Duration { nanos: 0 })
        }
    }

    /// Replays the next acknowledgment on `conn` as received at `now`, if it was due at
    /// `checked_at`. After the last one the strategy is not active any more.
    pub fn on_timeout(
        &mut self,
        conn: &mut Connection,
        stream_id: u64,
        checked_at: Instant,
        now: Instant,
        opening: Result<Stream, Error>,
    ) -> (outcome: Result<(), Error>)
        requires
            old(self)@.due(checked_at) ==> can_replay(
                old(conn)@,
                old(self)@.next_ranges(),
                first_pn(old(conn)@),
                now,
                stream_id,
                old(self)@.last_max_pn,
                opening,
            ),
        ensures
            if old(self)@.due(checked_at) {
                let replay = replay(
                    old(conn)@,
                    old(self)@.next_ranges(),
                    first_pn(old(conn)@),
                    now,
                    stream_id,
                    old(self)@.last_max_pn,
                    opening,
                );
                &&& final(self)@ == old(self)@.started(checked_at).after_replay(replay)
                &&& final(conn)@ == replay.conn
                &&& outcome == replay.outcome
            } else {
                &&& final(self)@ == old(self)@.started(checked_at)
                &&& final(conn)@ == old(conn)@
                &&& outcome == Ok::<(), Error>(())
            },
    {
        let due = match self.timeout(checked_at) {
            Some(timeout) => timeout.nanos == 0,
            None => false,
        };
        if !due {
            return Ok(());
        }
        proof {
            use_type_invariant(&*self);
        }
        let ghost started = self@;
        let ghost ranges = started.next_ranges();
        let ghost conn0 = conn@;
        let ghost whole = replay(
            conn0,
            ranges,
            first_pn(conn0),
            now,
            stream_id,
            started.last_max_pn,
            opening,
        );
        // The application space might start at a random packet number.
        let shift = conn.oack_get_first_pn();
        let mut i: usize = 0;
        let count = self.oack[self.idx].1.len();
        assert(ranges.skip(0) =~= ranges);
        while i < count
            invariant
                self.idx < self.oack@.len(),
                self@ == (QlogView { last_max_pn: self.last_max_pn, ..started }),
                ranges == started.next_ranges(),
                ranges == self.oack@[self.idx as int].1@,
                count == ranges.len(),
                i <= count,
                shift == first_pn(conn0),
                whole == replay(
                    conn@,
                    ranges.skip(i as int),
                    shift,
                    now,
                    stream_id,
                    self.last_max_pn,
                    opening,
                ),
                can_replay(
                    conn@,
                    ranges.skip(i as int),
                    shift,
                    now,
                    stream_id,
                    self.last_max_pn,
                    opening,
                ),
                old(self)@.due(checked_at),
                started == old(self)@.started(checked_at),
                conn0 == old(conn)@,
                whole == replay(
                    conn0,
                    ranges,
                    first_pn(conn0),
                    now,
                    stream_id,
                    started.last_max_pn,
                    opening,
                ),
            decreases count - i,
        {
            let end = self.oack[self.idx].1[i].end;
            assert(ranges.skip(i as int)[0] == ranges[i as int]);
            assert(ranges.skip(i as int).drop_first() =~= ranges.skip(i + 1));
            match conn.insert_oack_app(
                shift..end + shift,
                now,
                stream_id,
                self.last_max_pn,
                opening,
            ) {
                Ok(_) => {},
                Err(error) => {
                    return Err(error);
                },
            }
            proof {
                use_type_invariant(&*self);
            }
            if end > 0 {
                self.last_max_pn = end + shift - 1;
            }
            i = i + 1;
        }
        proof {
            use_type_invariant(&*self);
        }
        let len = self.oack.len();
        self.idx = self.idx + 1;
        if self.idx >= len {
            self.set_active(false);
        }
        Ok(())
    }

    /// Activates or deactivates the strategy.
    pub fn set_active(&mut self, v: bool)
        ensures
            final(self)@ == (QlogView { active: v, ..old(self)@ }),
    {
        proof {
            use_type_invariant(&*self);
        }
        self.active = v;
    }

    /// Whether the strategy is active.
    pub fn is_active(&self) -> (active: bool)
        ensures
            active == self@.active,
    {
        self.active
    }
}

/// A strategy for opportunistic acknowledgments.
pub enum OpportunistAck {
    /// Using a qlog trace.
    QLOG(OpportunistQlog),

    /// Using the maximum received packet number, potentially shifted with some lag.
    MaxPn(OpportunistMaxPn),

    /// Constant range.
    Constant(OpportunistConstant),
}

/// The mathematical content of an [`OpportunistAck`].
pub ghost enum AckView {
    QLOG(QlogView),
    MaxPn(MaxPnView),
    Constant(ConstantView),
}

impl View for OpportunistAck {
    type V = AckView;

    open spec fn view(&self) -> AckView {
        match *self {
            OpportunistAck::QLOG(q) => AckView::QLOG(q@),
            OpportunistAck::MaxPn(m) => AckView::MaxPn(m@),
            OpportunistAck::Constant(c) => AckView::Constant(c@),
        }
    }
}

/// `strategy` is what a strategy for the trace `qlog`, or for no trace, starts as.
pub open spec fn is_created(
    strategy: Result<OpportunistAck, QlogError>,
    qlog: Option<&[u8]>,
    nanos: Seq<u64>,
    shift_pn: Option<u64>,
    lag_shift: Option<u64>,
) -> bool {
    match qlog {
        Some(trace) => match strategy {
            Ok(strategy) => {
                &&& first_error(json_records(trace@)) is None
                &&& strategy@ == AckView::QLOG(
                    QlogView::start(schedule(acks_in(leading(json_records(trace@)), nanos))),
                )
            },
            Err(error) => first_error(json_records(trace@)) == Some(error),
        },
        None => strategy matches Ok(strategy) && strategy@ == AckView::MaxPn(
            MaxPnView::start(shift_pn, lag_shift),
        ),
    }
}

/// A strategy and a connection after the strategy has been told that its time has come.
pub ghost struct Firing {
    pub strategy: AckView,
    pub conn: ConnectionView,
    pub outcome: Result<(), Error>,
}

impl AckView {
    /// How long the strategy waits at `now`.
    pub open spec fn timeout_at(self, now: Instant) -> Option<Duration> {
        match self {
            AckView::QLOG(q) => q.timeout_at(now),
            AckView::MaxPn(m) => if m.pending() {
                Some(at_once())
            } else {
                None
            },
            AckView::Constant(c) => if c.new_recv {
                Some(at_once())
            } else {
                None
            },
        }
    }

    /// The strategy after it has been asked at `now` how long it waits.
    pub open spec fn after_timeout(self, now: Instant) -> AckView {
        match self {
            AckView::QLOG(q) => AckView::QLOG(q.started(now)),
            AckView::MaxPn(_) => self,
            AckView::Constant(_) => self,
        }
    }

    /// What comes of telling the strategy that its time has come.
    pub open spec fn fire(
        self,
        conn: ConnectionView,
        stream_id: u64,
        checked_at: Instant,
        now: Instant,
        opening: Result<Stream, Error>,
    ) -> Firing {
        let idle = Firing { strategy: self.after_timeout(checked_at), conn, outcome: Ok(()) };
        match self {
            AckView::QLOG(q) => if q.due(checked_at) {
                let replay = replay(
                    conn,
                    q.next_ranges(),
                    first_pn(conn),
                    now,
                    stream_id,
                    q.last_max_pn,
                    opening,
                );
                Firing {
                    strategy: AckView::QLOG(q.started(checked_at).after_replay(replay)),
                    conn: replay.conn,
                    outcome: replay.outcome,
                }
            } else {
                idle
            },
            AckView::MaxPn(m) => if m.fires() {
                Firing {
                    strategy: AckView::MaxPn(m.after_firing()),
                    conn: conn.insert_oack(
                        m.next_range(),
                        now,
                        stream_id,
                        m.last_max_pn,
                        opening,
                    ),
                    outcome: Ok(()),
                }
            } else {
                idle
            },
            AckView::Constant(c) => if c.new_recv {
                Firing {
                    strategy: AckView::Constant(ConstantView { new_recv: false, ..c }),
                    conn: conn.insert_oack(c.range, now, stream_id, c.range.end, opening),
                    outcome: conn.insert_oack_outcome(c.range, stream_id, c.range.end, opening),
                }
            } else {
                idle
            },
        }
    }

    /// Telling the strategy that its time has come overflows neither a packet number nor a counter
    /// of the connection.
    pub open spec fn can_fire(
        self,
        conn: ConnectionView,
        stream_id: u64,
        checked_at: Instant,
        now: Instant,
        opening: Result<Stream, Error>,
    ) -> bool {
        match self {
            AckView::QLOG(q) => q.due(checked_at) ==> can_replay(
                conn,
                q.next_ranges(),
                first_pn(conn),
                now,
                stream_id,
                q.last_max_pn,
                opening,
            ),
            AckView::MaxPn(m) => m.fires() ==> conn.can_insert_oack(
                m.next_range(),
                stream_id,
                m.last_max_pn,
                opening,
            ),
            AckView::Constant(c) => c.new_recv ==> conn.can_insert_oack(
                c.range,
                stream_id,
                c.range.end,
                opening,
            ),
        }
    }

    /// Whether the strategy is active.
    pub open spec fn active(self) -> bool {
        match self {
            AckView::QLOG(q) => q.active,
            AckView::MaxPn(m) => m.active,
            AckView::Constant(_) => true,
        }
    }

    /// The strategy after it has been activated or deactivated. One with a constant range is always
    /// active.
    pub open spec fn with_active(self, v: bool) -> AckView {
        match self {
            AckView::QLOG(q) => AckView::QLOG(QlogView { active: v, ..q }),
            AckView::MaxPn(m) => AckView::MaxPn(MaxPnView { active: v, ..m }),
            AckView::Constant(_) => self,
        }
    }

    /// The strategy after `pn` has been received as the largest packet number.
    pub open spec fn after_receiving(self, pn: u64) -> AckView {
        match self {
            AckView::QLOG(_) => self,
            AckView::MaxPn(m) => AckView::MaxPn(m.after_receiving(pn)),
            AckView::Constant(c) => AckView::Constant(c.after_receiving(pn)),
        }
    }

    /// No packet number gets too large when `pn` is received.
    pub open spec fn can_receive(self, pn: u64) -> bool {
        match self {
            AckView::MaxPn(m) => m.can_receive(pn),
            _ => true,
        }
    }
}

impl OpportunistQlog {
    /// Whether the next acknowledgment is due at `now`.
    fn is_due(&self, now: Instant) -> (due: bool)
        ensures
            due == self@.due(now),
    {
        proof {
            use_type_invariant(self);
        }
        if !self.active || self.idx >= self.oack.len() {
            return false;
        }
        let start_time = match self.start_time {
            Some(start_time) => start_time,
            None => now,
        };
        let next_timeout = self.oack[self.idx].0;
        assert(self@.oack[self.idx as int].0 == next_timeout);
        start_time.nanos as u128 + next_timeout.nanos + 1_000 <= now.nanos as u128
    }

    /// Whether replaying the next acknowledgment on `conn` overflows neither a packet number nor a
    /// counter of the connection.
    fn can_replay(
        &self,
        conn: &Connection,
        stream_id: u64,
        opening: Result<Stream, Error>,
        Ghost(now): Ghost<Instant>,
    ) -> (possible: bool)
        requires
            self@.idx < self@.oack.len(),
        ensures
            possible == can_replay(
                conn@,
                self@.next_ranges(),
                first_pn(conn@),
                now,
                stream_id,
                self@.last_max_pn,
                opening,
            ),
    {
        proof {
            use_type_invariant(self);
        }
        let shift = conn.oack_get_first_pn();
        let ranges = &self.oack[self.idx].1;
        assert(self@.next_ranges() == ranges@);
        let ghost whole = can_replay(
            conn@,
            ranges@,
            shift,
            now,
            stream_id,
            self@.last_max_pn,
            opening,
        );
        let mut ledger = conn.ledger(stream_id, opening);
        let ghost mut reached = conn@;
        let mut last_max_pn = self.last_max_pn;
        let mut i: usize = 0;
        assert(ranges@.skip(0) =~= ranges@);
        while i < ranges.len()
            invariant
                i <= ranges@.len(),
                ledger == reached.ledger(stream_id, opening),
                whole == can_replay(
                    reached,
                    ranges@.skip(i as int),
                    shift,
                    now,
                    stream_id,
                    last_max_pn,
                    opening,
                ),
                whole == can_replay(
                    conn@,
                    self@.next_ranges(),
                    first_pn(conn@),
                    now,
                    stream_id,
                    self@.last_max_pn,
                    opening,
                ),
            decreases ranges@.len() - i,
        {
            let end = ranges[i].end;
            assert(ranges@.skip(i as int)[0] == ranges@[i as int]);
            assert(ranges@.skip(i as int).drop_first() =~= ranges@.skip(i + 1));
            if end > u64::MAX - shift {
                return false;
            }
            let range = shift..end + shift;
            match ledger.enter(
                &range,
                last_max_pn,
                Ghost(reached),
                Ghost(now),
                Ghost(stream_id),
                Ghost(opening),
            ) {
                Some(Ok(_)) => {},
                Some(Err(_)) => {
                    return true;
                },
                None => {
                    return false;
                },
            }
            proof {
                reached = reached.insert_oack(range, now, stream_id, last_max_pn, opening);
            }
            if end > 0 {
                last_max_pn = end + shift - 1;
            }
            i = i + 1;
        }
        true
    }
}

impl OpportunistAck {
    /// Whether telling the strategy at `checked_at` that its time has come overflows neither a packet
    /// number nor a counter of `conn`.
    pub fn can_fire(
        &self,
        conn: &Connection,
        stream_id: u64,
        checked_at: Instant,
        now: Instant,
        opening: Result<Stream, Error>,
    ) -> (possible: bool)
        ensures
            possible == self@.can_fire(conn@, stream_id, checked_at, now, opening),
    {
        match self {
            OpportunistAck::QLOG(q) => !q.is_due(checked_at) || q.can_replay(
                conn,
                stream_id,
                opening,
                Ghost(now),
            ),
            OpportunistAck::MaxPn(m) => match m.first_app_pn {
                Some(first) => m.timeout().is_none() || m.next_max_pn < first
                    || conn.can_insert_oack(
                    first..m.next_max_pn,
                    stream_id,
                    m.last_max_pn,
                    opening,
                ),
                None => true,
            },
            OpportunistAck::Constant(c) => !c.new_recv || conn.can_insert_oack(
                c.range.start..c.range.end,
                stream_id,
                c.range.end,
                opening,
            ),
        }
    }

    /// Creates a strategy: one that replays the trace `qlog`, whose records were made at `nanos`, if
    /// there is one, and else one that uses the maximum received packet number.
    pub fn new(
        qlog: Option<&[u8]>,
        nanos: &Vec<u64>,
        shift_pn: Option<u64>,
        lag_shift: Option<u64>,
    ) -> (strategy: Result<OpportunistAck, QlogError>)
        requires
            qlog matches Some(trace) ==> usable(json_records(trace@), nanos@),
        ensures
            is_created(strategy, qlog, nanos@, shift_pn, lag_shift),
    {
        match qlog {
            Some(trace) => match OpportunistQlog::new(trace, nanos) {
                Ok(strategy) => Ok(OpportunistAck::QLOG(strategy)),
                Err(error) => Err(error),
            },
            None => Ok(OpportunistAck::MaxPn(OpportunistMaxPn::new(shift_pn, lag_shift))),
        }
    }

    /// Creates a strategy as [`OpportunistAck::new`] does. `None` if no schedule can be made from the
    /// trace.
    pub fn try_new(
        qlog: Option<&[u8]>,
        nanos: &Vec<u64>,
        shift_pn: Option<u64>,
        lag_shift: Option<u64>,
    ) -> (strategy: Option<Result<OpportunistAck, QlogError>>)
        ensures
            match strategy {
                Some(strategy) => {
                    &&& qlog matches Some(trace) ==> usable(json_records(trace@), nanos@)
                    &&& is_created(strategy, qlog, nanos@, shift_pn, lag_shift)
                },
                None => qlog matches Some(trace) && !usable(json_records(trace@), nanos@),
            },
    {
        if let Some(trace) = qlog {
            if !is_usable_trace(trace, nanos) {
                return None;
            }
        }
        Some(OpportunistAck::new(qlog, nanos, shift_pn, lag_shift))
    }

    /// How long to wait at `now` before acknowledging. `None` if there is nothing to acknowledge.
    pub fn timeout(&mut self, now: Instant) -> (timeout: Option<Duration>)
        ensures
            timeout == old(self)@.timeout_at(now),
            final(self)@ == old(self)@.after_timeout(now),
    {
        match self {
            OpportunistAck::QLOG(q) => q.timeout(now),
            OpportunistAck::MaxPn(m) => m.timeout(),
            OpportunistAck::Constant(c) => c.timeout(),
        }
    }

    /// Acknowledges on `conn` as received at `now` what was due at `checked_at`.
    pub fn on_timeout(
        &mut self,
        conn: &mut Connection,
        stream_id: u64,
        checked_at: Instant,
        now: Instant,
        opening: Result<Stream, Error>,
    ) -> (outcome: Result<(), Error>)
        requires
            old(self)@.can_fire(old(conn)@, stream_id, checked_at, now, opening),
        ensures
            ({
                let firing = old(self)@.fire(old(conn)@, stream_id, checked_at, now, opening);
                &&& final(self)@ == firing.strategy
                &&& final(conn)@ == firing.conn
                &&& outcome == firing.outcome
            }),
    {
        match self {
            OpportunistAck::QLOG(q) => q.on_timeout(conn, stream_id, checked_at, now, opening),
            OpportunistAck::MaxPn(m) => m.on_timeout(conn, stream_id, now, opening),
            OpportunistAck::Constant(c) => c.on_timeout(conn, stream_id, now, opening),
        }
    }

    /// Whether the strategy is active.
    pub fn is_active(&self) -> (active: bool)
        ensures
            active == self@.active(),
    {
        match self {
            OpportunistAck::QLOG(q) => q.is_active(),
            OpportunistAck::MaxPn(m) => m.is_active(),
            OpportunistAck::Constant(c) => c.is_active(),
        }
    }

    /// Activates or deactivates the strategy.
    pub fn set_active(&mut self, v: bool)
        ensures
            final(self)@ == old(self)@.with_active(v),
    {
        match self {
            OpportunistAck::QLOG(q) => q.set_active(v),
            OpportunistAck::MaxPn(m) => m.set_active(v),
            OpportunistAck::Constant(c) => c.set_active(),
        }
    }

    /// Whether `pn` can be received without a packet number getting too large.
    pub fn can_receive(&self, pn: u64) -> (possible: bool)
        ensures
            possible == self@.can_receive(pn),
    {
        match self {
            OpportunistAck::MaxPn(m) => m.can_receive(pn),
            _ => true,
        }
    }

    /// Takes note of the largest packet number that has been received.
    pub fn on_new_max_recv_pn(&mut self, pn: u64)
        requires
            old(self)@.can_receive(pn),
        ensures
            final(self)@ == old(self)@.after_receiving(pn),
    {
        match self {
            OpportunistAck::QLOG(_) => (),
            OpportunistAck::MaxPn(m) => m.on_new_max_recv_pn(pn),
            OpportunistAck::Constant(c) => c.on_new_max_recv_pn(pn),
        }
    }
}

} // verus!
