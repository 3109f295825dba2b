//! Flow control of the received data.
use vstd::prelude::*;

verus! {

/// How much data the peer may send, and how much of it has been consumed.
#[derive(Clone, Copy, Debug, PartialEq, Eq, Structural)]
pub struct FlowControl {
    /// The bytes consumed.
    pub consumed: u64,

    /// The limit advertised to the peer.
    pub max_data: u64,

    /// The receive window.
    pub window: u64,
}

impl FlowControl {
    /// The flow control after `bytes` more have been consumed.
    pub open spec fn after_consuming(self, bytes: int) -> FlowControl {
        FlowControl { consumed: (self.consumed + bytes) as u64, ..self }
    }

    /// Less than half of the window is left before the limit.
    pub open spec fn running_low(self) -> bool {
        self.max_data - self.consumed < self.window as int / 2
    }

    /// Records that `bytes` more have been consumed.
    pub fn add_consumed(&mut self, bytes: u64)
        requires
            old(self).consumed + bytes <= u64::MAX,
        ensures
            *final(self) == old(self).after_consuming(bytes as int),
    {
        self.consumed = self.consumed + bytes;
    }

    /// Whether a higher limit has to be advertised: less than half of the window is left.
    pub fn should_update_max_data(&self) -> (update: bool)
        ensures
            update == self.running_low(),
    {
        if self.consumed > self.max_data {
            true
        } else {
            self.max_data - self.consumed < self.window / 2
        }
    }
}

/// The receiving side of a stream.
#[derive(Clone, Copy, Debug, PartialEq, Eq, Structural)]
pub struct Stream {
    /// Whether received data is dropped instead of being queued for the application.
    pub drain: bool,

    /// The final size of the stream, once it is known.
    pub fin_off: Option<u64>,

    /// The flow control of the stream.
    pub flow_control: FlowControl,
}

impl Stream {
    /// The stream after `bytes` more of it have been consumed.
    pub open spec fn after_consuming(self, bytes: int) -> Stream {
        Stream { flow_control: self.flow_control.after_consuming(bytes), ..self }
    }

    /// More data can come, and the window for it is running low.
    pub open spec fn spec_almost_full(self) -> bool {
        self.fin_off is None && self.flow_control.running_low()
    }

    /// Whether received data is dropped instead of being queued for the application.
    pub fn is_draining(&self) -> (draining: bool)
        ensures
            draining == self.drain,
    {
        self.drain
    }

    /// Records that `bytes` more have been consumed.
    pub fn oack_add_consumed(&mut self, bytes: u64)
        requires
            old(self).flow_control.consumed + bytes <= u64::MAX,
        ensures
            *final(self) == old(self).after_consuming(bytes as int),
    {
        self.flow_control.add_consumed(bytes);
    }

    /// Whether a higher limit has to be advertised for the stream.
    pub fn almost_full(&self) -> (full: bool)
        ensures
            full == self.spec_almost_full(),
    {
        self.fin_off.is_none() && self.flow_control.should_update_max_data()
    }
}

} // verus!
