//! CAN-FD support: the verified transmit, receive and transmit-event queues.
//!
//! As with classic CAN, the controller front end (dual bitrates, sample
//! points) is configured with fractional values that have no place in the
//! verified stack; it lives outside the library and uses these queues.

use crate::error::AutomotiveError;
use crate::types::{Frame, FrameView};
use vstd::prelude::*;

verus! {

/// Capacity of the transmit queue.
pub const TX_QUEUE_SIZE: usize = 32;

/// Capacity of the receive queue.
pub const RX_QUEUE_SIZE: usize = 128;

/// Capacity of the transmit-event queue.
pub const TX_EVENT_QUEUE_SIZE: usize = 32;

/// Record of one completed transmission.
#[derive(Debug)]
pub struct TxEvent {
    /// Controller timestamp of the transmission.
    pub timestamp: u32,
    /// The frame that was transmitted.
    pub frame: Frame,
    /// Sequence number of the transmission.
    pub sequence: u32,
}

/// Mathematical model of a transmit event.
pub struct TxEventView {
    pub timestamp: u32,
    pub frame: FrameView,
    pub sequence: u32,
}

impl View for TxEvent {
    type V = TxEventView;

    open spec fn view(&self) -> TxEventView {
        TxEventView { timestamp: self.timestamp, frame: self.frame@, sequence: self.sequence }
    }
}

/// Bounded FIFO of frames awaiting transmission.
pub struct TxQueue {
    frames: Vec<Frame>,
}

impl View for TxQueue {
    type V = Seq<FrameView>;

    closed spec fn view(&self) -> Seq<FrameView> {
        self.frames@.map_values(|f: Frame| f@)
    }
}

impl TxQueue {
    /// An empty transmit queue.
    pub fn new() -> (r: Self)
        ensures
            r@ == Seq::<FrameView>::empty(),
    {
        let r = TxQueue { frames: Vec::new() };
        proof {
            assert(r@ =~= Seq::<FrameView>::empty());
        }
        r
    }

    /// Appends a frame; rejected with `BufferOverflow` when the queue is
    /// full.
    pub fn push(&mut self, frame: Frame) -> (r: core::result::Result<(), AutomotiveError>)
        ensures
            old(self)@.len() < TX_QUEUE_SIZE ==> r is Ok && final(self)@ == old(self)@.push(frame@),
            old(self)@.len() >= TX_QUEUE_SIZE ==> (r matches Err(AutomotiveError::BufferOverflow)
                && final(self)@ == old(self)@),
    {
        if self.frames.len() >= TX_QUEUE_SIZE {
            return Err(AutomotiveError::BufferOverflow);
        }
        self.frames.push(frame);
        proof {
            assert(self@ =~= old(self)@.push(frame@));
        }
        Ok(())
    }

    /// Removes and returns the oldest frame, or `None` when empty.
    pub fn pop(&mut self) -> (r: Option<Frame>)
        ensures
            old(self)@.len() == 0 ==> r is None && final(self)@ == old(self)@,
            old(self)@.len() > 0 ==> (r matches Some(f) && f@ == old(self)@[0]
                && final(self)@ == old(self)@.skip(1)),
    {
        if self.frames.len() == 0 {
            return None;
        }
        let f = self.frames.remove(0);
        proof {
            assert(self@ =~= old(self)@.skip(1));
        }
        Some(f)
    }

    /// Number of frames waiting in the queue.
    pub fn len(&self) -> (n: usize)
        ensures
            n == self@.len(),
    {
        self.frames.len()
    }
}

/// Bounded FIFO of frames received from the controller.
pub struct RxQueue {
    frames: Vec<Frame>,
}

impl View for RxQueue {
    type V = Seq<FrameView>;

    closed spec fn view(&self) -> Seq<FrameView> {
        self.frames@.map_values(|f: Frame| f@)
    }
}

impl RxQueue {
    /// An empty receive queue.
    pub fn new() -> (r: Self)
        ensures
            r@ == Seq::<FrameView>::empty(),
    {
        let r = RxQueue { frames: Vec::new() };
        proof {
            assert(r@ =~= Seq::<FrameView>::empty());
        }
        r
    }

    /// Appends a frame; rejected with `BufferOverflow` when the queue is
    /// full.
    pub fn push(&mut self, frame: Frame) -> (r: core::result::Result<(), AutomotiveError>)
        ensures
            old(self)@.len() < RX_QUEUE_SIZE ==> r is Ok && final(self)@ == old(self)@.push(frame@),
            old(self)@.len() >= RX_QUEUE_SIZE ==> (r matches Err(AutomotiveError::BufferOverflow)
                && final(self)@ == old(self)@),
    {
        if self.frames.len() >= RX_QUEUE_SIZE {
            return Err(AutomotiveError::BufferOverflow);
        }
        self.frames.push(frame);
        proof {
            assert(self@ =~= old(self)@.push(frame@));
        }
        Ok(())
    }

    /// Removes and returns the oldest frame, or `None` when empty.
    pub fn pop(&mut self) -> (r: Option<Frame>)
        ensures
            old(self)@.len() == 0 ==> r is None && final(self)@ == old(self)@,
            old(self)@.len() > 0 ==> (r matches Some(f) && f@ == old(self)@[0]
                && final(self)@ == old(self)@.skip(1)),
    {
        if self.frames.len() == 0 {
            return None;
        }
        let f = self.frames.remove(0);
        proof {
            assert(self@ =~= old(self)@.skip(1));
        }
        Some(f)
    }

    /// Number of frames waiting in the queue.
    pub fn len(&self) -> (n: usize)
        ensures
            n == self@.len(),
    {
        self.frames.len()
    }
}

/// Bounded FIFO of transmit events reported by the controller.
pub struct TxEventQueue {
    events: Vec<TxEvent>,
}

impl View for TxEventQueue {
    type V = Seq<TxEventView>;

    closed spec fn view(&self) -> Seq<TxEventView> {
        self.events@.map_values(|e: TxEvent| e@)
    }
}

impl TxEventQueue {
    /// An empty transmit-event queue.
    pub fn new() -> (r: Self)
        ensures
            r@ == Seq::<TxEventView>::empty(),
    {
        let r = TxEventQueue { events: Vec::new() };
        proof {
            assert(r@ =~= Seq::<TxEventView>::empty());
        }
        r
    }

    /// Appends an event; rejected with `BufferOverflow` when the queue is
    /// full.
    pub fn push(&mut self, event: TxEvent) -> (r: core::result::Result<(), AutomotiveError>)
        ensures
            old(self)@.len() < TX_EVENT_QUEUE_SIZE ==> r is Ok && final(self)@ == old(self)@.push(event@),
            old(self)@.len() >= TX_EVENT_QUEUE_SIZE ==> (r matches Err(
                AutomotiveError::BufferOverflow,
            ) && final(self)@ == old(self)@),
    {
        if self.events.len() >= TX_EVENT_QUEUE_SIZE {
            return Err(AutomotiveError::BufferOverflow);
        }
        self.events.push(event);
        proof {
            assert(self@ =~= old(self)@.push(event@));
        }
        Ok(())
    }

    /// Removes and returns the oldest event, or `None` when empty.
    pub fn pop(&mut self) -> (r: Option<TxEvent>)
        ensures
            old(self)@.len() == 0 ==> r is None && final(self)@ == old(self)@,
            old(self)@.len() > 0 ==> (r matches Some(e) && e@ == old(self)@[0]
                && final(self)@ == old(self)@.skip(1)),
    {
        if self.events.len() == 0 {
            return None;
        }
        let e = self.events.remove(0);
        proof {
            assert(self@ =~= old(self)@.skip(1));
        }
        Some(e)
    }

    /// Number of events waiting in the queue.
    pub fn len(&self) -> (n: usize)
        ensures
            n == self@.len(),
    {
        self.events.len()
    }
}

} // verus!
