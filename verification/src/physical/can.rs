//! Classic CAN support: the verified transmit and receive frame queues.
//!
//! The controller front end itself (bitrate profiles, sample points) is
//! configured with fractional values that have no place in the verified
//! stack; it lives outside the library and uses these queues.

use crate::error::AutomotiveError;
use crate::types::{Frame, FrameView};
use vstd::prelude::*;

verus! {

/// Capacity of the transmit queue.
pub const TX_QUEUE_SIZE: usize = 32;

/// Capacity of the receive queue.
pub const RX_QUEUE_SIZE: usize = 128;

/// Bounded FIFO of frames awaiting transmission.
pub struct TxQueue {
    frames: Vec<Frame>,
}

impl View for TxQueue {
    type V = Seq<FrameView>;

    closed spec fn view(&self) -> Seq<FrameView> {
        self.frames@.map_values(|f: Frame| f@)
    }
}

impl TxQueue {
    /// An empty transmit queue.
    pub fn new() -> (r: Self)
        ensures
            r@ == Seq::<FrameView>::empty(),
    {
        let r = TxQueue { frames: Vec::new() };
        proof {
            assert(r@ =~= Seq::<FrameView>::empty());
        }
        r
    }

    /// Appends a frame; rejected with `BufferOverflow` when the queue is
    /// full.
    pub fn push(&mut self, frame: Frame) -> (r: core::result::Result<(), AutomotiveError>)
        ensures
            old(self)@.len() < TX_QUEUE_SIZE ==> r is Ok && final(self)@ == old(self)@.push(frame@),
            old(self)@.len() >= TX_QUEUE_SIZE ==> (r matches Err(AutomotiveError::BufferOverflow)
                && final(self)@ == old(self)@),
    {
        if self.frames.len() >= TX_QUEUE_SIZE {
            return Err(AutomotiveError::BufferOverflow);
        }
        self.frames.push(frame);
        proof {
            assert(self@ =~= old(self)@.push(frame@));
        }
        Ok(())
    }

    /// Removes and returns the oldest frame, or `None` when empty.
    pub fn pop(&mut self) -> (r: Option<Frame>)
        ensures
            old(self)@.len() == 0 ==> r is None && final(self)@ == old(self)@,
            old(self)@.len() > 0 ==> (r matches Some(f) && f@ == old(self)@[0]
                && final(self)@ == old(self)@.skip(1)),
    {
        if self.frames.len() == 0 {
            return None;
        }
        let f = self.frames.remove(0);
        proof {
            assert(self@ =~= old(self)@.skip(1));
        }
        Some(f)
    }

    /// Number of frames waiting in the queue.
    pub fn len(&self) -> (n: usize)
        ensures
            n == self@.len(),
    {
        self.frames.len()
    }
}

/// Bounded FIFO of frames received from the controller.
pub struct RxQueue {
    frames: Vec<Frame>,
}

impl View for RxQueue {
    type V = Seq<FrameView>;

    closed spec fn view(&self) -> Seq<FrameView> {
        self.frames@.map_values(|f: Frame| f@)
    }
}

impl RxQueue {
    /// An empty receive queue.
    pub fn new() -> (r: Self)
        ensures
            r@ == Seq::<FrameView>::empty(),
    {
        let r = RxQueue { frames: Vec::new() };
        proof {
            assert(r@ =~= Seq::<FrameView>::empty());
        }
        r
    }

    /// Appends a frame; rejected with `BufferOverflow` when the queue is
    /// full.
    pub fn push(&mut self, frame: Frame) -> (r: core::result::Result<(), AutomotiveError>)
        ensures
            old(self)@.len() < RX_QUEUE_SIZE ==> r is Ok && final(self)@ == old(self)@.push(frame@),
            old(self)@.len() >= RX_QUEUE_SIZE ==> (r matches Err(AutomotiveError::BufferOverflow)
                && final(self)@ == old(self)@),
    {
        if self.frames.len() >= RX_QUEUE_SIZE {
            return Err(AutomotiveError::BufferOverflow);
        }
        self.frames.push(frame);
        proof {
            assert(self@ =~= old(self)@.push(frame@));
        }
        Ok(())
    }

    /// Removes and returns the oldest frame, or `None` when empty.
    pub fn pop(&mut self) -> (r: Option<Frame>)
        ensures
            old(self)@.len() == 0 ==> r is None && final(self)@ == old(self)@,
            old(self)@.len() > 0 ==> (r matches Some(f) && f@ == old(self)@[0]
                && final(self)@ == old(self)@.skip(1)),
    {
        if self.frames.len() == 0 {
            return None;
        }
        let f = self.frames.remove(0);
        proof {
            assert(self@ =~= old(self)@.skip(1));
        }
        Some(f)
    }

    /// Number of frames waiting in the queue.
    pub fn len(&self) -> (n: usize)
        ensures
            n == self@.len(),
    {
        self.frames.len()
    }
}

} // verus!
