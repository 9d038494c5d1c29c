//! A mock physical layer for exercising the LIN transport without hardware.
//!
//! The mock remembers the last frame written and answers each read from a
//! fixed behavior: echo the last written frame, fail, or stay silent.

use crate::error::AutomotiveError;
use crate::physical::PhysicalLayer;
use crate::types::{Frame, FrameView};
use vstd::prelude::*;

verus! {

/// How the mock answers `receive_frame`.
#[derive(Debug, Clone, Copy, PartialEq, Eq, Structural)]
pub enum MockLinBehavior {
    /// Echo the last frame written.
    Echo,
    /// Fail every read with `NotInitialized`.
    Fail,
    /// Answer nothing (`NotInitialized` until a behavior is set).
    Silent,
}

/// Mock physical layer with a fixed response behavior.
pub struct MockLinPhysical {
    behavior: MockLinBehavior,
    last_sent: Option<Frame>,
    sent_log: Ghost<Seq<FrameView>>,
    rcvd_log: Ghost<Seq<FrameView>>,
}

impl MockLinPhysical {
    /// Creates a mock with the given response behavior.
    pub fn new(behavior: MockLinBehavior) -> (r: Self)
        ensures
            r.frames_sent() == Seq::<FrameView>::empty(),
            r.frames_rcvd() == Seq::<FrameView>::empty(),
            r.spec_last_sent() is None,
    {
        MockLinPhysical {
            behavior,
            last_sent: None,
            sent_log: Ghost(Seq::empty()),
            rcvd_log: Ghost(Seq::empty()),
        }
    }

    /// Creates a mock that echoes every written frame back.
    pub fn new_echo() -> (r: Self)
        ensures
            r.frames_sent() == Seq::<FrameView>::empty(),
            r.frames_rcvd() == Seq::<FrameView>::empty(),
            r.spec_last_sent() is None,
    {
        Self::new(MockLinBehavior::Echo)
    }

    /// Creates a mock that fails every read.
    pub fn new_error() -> (r: Self)
        ensures
            r.frames_sent() == Seq::<FrameView>::empty(),
            r.frames_rcvd() == Seq::<FrameView>::empty(),
            r.spec_last_sent() is None,
    {
        Self::new(MockLinBehavior::Fail)
    }

    /// The model of the last frame written, if any.
    pub closed spec fn spec_last_sent(&self) -> Option<FrameView> {
        match self.last_sent {
            Some(f) => Some(f@),
            None => None,
        }
    }

    /// Returns a copy of the last frame written, if any.
    pub fn get_last_sent(&self) -> (r: Option<Frame>)
        ensures
            match r {
                Some(f) => self.spec_last_sent() == Some(f@),
                None => self.spec_last_sent() is None,
            },
    {
        match &self.last_sent {
            Some(f) => Some(f.clone()),
            None => None,
        }
    }
}

impl PhysicalLayer for MockLinPhysical {
    closed spec fn frames_sent(&self) -> Seq<FrameView> {
        self.sent_log@
    }

    closed spec fn frames_rcvd(&self) -> Seq<FrameView> {
        self.rcvd_log@
    }

    fn open(&mut self) -> (r: core::result::Result<(), AutomotiveError>) {
        Ok(())
    }

    fn close(&mut self) -> (r: core::result::Result<(), AutomotiveError>) {
        Ok(())
    }

    fn send_frame(&mut self, frame: &Frame) -> (r: core::result::Result<(), AutomotiveError>) {
        self.last_sent = Some(frame.clone());
        proof {
            self.sent_log@ = self.sent_log@.push(frame@);
        }
        Ok(())
    }

    fn receive_frame(&mut self) -> (r: core::result::Result<Frame, AutomotiveError>) {
        match self.behavior {
            MockLinBehavior::Echo => {
                match &self.last_sent {
                    Some(f) => {
                        let out = f.clone();
                        proof {
                            self.rcvd_log@ = self.rcvd_log@.push(out@);
                        }
                        Ok(out)
                    },
                    None => Err(AutomotiveError::NotInitialized),
                }
            },
            MockLinBehavior::Fail => Err(AutomotiveError::NotInitialized),
            MockLinBehavior::Silent => Err(AutomotiveError::NotInitialized),
        }
    }

    fn set_timeout(&mut self, timeout_ms: u32) -> (r: core::result::Result<(), AutomotiveError>) {
        Ok(())
    }

    fn wait_us(&mut self, micros: u32) {
    }
}

} // verus!
