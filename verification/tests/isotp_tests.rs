use libautomotive::error::AutomotiveError;
use libautomotive::isotp::{AddressMode, IsoTp, IsoTpConfig, IsoTpTiming};
use libautomotive::physical::PhysicalLayer;
use libautomotive::types::Frame;
use std::cell::RefCell;
use std::collections::VecDeque;
use std::rc::Rc;

type Handler = Box<dyn Fn(&Frame) -> Result<Frame, AutomotiveError>>;

struct MockPhysical {
    handler: Option<Handler>,
    last_frame: Option<Frame>,
    is_open: bool,
}

impl MockPhysical {
    fn new(handler: Option<Handler>) -> Self {
        MockPhysical { handler, last_frame: None, is_open: false }
    }
}

impl PhysicalLayer for MockPhysical {
    fn frames_sent(&self) -> vstd::seq::Seq<libautomotive::types::FrameView> {
        unreachable!()
    }

    fn frames_rcvd(&self) -> vstd::seq::Seq<libautomotive::types::FrameView> {
        unreachable!()
    }

    fn open(&mut self) -> Result<(), AutomotiveError> {
        self.is_open = true;
        Ok(())
    }

    fn close(&mut self) -> Result<(), AutomotiveError> {
        self.is_open = false;
        Ok(())
    }

    fn send_frame(&mut self, frame: &Frame) -> Result<(), AutomotiveError> {
        if !self.is_open {
            return Err(AutomotiveError::NotInitialized);
        }
        self.last_frame = Some(frame.clone());
        Ok(())
    }

    fn receive_frame(&mut self) -> Result<Frame, AutomotiveError> {
        if !self.is_open {
            return Err(AutomotiveError::NotInitialized);
        }
        match &self.handler {
            Some(handler) => match &self.last_frame {
                Some(frame) => handler(frame),
                None => handler(&Frame {
                    id: 0x7E8,
                    data: vec![0x00, 0x00],
                    timestamp: 0,
                    is_extended: false,
                    is_fd: false,
                }),
            },
            None => Err(AutomotiveError::NotInitialized),
        }
    }

    fn set_timeout(&mut self, _timeout_ms: u32) -> Result<(), AutomotiveError> {
        if !self.is_open {
            return Err(AutomotiveError::NotInitialized);
        }
        Ok(())
    }

    fn wait_us(&mut self, _micros: u32) {}
}

#[test]
fn test_isotp_single_frame() -> Result<(), AutomotiveError> {
    let mut mock = MockPhysical::new(Some(Box::new(|frame: &Frame| {
        Ok(Frame {
            id: frame.id,
            data: vec![0x01, 0x50],
            timestamp: 0,
            is_extended: false,
            is_fd: false,
        })
    })));
    mock.open()?;

    let config = IsoTpConfig { tx_id: 0x123, rx_id: 0x456, ..Default::default() };

    let mut isotp = IsoTp::with_physical(config, mock);
    isotp.open()?;

    isotp.send(&[0x10])?;

    let response = isotp.receive()?;
    assert_eq!(response, vec![0x50]);

    Ok(())
}

#[test]
fn test_isotp_multi_frame() {
    let mock = MockPhysical::new(Some(Box::new(|_frame: &Frame| {
        Ok(Frame {
            id: 0x456,
            data: vec![0x30, 0x00, 0x00],
            timestamp: 0,
            is_extended: false,
            is_fd: false,
        })
    })));

    let mut mock = mock;
    mock.open().unwrap();

    let config = IsoTpConfig {
        tx_id: 0x123,
        rx_id: 0x456,
        block_size: 0,
        st_min: 0,
        timing: IsoTpTiming { n_as: 1000, n_ar: 1000, n_bs: 1000, n_cr: 1000 },
        ..Default::default()
    };

    let mut isotp = IsoTp::with_physical(config, mock);
    isotp.open().unwrap();

    let data = vec![0x10; 20];
    isotp.send(&data).unwrap();

    isotp.close().unwrap();
}

#[test]
fn test_isotp_extended_addressing() -> Result<(), AutomotiveError> {
    let mut mock = MockPhysical::new(Some(Box::new(|frame: &Frame| {
        assert_eq!(frame.data[0], 0x55);
        Ok(Frame {
            id: frame.id,
            data: vec![0x55, 0x01, 0x50],
            timestamp: 0,
            is_extended: false,
            is_fd: false,
        })
    })));
    mock.open()?;

    let config = IsoTpConfig {
        tx_id: 0x123,
        rx_id: 0x456,
        address_mode: AddressMode::Extended,
        address_extension: 0x55,
        ..Default::default()
    };

    let mut isotp = IsoTp::with_physical(config, mock);
    isotp.open()?;

    isotp.send(&[0x10])?;

    let response = isotp.receive()?;
    assert_eq!(response, vec![0x50]);

    Ok(())
}

#[test]
fn test_isotp_mixed_addressing() -> Result<(), AutomotiveError> {
    let mut mock = MockPhysical::new(Some(Box::new(|frame: &Frame| {
        assert_eq!(frame.id & 0xFF, 0x55);
        Ok(Frame {
            id: (frame.id & 0xFFFFFF00) | 0x55,
            data: vec![0x01, 0x50],
            timestamp: 0,
            is_extended: false,
            is_fd: false,
        })
    })));
    mock.open()?;

    let config = IsoTpConfig {
        tx_id: 0x123,
        rx_id: 0x456,
        address_mode: AddressMode::Mixed,
        address_extension: 0x55,
        ..Default::default()
    };

    let mut isotp = IsoTp::with_physical(config, mock);
    isotp.open()?;

    isotp.send(&[0x10])?;

    Ok(())
}

#[test]
fn test_isotp_padding() -> Result<(), AutomotiveError> {
    let mut mock = MockPhysical::new(Some(Box::new(|frame: &Frame| {
        assert_eq!(frame.data.len(), 8);
        assert_eq!(&frame.data[2..], &[0xAA; 6]);
        Ok(Frame {
            id: frame.id,
            data: vec![0x01, 0x50],
            timestamp: 0,
            is_extended: false,
            is_fd: false,
        })
    })));
    mock.open()?;

    let config = IsoTpConfig {
        tx_id: 0x123,
        rx_id: 0x456,
        use_padding: true,
        padding_value: 0xAA,
        ..Default::default()
    };

    let mut isotp = IsoTp::with_physical(config, mock);
    isotp.open()?;

    isotp.send(&[0x10])?;

    let response = isotp.receive()?;
    assert_eq!(response, vec![0x50]);

    Ok(())
}

#[test]
fn test_isotp_flow_control() {
    let mock = MockPhysical::new(Some(Box::new(|_frame: &Frame| {
        Ok(Frame {
            id: 0x456,
            data: vec![0x30, 0x02, 0x10],
            timestamp: 0,
            is_extended: false,
            is_fd: false,
        })
    })));

    let mut mock = mock;
    mock.open().unwrap();

    let config = IsoTpConfig {
        tx_id: 0x123,
        rx_id: 0x456,
        block_size: 0,
        st_min: 0,
        timing: IsoTpTiming { n_as: 1000, n_ar: 1000, n_bs: 1000, n_cr: 1000 },
        ..Default::default()
    };

    let mut isotp = IsoTp::with_physical(config, mock);
    isotp.open().unwrap();

    let data = vec![0x10; 50];
    isotp.send(&data).unwrap();

    isotp.close().unwrap();
}

#[test]
fn test_isotp_timeouts() -> Result<(), AutomotiveError> {
    let mut mock = MockPhysical::new(Some(Box::new(|frame: &Frame| {
        match frame.data[0] & 0xF0 {
            0x10 => Err(AutomotiveError::Timeout),
            _ => Err(AutomotiveError::Timeout),
        }
    })));
    mock.open()?;

    let config = IsoTpConfig {
        tx_id: 0x123,
        rx_id: 0x456,
        timing: IsoTpTiming { n_as: 50, n_ar: 50, n_bs: 50, n_cr: 50 },
        ..Default::default()
    };

    let mut isotp = IsoTp::with_physical(config, mock);
    isotp.open()?;

    let data = vec![0x10; 20];
    assert!(matches!(isotp.send(&data), Err(AutomotiveError::Timeout)));

    assert!(matches!(isotp.receive(), Err(AutomotiveError::Timeout)));

    Ok(())
}

#[test]
fn test_isotp_error_handling() -> Result<(), AutomotiveError> {
    let mock = MockPhysical::new(Some(Box::new(|_frame: &Frame| {
        Err(AutomotiveError::NotInitialized)
    })));

    let config = IsoTpConfig {
        tx_id: 0x123,
        rx_id: 0x456,
        timing: IsoTpTiming { n_as: 50, n_ar: 50, n_bs: 50, n_cr: 50 },
        ..Default::default()
    };

    let mut isotp = IsoTp::with_physical(config, mock);

    assert!(matches!(isotp.send(&[0x10]), Err(AutomotiveError::NotInitialized)));
    assert!(matches!(isotp.receive(), Err(AutomotiveError::NotInitialized)));

    Ok(())
}

#[test]
fn test_isotp_invalid_response() {
    let mock = MockPhysical::new(Some(Box::new(|_frame: &Frame| {
        Ok(Frame {
            id: 0,
            data: vec![0x7F, 0x00, 0x31],
            timestamp: 0,
            is_extended: false,
            is_fd: false,
        })
    })));

    let mut mock = mock;
    mock.open().unwrap();

    let config = IsoTpConfig { tx_id: 0x123, rx_id: 0x456, ..Default::default() };

    let mut isotp = IsoTp::with_physical(config, mock);
    isotp.open().unwrap();

    let data = vec![0x10; 20];
    assert!(matches!(isotp.send(&data), Err(AutomotiveError::InvalidParameter)));

    isotp.close().unwrap();
}

// A physical layer that records every frame sent and answers reads from a
// scripted queue.
struct ScriptedPhysical {
    sent: Rc<RefCell<Vec<Frame>>>,
    responses: Rc<RefCell<VecDeque<Frame>>>,
    is_open: bool,
}

impl PhysicalLayer for ScriptedPhysical {
    fn frames_sent(&self) -> vstd::seq::Seq<libautomotive::types::FrameView> {
        unreachable!()
    }

    fn frames_rcvd(&self) -> vstd::seq::Seq<libautomotive::types::FrameView> {
        unreachable!()
    }

    fn open(&mut self) -> Result<(), AutomotiveError> {
        self.is_open = true;
        Ok(())
    }

    fn close(&mut self) -> Result<(), AutomotiveError> {
        self.is_open = false;
        Ok(())
    }

    fn send_frame(&mut self, frame: &Frame) -> Result<(), AutomotiveError> {
        self.sent.borrow_mut().push(frame.clone());
        Ok(())
    }

    fn receive_frame(&mut self) -> Result<Frame, AutomotiveError> {
        match self.responses.borrow_mut().pop_front() {
            Some(f) => Ok(f),
            None => Err(AutomotiveError::Timeout),
        }
    }

    fn set_timeout(&mut self, _timeout_ms: u32) -> Result<(), AutomotiveError> {
        Ok(())
    }

    fn wait_us(&mut self, _micros: u32) {}
}

#[test]
fn isotp_single_frame_wire_layout() {
    // Sending [0x10] with normal addressing and no padding puts exactly
    // [0x01, 0x10] on the wire under the configured transmit identifier.
    let sent = Rc::new(RefCell::new(Vec::new()));
    let responses = Rc::new(RefCell::new(VecDeque::new()));
    let mut phys = ScriptedPhysical { sent: sent.clone(), responses, is_open: false };
    phys.open().unwrap();

    let config = IsoTpConfig { tx_id: 0x123, rx_id: 0x456, ..Default::default() };
    let mut isotp = IsoTp::with_physical(config, phys);
    isotp.open().unwrap();
    isotp.send(&[0x10]).unwrap();

    let frames = sent.borrow();
    assert_eq!(frames.len(), 1);
    assert_eq!(frames[0].id, 0x123);
    assert_eq!(frames[0].data, vec![0x01, 0x10]);
}

#[test]
fn isotp_multi_frame_wire_layout() {
    // Twenty bytes of 0x10 go out as FF [0x10, 0x14, 0x10 x 6] followed by
    // CF1 [0x21, 0x10 x 7] and CF2 [0x22, 0x10 x 7] once flow control
    // grants transmission.
    let sent = Rc::new(RefCell::new(Vec::new()));
    let responses = Rc::new(RefCell::new(VecDeque::new()));
    responses.borrow_mut().push_back(Frame {
        id: 0x456,
        data: vec![0x30, 0x00, 0x00],
        timestamp: 0,
        is_extended: false,
        is_fd: false,
    });
    let mut phys = ScriptedPhysical { sent: sent.clone(), responses, is_open: false };
    phys.open().unwrap();

    let config = IsoTpConfig { tx_id: 0x123, rx_id: 0x456, ..Default::default() };
    let mut isotp = IsoTp::with_physical(config, phys);
    isotp.open().unwrap();
    isotp.send(&vec![0x10; 20]).unwrap();

    let frames = sent.borrow();
    assert_eq!(frames.len(), 3);
    let mut ff = vec![0x10, 0x14];
    ff.extend(vec![0x10; 6]);
    assert_eq!(frames[0].data, ff);
    let mut cf1 = vec![0x21];
    cf1.extend(vec![0x10; 7]);
    assert_eq!(frames[1].data, cf1);
    let mut cf2 = vec![0x22];
    cf2.extend(vec![0x10; 7]);
    assert_eq!(frames[2].data, cf2);
}

#[test]
fn isotp_round_trip_through_paired_receiver() {
    // Frames emitted by one sender reassemble to the original payload on a
    // receiver with the same address configuration.
    for len in [1usize, 7, 8, 20, 200, 4095] {
        let payload: Vec<u8> = (0..len).map(|i| (i % 251) as u8).collect();

        let sent = Rc::new(RefCell::new(Vec::new()));
        let responses = Rc::new(RefCell::new(VecDeque::new()));
        // Grant every flow-control wait immediately.
        for _ in 0..700 {
            responses.borrow_mut().push_back(Frame {
                id: 0x456,
                data: vec![0x30, 0x00, 0x00],
                timestamp: 0,
                is_extended: false,
                is_fd: false,
            });
        }
        let mut phys = ScriptedPhysical { sent: sent.clone(), responses, is_open: false };
        phys.open().unwrap();
        let config = IsoTpConfig { tx_id: 0x123, rx_id: 0x456, ..Default::default() };
        let mut sender = IsoTp::with_physical(config, phys);
        sender.open().unwrap();
        sender.send(&payload).unwrap();

        // Feed the recorded frames to a receiver.
        let rx_sent = Rc::new(RefCell::new(Vec::new()));
        let rx_responses = Rc::new(RefCell::new(VecDeque::new()));
        for f in sent.borrow().iter() {
            rx_responses.borrow_mut().push_back(f.clone());
        }
        let mut rx_phys =
            ScriptedPhysical { sent: rx_sent, responses: rx_responses, is_open: false };
        rx_phys.open().unwrap();
        let rx_config = IsoTpConfig { tx_id: 0x456, rx_id: 0x123, ..Default::default() };
        let mut receiver = IsoTp::with_physical(rx_config, rx_phys);
        receiver.open().unwrap();
        let out = receiver.receive().unwrap();
        assert_eq!(out, payload);
    }
}

#[test]
fn isotp_receive_rejects_out_of_order_consecutive_frame() {
    // A consecutive frame whose low nibble disagrees with the expected
    // counter aborts reassembly with an ISO-TP error and delivers nothing.
    let sent = Rc::new(RefCell::new(Vec::new()));
    let responses = Rc::new(RefCell::new(VecDeque::new()));
    responses.borrow_mut().push_back(Frame {
        id: 0x123,
        data: vec![0x10, 0x0A, 1, 2, 3, 4, 5, 6],
        timestamp: 0,
        is_extended: false,
        is_fd: false,
    });
    // Sequence number 3 where 1 is expected.
    responses.borrow_mut().push_back(Frame {
        id: 0x123,
        data: vec![0x23, 7, 8, 9, 10],
        timestamp: 0,
        is_extended: false,
        is_fd: false,
    });
    let mut phys = ScriptedPhysical { sent, responses, is_open: false };
    phys.open().unwrap();
    let config = IsoTpConfig { tx_id: 0x456, rx_id: 0x123, ..Default::default() };
    let mut receiver = IsoTp::with_physical(config, phys);
    receiver.open().unwrap();
    assert!(matches!(receiver.receive(), Err(AutomotiveError::IsoTpError(_))));
}

#[test]
fn isotp_sequence_numbers_wrap_modulo_sixteen() {
    // 200 bytes need 28 consecutive frames: counters run 1..15, 0, 1..
    let sent = Rc::new(RefCell::new(Vec::new()));
    let responses = Rc::new(RefCell::new(VecDeque::new()));
    responses.borrow_mut().push_back(Frame {
        id: 0x456,
        data: vec![0x30, 0x00, 0x00],
        timestamp: 0,
        is_extended: false,
        is_fd: false,
    });
    let mut phys = ScriptedPhysical { sent: sent.clone(), responses, is_open: false };
    phys.open().unwrap();
    let config = IsoTpConfig { tx_id: 0x123, rx_id: 0x456, ..Default::default() };
    let mut sender = IsoTp::with_physical(config, phys);
    sender.open().unwrap();
    sender.send(&vec![0xAB; 200]).unwrap();

    let frames = sent.borrow();
    assert_eq!(frames[0].data[0], 0x10);
    for (n, frame) in frames.iter().skip(1).enumerate() {
        let expected = ((n + 1) % 16) as u8;
        assert_eq!(frame.data[0], 0x20 | expected);
    }
}
