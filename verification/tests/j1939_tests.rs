use libautomotive::error::AutomotiveError;
use libautomotive::j1939::{J1939, J1939Config};
use libautomotive::physical::PhysicalLayer;
use libautomotive::types::{Address, Frame};
use std::cell::RefCell;
use std::collections::VecDeque;
use std::rc::Rc;

struct ScriptedPhysical {
    sent: Rc<RefCell<Vec<Frame>>>,
    responses: Rc<RefCell<VecDeque<Result<Frame, AutomotiveError>>>>,
    is_open: bool,
}

impl ScriptedPhysical {
    fn new(
        sent: Rc<RefCell<Vec<Frame>>>,
        responses: Rc<RefCell<VecDeque<Result<Frame, AutomotiveError>>>>,
    ) -> Self {
        ScriptedPhysical { sent, responses, is_open: false }
    }
}

impl PhysicalLayer for ScriptedPhysical {
    fn frames_sent(&self) -> vstd::seq::Seq<libautomotive::types::FrameView> {
        unreachable!()
    }

    fn frames_rcvd(&self) -> vstd::seq::Seq<libautomotive::types::FrameView> {
        unreachable!()
    }

    fn open(&mut self) -> Result<(), AutomotiveError> {
        self.is_open = true;
        Ok(())
    }

    fn close(&mut self) -> Result<(), AutomotiveError> {
        self.is_open = false;
        Ok(())
    }

    fn send_frame(&mut self, frame: &Frame) -> Result<(), AutomotiveError> {
        self.sent.borrow_mut().push(frame.clone());
        Ok(())
    }

    fn receive_frame(&mut self) -> Result<Frame, AutomotiveError> {
        match self.responses.borrow_mut().pop_front() {
            Some(r) => r,
            None => Err(AutomotiveError::Timeout),
        }
    }

    fn set_timeout(&mut self, _timeout_ms: u32) -> Result<(), AutomotiveError> {
        Ok(())
    }

    fn wait_us(&mut self, _micros: u32) {}
}

fn test_config() -> J1939Config {
    J1939Config { name: 0x1122334455667788, preferred_address: 0x42, address_range: (0x00, 0xFD) }
}

fn claim_frame(source: u8, name: u64) -> Frame {
    let id = (6u32 << 26) | (0xEE00u32 << 8) | (source as u32);
    Frame { id, data: name.to_be_bytes().to_vec(), timestamp: 0, is_extended: true, is_fd: false }
}

#[test]
fn j1939_open_claims_preferred_address() {
    // No competing claim arrives: the listening window times out and the
    // node owns its preferred address.
    let sent = Rc::new(RefCell::new(Vec::new()));
    let responses = Rc::new(RefCell::new(VecDeque::new()));
    let phys = ScriptedPhysical::new(sent.clone(), responses);
    let mut node = J1939::with_physical(test_config(), phys);
    node.open().unwrap();
    assert_eq!(node.get_address().unwrap(), 0x42);

    // The claim frame carried the big-endian NAME under the address-claimed
    // PGN at priority 6.
    let frames = sent.borrow();
    assert_eq!(frames.len(), 1);
    assert_eq!(frames[0].id, (6u32 << 26) | (0xEE00u32 << 8) | 0x42);
    assert!(frames[0].is_extended);
    assert_eq!(frames[0].data, vec![0x11, 0x22, 0x33, 0x44, 0x55, 0x66, 0x77, 0x88]);
}

#[test]
fn j1939_lower_name_contender_wins_claim() {
    // A competing claim with a numerically lower NAME arrives: this node
    // loses the arbitration and never reports success.
    let sent = Rc::new(RefCell::new(Vec::new()));
    let responses = Rc::new(RefCell::new(VecDeque::new()));
    responses.borrow_mut().push_back(Ok(claim_frame(0x42, 0x1122334455667787)));
    let phys = ScriptedPhysical::new(sent, responses);
    let mut node = J1939::with_physical(test_config(), phys);
    assert!(matches!(node.open(), Err(AutomotiveError::J1939Error(_))));
    assert!(node.get_address().is_err());
}

#[test]
fn j1939_higher_name_contender_loses_claim() {
    // A competing claim with a higher NAME does not defeat this node.
    let sent = Rc::new(RefCell::new(Vec::new()));
    let responses = Rc::new(RefCell::new(VecDeque::new()));
    responses.borrow_mut().push_back(Ok(claim_frame(0x42, 0x1122334455667789)));
    let phys = ScriptedPhysical::new(sent, responses);
    let mut node = J1939::with_physical(test_config(), phys);
    node.open().unwrap();
    assert_eq!(node.get_address().unwrap(), 0x42);
}

#[test]
fn j1939_send_requires_claimed_address() {
    let sent = Rc::new(RefCell::new(Vec::new()));
    let responses = Rc::new(RefCell::new(VecDeque::new()));
    let phys = ScriptedPhysical::new(sent, responses);
    let mut node = J1939::with_physical(test_config(), phys);
    let address = Address { priority: 3, pgn: 0xF004, source: 0, destination: 0xFF };
    assert!(matches!(node.send(&address, &[1, 2, 3]), Err(AutomotiveError::NotInitialized)));
}

#[test]
fn j1939_id_codec_round_trip() {
    // decode(encode(address)) recovers the address for valid field widths.
    let sent = Rc::new(RefCell::new(Vec::new()));
    let responses = Rc::new(RefCell::new(VecDeque::new()));
    let phys = ScriptedPhysical::new(sent.clone(), responses.clone());
    let mut node = J1939::with_physical(test_config(), phys);
    node.open().unwrap();

    // A broadcast (PDU2) parameter group.
    let address = Address { priority: 3, pgn: 0xF004, source: 0x42, destination: 0xFF };
    node.send(&address, &[0x01, 0x02, 0x03]).unwrap();
    {
        let frames = sent.borrow();
        let sent_frame = frames.last().unwrap().clone();
        responses.borrow_mut().push_back(Ok(sent_frame));
    }
    let msg = node.receive().unwrap();
    assert_eq!(msg.address.priority, 3);
    assert_eq!(msg.address.pgn, 0xF004);
    assert_eq!(msg.address.source, 0x42);
    assert_eq!(msg.address.destination, 0xFF);
    assert_eq!(msg.data, vec![0x01, 0x02, 0x03]);

    // A destination-specific (PDU1) parameter group: the low PGN byte
    // carries the destination.
    let address = Address { priority: 6, pgn: 0xEA17, source: 0x42, destination: 0x17 };
    node.send(&address, &[]).unwrap();
    {
        let frames = sent.borrow();
        let sent_frame = frames.last().unwrap().clone();
        responses.borrow_mut().push_back(Ok(sent_frame));
    }
    let msg = node.receive().unwrap();
    assert_eq!(msg.address.priority, 6);
    assert_eq!(msg.address.pgn, 0xEA17);
    assert_eq!(msg.address.source, 0x42);
    assert_eq!(msg.address.destination, 0x17);
}

#[test]
fn j1939_rejects_standard_frames() {
    let sent = Rc::new(RefCell::new(Vec::new()));
    let responses = Rc::new(RefCell::new(VecDeque::new()));
    let phys = ScriptedPhysical::new(sent, responses.clone());
    let mut node = J1939::with_physical(test_config(), phys);
    node.open().unwrap();
    responses.borrow_mut().push_back(Ok(Frame {
        id: 0x123,
        data: vec![1, 2, 3],
        timestamp: 0,
        is_extended: false,
        is_fd: false,
    }));
    assert!(matches!(node.receive(), Err(AutomotiveError::J1939Error(_))));
}

#[test]
fn j1939_config_validation() {
    let phys_err = J1939Config { name: 0, preferred_address: 0x42, address_range: (0, 0xFD) };
    assert!(matches!(
        libautomotive::types::Config::validate(&phys_err),
        Err(AutomotiveError::InvalidParameter)
    ));
    let bad_range = J1939Config {
        name: 1,
        preferred_address: 0x42,
        address_range: (0x50, 0x40),
    };
    assert!(matches!(
        libautomotive::types::Config::validate(&bad_range),
        Err(AutomotiveError::InvalidParameter)
    ));
    let out_of_range = J1939Config {
        name: 1,
        preferred_address: 0x42,
        address_range: (0x50, 0x60),
    };
    assert!(matches!(
        libautomotive::types::Config::validate(&out_of_range),
        Err(AutomotiveError::InvalidParameter)
    ));
    let good = test_config();
    assert!(libautomotive::types::Config::validate(&good).is_ok());
}

#[test]
fn j1939_losing_node_emits_cannot_claim() {
    // On a lost arbitration the node emits a best-effort cannot-claim
    // message from the null source address.
    let sent = Rc::new(RefCell::new(Vec::new()));
    let responses = Rc::new(RefCell::new(VecDeque::new()));
    responses.borrow_mut().push_back(Ok(claim_frame(0x42, 0)));
    let phys = ScriptedPhysical::new(sent.clone(), responses);
    let mut node = J1939::with_physical(test_config(), phys);
    assert!(node.open().is_err());
    let frames = sent.borrow();
    assert_eq!(frames.len(), 2);
    assert_eq!(frames[1].id & 0xFF, 0xFE);
}
