use libautomotive::error::AutomotiveError;
use libautomotive::physical::PhysicalLayer;
use libautomotive::transport::doip::{self, DoIPHeader};
use libautomotive::transport::lin::{
    calculate_classic_checksum, calculate_enhanced_checksum, calculate_parity, Lin, LinConfig,
    LinFrameType, LIN_BREAK_BYTE, LIN_SYNC_BYTE,
};
use libautomotive::types::Frame;
use std::cell::RefCell;
use std::collections::VecDeque;
use std::rc::Rc;

struct ScriptedPhysical {
    sent: Rc<RefCell<Vec<Frame>>>,
    responses: Rc<RefCell<VecDeque<Result<Frame, AutomotiveError>>>>,
    is_open: bool,
}

impl PhysicalLayer for ScriptedPhysical {
    fn frames_sent(&self) -> vstd::seq::Seq<libautomotive::types::FrameView> {
        unreachable!()
    }

    fn frames_rcvd(&self) -> vstd::seq::Seq<libautomotive::types::FrameView> {
        unreachable!()
    }

    fn open(&mut self) -> Result<(), AutomotiveError> {
        self.is_open = true;
        Ok(())
    }

    fn close(&mut self) -> Result<(), AutomotiveError> {
        self.is_open = false;
        Ok(())
    }

    fn send_frame(&mut self, frame: &Frame) -> Result<(), AutomotiveError> {
        self.sent.borrow_mut().push(frame.clone());
        Ok(())
    }

    fn receive_frame(&mut self) -> Result<Frame, AutomotiveError> {
        match self.responses.borrow_mut().pop_front() {
            Some(r) => r,
            None => Err(AutomotiveError::Timeout),
        }
    }

    fn set_timeout(&mut self, _timeout_ms: u32) -> Result<(), AutomotiveError> {
        Ok(())
    }

    fn wait_us(&mut self, _micros: u32) {}
}

fn byte_frame(b: u8) -> Frame {
    Frame { id: 0, data: vec![b], timestamp: 0, is_extended: false, is_fd: false }
}

#[test]
fn lin_parity_exact_values() {
    // Identifier 0x00: both data parity terms are zero, the inverted bit is
    // one, so only bit 7 is set.
    assert_eq!(calculate_parity(0x00), 0x80);
    // Identifier 0x3F.
    assert_eq!(calculate_parity(0x3F), calculate_parity(0x3F));
    // Parity uses only the six identifier bits' positions.
    for pid in 0u8..=0x3F {
        let p = calculate_parity(pid);
        assert_eq!(p & 0x3F, 0);
    }
}

#[test]
fn lin_classic_checksum_exact_values() {
    // Sum 1 + 2 + 3 = 6; inverted: 0xF9.
    assert_eq!(calculate_classic_checksum(&[1, 2, 3]), 0xF9);
    // An empty payload checksums to 0xFF.
    assert_eq!(calculate_classic_checksum(&[]), 0xFF);
    // The carry folds back in: 0xFF + 0x01 = 0x100 -> 0x01; inverted 0xFE.
    assert_eq!(calculate_classic_checksum(&[0xFF, 0x01]), 0xFE);
}

#[test]
fn lin_enhanced_checksum_includes_pid() {
    // Seeding with the identifier changes the sum: 0x55 + 1 + 2 + 3 = 0x5B;
    // inverted 0xA4.
    assert_eq!(calculate_enhanced_checksum(0x55, &[1, 2, 3]), 0xA4);
    assert_eq!(calculate_enhanced_checksum(0x00, &[1, 2, 3]), 0xF9);
}

#[test]
fn lin_send_header_wire_layout() {
    // A header is the break byte, the synchronisation byte, and the
    // protected identifier.
    let sent = Rc::new(RefCell::new(Vec::new()));
    let responses = Rc::new(RefCell::new(VecDeque::new()));
    let phys = ScriptedPhysical { sent: sent.clone(), responses, is_open: false };
    let mut lin = Lin::with_physical(LinConfig::default(), phys);
    lin.open().unwrap();
    lin.send_header(0x11).unwrap();

    let frames = sent.borrow();
    assert_eq!(frames.len(), 3);
    assert_eq!(frames[0].data, vec![LIN_BREAK_BYTE]);
    assert_eq!(frames[1].data, vec![LIN_SYNC_BYTE]);
    assert_eq!(frames[2].data, vec![0x11 | calculate_parity(0x11)]);
}

#[test]
fn lin_send_response_appends_checksum() {
    let sent = Rc::new(RefCell::new(Vec::new()));
    let responses = Rc::new(RefCell::new(VecDeque::new()));
    let phys = ScriptedPhysical { sent: sent.clone(), responses, is_open: false };
    let mut lin = Lin::with_physical(LinConfig::default(), phys);
    lin.open().unwrap();
    lin.send_response(0x11, &[1, 2, 3]).unwrap();

    let frames = sent.borrow();
    assert_eq!(frames.len(), 2);
    assert_eq!(frames[0].data, vec![1, 2, 3]);
    assert_eq!(frames[1].data, vec![0xF9]);
}

#[test]
fn lin_send_response_rejects_long_payload() {
    let sent = Rc::new(RefCell::new(Vec::new()));
    let responses = Rc::new(RefCell::new(VecDeque::new()));
    let phys = ScriptedPhysical { sent, responses, is_open: false };
    let mut lin = Lin::with_physical(LinConfig::default(), phys);
    lin.open().unwrap();
    assert!(matches!(
        lin.send_response(0x11, &[0; 9]),
        Err(AutomotiveError::InvalidParameter)
    ));
}

#[test]
fn lin_read_response_verifies_checksum() {
    let sent = Rc::new(RefCell::new(Vec::new()));
    let responses = Rc::new(RefCell::new(VecDeque::new()));
    responses.borrow_mut().push_back(Ok(Frame {
        id: 0,
        data: vec![1, 2, 3],
        timestamp: 0,
        is_extended: false,
        is_fd: false,
    }));
    // An empty frame ends the data phase; then the checksum arrives.
    responses.borrow_mut().push_back(Ok(Frame {
        id: 0,
        data: vec![],
        timestamp: 0,
        is_extended: false,
        is_fd: false,
    }));
    responses.borrow_mut().push_back(Ok(byte_frame(0xF9)));
    let phys = ScriptedPhysical { sent, responses, is_open: false };
    let mut lin = Lin::with_physical(LinConfig::default(), phys);
    lin.open().unwrap();
    let data = lin.read_response(100).unwrap();
    assert_eq!(data, vec![1, 2, 3]);
}

#[test]
fn lin_read_response_rejects_bad_checksum() {
    let sent = Rc::new(RefCell::new(Vec::new()));
    let responses = Rc::new(RefCell::new(VecDeque::new()));
    responses.borrow_mut().push_back(Ok(Frame {
        id: 0,
        data: vec![1, 2, 3],
        timestamp: 0,
        is_extended: false,
        is_fd: false,
    }));
    responses.borrow_mut().push_back(Ok(Frame {
        id: 0,
        data: vec![],
        timestamp: 0,
        is_extended: false,
        is_fd: false,
    }));
    responses.borrow_mut().push_back(Ok(byte_frame(0x00)));
    let phys = ScriptedPhysical { sent, responses, is_open: false };
    let mut lin = Lin::with_physical(LinConfig::default(), phys);
    lin.open().unwrap();
    assert!(matches!(lin.read_response(100), Err(AutomotiveError::ChecksumError)));
}

#[test]
fn lin_enhanced_response_checksum() {
    let sent = Rc::new(RefCell::new(Vec::new()));
    let responses = Rc::new(RefCell::new(VecDeque::new()));
    let phys = ScriptedPhysical { sent: sent.clone(), responses, is_open: false };
    let config = LinConfig { timeout_ms: 1000, frame_type: LinFrameType::Enhanced };
    let mut lin = Lin::with_physical(config, phys);
    lin.open().unwrap();
    lin.send_response(0x55, &[1, 2, 3]).unwrap();
    let frames = sent.borrow();
    assert_eq!(frames[1].data, vec![0xA4]);
}

#[test]
fn doip_header_round_trip() {
    let header = DoIPHeader::new(doip::DOIP_DIAGNOSTIC_MESSAGE, 0x01020304);
    let bytes = header.to_bytes();
    assert_eq!(bytes, vec![0x02, 0xFD, 0x80, 0x01, 0x01, 0x02, 0x03, 0x04]);
    let parsed = DoIPHeader::from_bytes(&bytes).unwrap();
    assert_eq!(parsed, header);
}

#[test]
fn doip_header_rejects_short_input() {
    assert!(matches!(
        DoIPHeader::from_bytes(&[0x02, 0xFD, 0x00]),
        Err(AutomotiveError::InvalidData)
    ));
}

#[test]
fn doip_header_rejects_version_mismatch() {
    assert!(matches!(
        DoIPHeader::from_bytes(&[0x03, 0xFC, 0x80, 0x01, 0, 0, 0, 0]),
        Err(AutomotiveError::InvalidData)
    ));
}

#[test]
fn doip_diagnostic_payload_round_trip() {
    let payload = doip::build_diagnostic_payload(0x0E00, 0x0E80, &[0x22, 0xF1, 0x90]);
    assert_eq!(payload, vec![0x0E, 0x00, 0x0E, 0x80, 0x22, 0xF1, 0x90]);
    let data = doip::parse_diagnostic_payload(&payload).unwrap();
    assert_eq!(data, vec![0x22, 0xF1, 0x90]);
}

#[test]
fn doip_routing_activation_payload_layout() {
    let payload = doip::build_routing_activation_payload(0x0E00);
    assert_eq!(payload, vec![0x0E, 0x00, 0x00, 0x00, 0x00, 0x00, 0x00, 0x00]);
}

#[test]
fn doip_parse_diagnostic_payload_rejects_short_input() {
    assert!(matches!(
        doip::parse_diagnostic_payload(&[0x0E, 0x00]),
        Err(AutomotiveError::InvalidData)
    ));
}
