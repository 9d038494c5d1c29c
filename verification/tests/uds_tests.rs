use libautomotive::error::AutomotiveError;
use libautomotive::isotp::{IsoTp, IsoTpConfig};
use libautomotive::physical::PhysicalLayer;
use libautomotive::types::Frame;
use libautomotive::uds::{Uds, UdsConfig, UdsSessionType};
use std::cell::Cell;
use std::rc::Rc;

type Handler = Box<dyn Fn(&Frame) -> Result<Frame, AutomotiveError>>;

struct MockPhysical {
    handler: Option<Handler>,
    last_frame: Option<Frame>,
    is_open: bool,
}

impl MockPhysical {
    fn new(handler: Option<Handler>) -> Self {
        MockPhysical { handler, last_frame: None, is_open: false }
    }
}

impl PhysicalLayer for MockPhysical {
    fn frames_sent(&self) -> vstd::seq::Seq<libautomotive::types::FrameView> {
        unreachable!()
    }

    fn frames_rcvd(&self) -> vstd::seq::Seq<libautomotive::types::FrameView> {
        unreachable!()
    }

    fn open(&mut self) -> Result<(), AutomotiveError> {
        self.is_open = true;
        Ok(())
    }

    fn close(&mut self) -> Result<(), AutomotiveError> {
        self.is_open = false;
        Ok(())
    }

    fn send_frame(&mut self, frame: &Frame) -> Result<(), AutomotiveError> {
        if !self.is_open {
            return Err(AutomotiveError::NotInitialized);
        }
        self.last_frame = Some(frame.clone());
        Ok(())
    }

    fn receive_frame(&mut self) -> Result<Frame, AutomotiveError> {
        if !self.is_open {
            return Err(AutomotiveError::NotInitialized);
        }
        match &self.handler {
            Some(handler) => match &self.last_frame {
                Some(frame) => handler(frame),
                None => Err(AutomotiveError::Timeout),
            },
            None => Err(AutomotiveError::NotInitialized),
        }
    }

    fn set_timeout(&mut self, _timeout_ms: u32) -> Result<(), AutomotiveError> {
        if !self.is_open {
            return Err(AutomotiveError::NotInitialized);
        }
        Ok(())
    }

    fn wait_us(&mut self, _micros: u32) {}
}

/// Wraps a response in an ISO-TP single frame.
fn wrap_sf(data: Vec<u8>) -> Vec<u8> {
    let mut frame_data = vec![data.len() as u8];
    frame_data.extend(data);
    frame_data
}

fn sf_frame(id: u32, data: Vec<u8>) -> Frame {
    Frame { id, data: wrap_sf(data), timestamp: 0, is_extended: false, is_fd: false }
}

/// A mock ECU answering the common services at the frame level: single
/// frames get a positive (or scripted negative) response, a first frame is
/// granted flow control, and the consecutive frame that completes a
/// multi-frame request gets the memory-service response.
fn create_mock_uds() -> Uds<IsoTp<MockPhysical>> {
    let waiting_for_cf = Rc::new(Cell::new(false));
    let waiting = waiting_for_cf.clone();

    let mock = MockPhysical::new(Some(Box::new(move |frame: &Frame| {
        let d = &frame.data;
        if d.is_empty() {
            return Err(AutomotiveError::Timeout);
        }
        if d[0] & 0xF0 == 0x10 {
            // First frame: grant transmission.
            waiting.set(true);
            return Ok(Frame {
                id: frame.id,
                data: vec![0x30, 0x00, 0x00],
                timestamp: 0,
                is_extended: false,
                is_fd: false,
            });
        }
        if d[0] & 0xF0 == 0x20 {
            // Consecutive frame completing a memory request.
            if waiting.get() {
                waiting.set(false);
                return Ok(sf_frame(frame.id, vec![0x63, 0x01, 0x02, 0x03]));
            }
            return Err(AutomotiveError::Timeout);
        }
        // Single frame: the service identifier follows the PCI byte.
        let sid = if d.len() > 1 { d[1] } else { 0 };
        let response = match sid {
            0x10 => vec![0x50, if d.len() > 2 { d[2] } else { 0x01 }],
            0x3E => vec![0x7E, 0x00],
            // Echo sub-function and routine identifier, then one result byte.
            0x31 => vec![0x71, d[2], d[3], d[4], 0xAA],
            0x2F => vec![0x6F, d[2], d[3], d[4], 0x00],
            0x22 => vec![0x62, d[2], d[3], 0xAB],
            // Seed requests get a one-byte seed; the key is accepted empty.
            0x27 => {
                if d.len() > 2 && d[2] % 2 == 1 {
                    vec![0x67, d[2], 0x11]
                } else {
                    vec![0x67]
                }
            },
            _ => vec![0x7F, sid, 0x31],
        };
        Ok(sf_frame(frame.id, response))
    })));

    let mut mock = mock;
    mock.open().unwrap();

    let isotp_config = IsoTpConfig { tx_id: 0x123, rx_id: 0x456, ..Default::default() };

    let mut isotp = IsoTp::with_physical(isotp_config, mock);
    isotp.open().unwrap();

    let uds_config = UdsConfig {
        timeout_ms: 1000,
        p2_timeout_ms: 100,
        p2_star_timeout_ms: 500,
        s3_client_timeout_ms: 500,
        tester_present_interval_ms: 200,
    };

    let mut uds = Uds::with_transport(uds_config, isotp);
    uds.open().unwrap();
    uds
}

#[test]
fn test_uds_tester_present() {
    let mut uds = create_mock_uds();
    uds.tester_present().unwrap();
    assert!(uds.status.tester_present_sent);
    uds.close().unwrap();
}

#[test]
fn test_uds_read_data() {
    let mut uds = create_mock_uds();
    let data = uds.read_data_by_id(0x1234).unwrap();
    assert!(!data.is_empty());
    uds.close().unwrap();
}

#[test]
fn test_uds_write_data() {
    let mut uds = create_mock_uds();
    assert!(uds.write_data_by_id(0x1234, &[0x01, 0x02, 0x03]).is_err());
    uds.close().unwrap();
}

#[test]
fn test_uds_routine_control() {
    let mut uds = create_mock_uds();
    let result = uds.routine_control(0x01, 0x1234, &[0x01]).unwrap();
    assert!(!result.is_empty());
    uds.close().unwrap();
}

#[test]
fn test_uds_io_control() {
    let mut uds = create_mock_uds();
    let result = uds.io_control(0x1234, 0x01, &[0x01]).unwrap();
    assert!(!result.is_empty());
    uds.close().unwrap();
}

#[test]
fn test_uds_memory_access() {
    let mut uds = create_mock_uds();
    let data = uds.read_memory(0x12345678, 3).unwrap();
    assert_eq!(data, vec![0x01, 0x02, 0x03]);
    assert!(uds.write_memory(0x12345678, &[0x01, 0x02, 0x03]).is_err());
    uds.close().unwrap();
}

#[test]
fn test_uds_response_pending() {
    let mock = MockPhysical::new(Some(Box::new(|frame: &Frame| {
        let d = &frame.data;
        let sid = if !d.is_empty() && d[0] & 0xF0 == 0x00 && d.len() > 1 { d[1] } else { d[0] };
        Ok(sf_frame(frame.id, vec![sid.wrapping_add(0x40)]))
    })));

    let mut mock = mock;
    mock.open().unwrap();

    let isotp_config = IsoTpConfig { tx_id: 0x123, rx_id: 0x456, ..Default::default() };

    let mut isotp = IsoTp::with_physical(isotp_config, mock);
    isotp.open().unwrap();

    let uds_config = UdsConfig::default();
    let mut uds = Uds::with_transport(uds_config, isotp);
    uds.open().unwrap();

    uds.tester_present().unwrap();

    assert!(uds.status.tester_present_sent);

    uds.close().unwrap();
}

#[test]
fn uds_pending_responses_then_positive() {
    // The peer answers [0x7F, 0x3E, 0x78] three times, then [0x7E, 0x00]:
    // tester_present succeeds all the same.
    let pendings = Rc::new(Cell::new(0u32));
    let counter = pendings.clone();
    let mock = MockPhysical::new(Some(Box::new(move |frame: &Frame| {
        if counter.get() < 3 {
            counter.set(counter.get() + 1);
            return Ok(sf_frame(frame.id, vec![0x7F, 0x3E, 0x78]));
        }
        Ok(sf_frame(frame.id, vec![0x7E, 0x00]))
    })));

    let mut mock = mock;
    mock.open().unwrap();
    let isotp_config = IsoTpConfig { tx_id: 0x123, rx_id: 0x456, ..Default::default() };
    let mut isotp = IsoTp::with_physical(isotp_config, mock);
    isotp.open().unwrap();
    let mut uds = Uds::with_transport(UdsConfig::default(), isotp);
    uds.open().unwrap();

    uds.tester_present().unwrap();
    assert!(uds.status.tester_present_sent);
    assert_eq!(pendings.get(), 3);
}

#[test]
fn uds_five_pending_responses_time_out() {
    // A fifth pending response exhausts the dialog and surfaces UdsError.
    let mock = MockPhysical::new(Some(Box::new(|frame: &Frame| {
        Ok(sf_frame(frame.id, vec![0x7F, 0x3E, 0x78]))
    })));
    let mut mock = mock;
    mock.open().unwrap();
    let isotp_config = IsoTpConfig { tx_id: 0x123, rx_id: 0x456, ..Default::default() };
    let mut isotp = IsoTp::with_physical(isotp_config, mock);
    isotp.open().unwrap();
    let mut uds = Uds::with_transport(UdsConfig::default(), isotp);
    uds.open().unwrap();

    assert!(matches!(uds.tester_present(), Err(AutomotiveError::UdsError(_))));
}

#[test]
fn uds_session_change_updates_state() {
    // Request [0x10, 0x02] answered by [0x50, 0x02] switches the engine to
    // the programming session and records the activity.
    let mut uds = create_mock_uds();
    uds.change_session(UdsSessionType::Programming).unwrap();
    assert_eq!(uds.status.session_type, UdsSessionType::Programming);
    assert!(uds.status.last_activity > 0);
    uds.close().unwrap();
}

#[test]
fn uds_returning_to_default_session_relocks() {
    // Granting a level and then changing to the default session drops the
    // security level back to zero, as the session model demands.
    let mut uds = create_mock_uds();
    uds.security_access(1, |seed: &[u8]| seed.to_vec()).unwrap();
    assert_eq!(uds.status.security_level, 1);
    uds.change_session(UdsSessionType::Default).unwrap();
    assert_eq!(uds.status.session_type, UdsSessionType::Default);
    assert_eq!(uds.status.security_level, 0);
    uds.close().unwrap();
}

#[test]
fn uds_routine_control_returns_routine_bytes() {
    // The positive response [0x71, sub, id, id, result...] yields exactly
    // the bytes after the three echo bytes.
    let mut uds = create_mock_uds();
    let result = uds.routine_control(0x01, 0x1234, &[0x01]).unwrap();
    assert_eq!(result, vec![0xAA]);
    uds.close().unwrap();
}

#[test]
fn uds_s3_expiry_resets_session_before_next_request() {
    // Once the S3 window has passed, the very next call observes the
    // default session with security relocked, before any bytes leave.
    let mut uds = create_mock_uds();
    uds.change_session(UdsSessionType::Programming).unwrap();
    let expired = uds.status.last_activity + 501;
    uds.check_session_timeout(expired);
    assert_eq!(uds.status.session_type, UdsSessionType::Default);
    assert_eq!(uds.status.security_level, 0);
    uds.close().unwrap();
}

#[test]
fn uds_mismatched_echo_is_rejected() {
    // A positive response that does not begin with SID + 0x40 surfaces
    // UdsError.
    let mock = MockPhysical::new(Some(Box::new(|frame: &Frame| {
        Ok(sf_frame(frame.id, vec![0x51, 0x00]))
    })));
    let mut mock = mock;
    mock.open().unwrap();
    let isotp_config = IsoTpConfig { tx_id: 0x123, rx_id: 0x456, ..Default::default() };
    let mut isotp = IsoTp::with_physical(isotp_config, mock);
    isotp.open().unwrap();
    let mut uds = Uds::with_transport(UdsConfig::default(), isotp);
    uds.open().unwrap();

    assert!(matches!(uds.tester_present(), Err(AutomotiveError::UdsError(_))));
}

#[test]
fn uds_request_download_and_transfer() {
    // RequestDownload grants a maximum block length; TransferData then
    // moves the payload in echoed, counted blocks and RequestTransferExit
    // closes the download.
    let blocks = Rc::new(Cell::new(0u32));
    let seen = blocks.clone();
    let mock = MockPhysical::new(Some(Box::new(move |frame: &Frame| {
        let d = &frame.data;
        if d.is_empty() {
            return Err(AutomotiveError::Timeout);
        }
        if d[0] & 0xF0 == 0x10 {
            return Ok(Frame {
                id: frame.id,
                data: vec![0x30, 0x00, 0x00],
                timestamp: 0,
                is_extended: false,
                is_fd: false,
            });
        }
        if d[0] & 0xF0 == 0x20 {
            // The consecutive frame completes the RequestDownload request:
            // grant 7-byte messages (one length byte), so each TransferData
            // block fits a single frame.
            return Ok(sf_frame(frame.id, vec![0x74, 0x10, 0x07]));
        }
        let sid = if d.len() > 1 { d[1] } else { 0 };
        let response = match sid {
            0x36 => {
                seen.set(seen.get() + 1);
                vec![0x76, d[2]]
            },
            0x37 => vec![0x77],
            _ => vec![0x7F, sid, 0x31],
        };
        Ok(sf_frame(frame.id, response))
    })));
    let mut mock = mock;
    mock.open().unwrap();
    let isotp_config = IsoTpConfig { tx_id: 0x123, rx_id: 0x456, ..Default::default() };
    let mut isotp = IsoTp::with_physical(isotp_config, mock);
    isotp.open().unwrap();
    let mut uds = Uds::with_transport(UdsConfig::default(), isotp);
    uds.open().unwrap();

    let downloader = uds.request_download(0x12345678u32, 32u32).unwrap();
    assert_eq!(downloader.max_block_size(), 7);

    let payload: Vec<u8> = (0..20).map(|i| i as u8).collect();
    downloader.transfer_data(&mut uds, &payload, |_sent, _tail| Ok(())).unwrap();
    // 20 bytes in blocks of 5 payload bytes: four TransferData requests.
    assert_eq!(blocks.get(), 4);
}
