use libautomotive::error::AutomotiveError;
use libautomotive::isotp::{IsoTp, IsoTpConfig};
use libautomotive::physical::can::{RxQueue, TxQueue, RX_QUEUE_SIZE, TX_QUEUE_SIZE};
use libautomotive::physical::mock_lin::{MockLinBehavior, MockLinPhysical};
use libautomotive::physical::PhysicalLayer;
use libautomotive::transport::isobus_diagnostic::{
    DiagnosticTroubleCode, ISOBUSDiagnosticProtocol,
};
use libautomotive::types::Frame;
use libautomotive::uds::{Uds, UdsConfig, UdsSessionType};
use libautomotive::VERSION;

type Handler = Box<dyn Fn(&Frame) -> Result<Frame, AutomotiveError>>;

struct MockPhysical {
    handler: Option<Handler>,
    last_frame: Option<Frame>,
    is_open: bool,
}

impl MockPhysical {
    fn new(handler: Option<Handler>) -> Self {
        MockPhysical { handler, last_frame: None, is_open: false }
    }

    fn new_error() -> Self {
        Self::new(Some(Box::new(|_: &Frame| Err(AutomotiveError::NotInitialized))))
    }
}

impl PhysicalLayer for MockPhysical {
    fn frames_sent(&self) -> vstd::seq::Seq<libautomotive::types::FrameView> {
        unreachable!()
    }

    fn frames_rcvd(&self) -> vstd::seq::Seq<libautomotive::types::FrameView> {
        unreachable!()
    }

    fn open(&mut self) -> Result<(), AutomotiveError> {
        self.is_open = true;
        Ok(())
    }

    fn close(&mut self) -> Result<(), AutomotiveError> {
        self.is_open = false;
        Ok(())
    }

    fn send_frame(&mut self, frame: &Frame) -> Result<(), AutomotiveError> {
        if !self.is_open {
            return Err(AutomotiveError::NotInitialized);
        }
        self.last_frame = Some(frame.clone());
        Ok(())
    }

    fn receive_frame(&mut self) -> Result<Frame, AutomotiveError> {
        if !self.is_open {
            return Err(AutomotiveError::NotInitialized);
        }
        match &self.handler {
            Some(handler) => match &self.last_frame {
                Some(frame) => handler(frame),
                None => Err(AutomotiveError::Timeout),
            },
            None => Err(AutomotiveError::NotInitialized),
        }
    }

    fn set_timeout(&mut self, _timeout_ms: u32) -> Result<(), AutomotiveError> {
        if !self.is_open {
            return Err(AutomotiveError::NotInitialized);
        }
        Ok(())
    }

    fn wait_us(&mut self, _micros: u32) {}
}

fn sf_frame(id: u32, data: Vec<u8>) -> Frame {
    let mut fd = vec![data.len() as u8];
    fd.extend(data);
    Frame { id, data: fd, timestamp: 0, is_extended: false, is_fd: false }
}

#[test]
fn version_is_valid() {
    assert!(!VERSION.is_empty());
}

#[test]
fn test_full_stack_uds() -> Result<(), AutomotiveError> {
    // A mock electronic control unit answering session control, security
    // access and a data-identifier read.
    let mut mock = MockPhysical::new(Some(Box::new(|frame: &Frame| {
        let d = &frame.data;
        let sid = if d.len() > 1 { d[1] } else { 0 };
        let response = match sid {
            0x10 => vec![0x50, 0x01],
            0x27 => {
                if d.len() > 2 && d[2] == 0x01 {
                    vec![0x67, 0x01, 0x01, 0x02, 0x03]
                } else {
                    vec![0x67]
                }
            },
            0x22 => vec![0x62, 0x12, 0x34],
            _ => vec![0x7F, sid, 0x11],
        };
        Ok(sf_frame(frame.id, response))
    })));
    mock.open()?;

    let config = IsoTpConfig::default();
    let mut transport = IsoTp::with_physical(config, mock);
    transport.open()?;

    let mut uds = Uds::with_transport(UdsConfig::default(), transport);
    uds.open()?;

    uds.change_session(UdsSessionType::Programming)?;
    assert_eq!(uds.status.session_type, UdsSessionType::Programming);

    uds.security_access(1, |seed: &[u8]| seed.iter().map(|x| x.wrapping_add(1)).collect())?;
    assert_eq!(uds.status.security_level, 1);

    let vin_data = uds.read_data_by_id(0xF190)?;
    assert_eq!(vin_data, vec![0x12, 0x34]);

    Ok(())
}

#[test]
fn test_full_stack_error_handling() -> Result<(), AutomotiveError> {
    let mut mock = MockPhysical::new_error();
    mock.open()?;

    let config = IsoTpConfig::default();
    let mut transport = IsoTp::with_physical(config, mock);
    transport.open()?;

    let mut uds = Uds::with_transport(UdsConfig::default(), transport);
    uds.open()?;

    let result = uds.change_session(UdsSessionType::Programming);
    assert!(result.is_err());
    assert!(matches!(result.unwrap_err(), AutomotiveError::NotInitialized));

    Ok(())
}

#[test]
fn can_queues_are_bounded_fifos() {
    let mut tx = TxQueue::new();
    assert!(tx.pop().is_none());
    for i in 0..TX_QUEUE_SIZE {
        tx.push(Frame {
            id: i as u32,
            data: vec![i as u8],
            timestamp: 0,
            is_extended: false,
            is_fd: false,
        })
        .unwrap();
    }
    assert!(matches!(
        tx.push(Frame {
            id: 0xFFFF,
            data: vec![],
            timestamp: 0,
            is_extended: false,
            is_fd: false
        }),
        Err(AutomotiveError::BufferOverflow)
    ));
    let first = tx.pop().unwrap();
    assert_eq!(first.id, 0);
    assert_eq!(tx.len(), TX_QUEUE_SIZE - 1);

    let mut rx = RxQueue::new();
    for i in 0..RX_QUEUE_SIZE {
        rx.push(Frame {
            id: i as u32,
            data: vec![],
            timestamp: 0,
            is_extended: false,
            is_fd: false,
        })
        .unwrap();
    }
    assert!(matches!(
        rx.push(Frame { id: 1, data: vec![], timestamp: 0, is_extended: false, is_fd: false }),
        Err(AutomotiveError::BufferOverflow)
    ));
    assert_eq!(rx.pop().unwrap().id, 0);
    assert_eq!(rx.pop().unwrap().id, 1);
}

#[test]
fn mock_lin_echoes_last_sent_frame() {
    let mut mock = MockLinPhysical::new_echo();
    mock.open().unwrap();
    assert!(mock.get_last_sent().is_none());
    let frame = Frame { id: 7, data: vec![1, 2], timestamp: 0, is_extended: false, is_fd: false };
    mock.send_frame(&frame).unwrap();
    let last = mock.get_last_sent().unwrap();
    assert_eq!(last.id, 7);
    assert_eq!(last.data, vec![1, 2]);
    let echoed = mock.receive_frame().unwrap();
    assert_eq!(echoed.data, vec![1, 2]);

    let mut failing = MockLinPhysical::new(MockLinBehavior::Fail);
    failing.open().unwrap();
    assert!(failing.receive_frame().is_err());
}

#[test]
fn isobus_dtc_word_round_trip() {
    let dtc = DiagnosticTroubleCode::new(0x12345, 0x0B);
    let bytes = dtc.to_bytes();
    assert_eq!(bytes.len(), 4);
    let parsed = DiagnosticTroubleCode::from_bytes(&bytes).unwrap();
    assert_eq!(parsed.spn, 0x12345);
    assert_eq!(parsed.fmi, 0x0B);
    assert_eq!(parsed.occurrence_count, 1);
}

#[test]
fn isobus_dtc_store_counts_repeats_and_clears() {
    let mut diag = ISOBUSDiagnosticProtocol::new();
    diag.add_dtc(DiagnosticTroubleCode::new(100, 3));
    diag.add_dtc(DiagnosticTroubleCode::new(100, 3));
    diag.add_dtc(DiagnosticTroubleCode::new(200, 4));
    let active = diag.get_active_dtcs();
    assert_eq!(active.len(), 2);
    assert_eq!(active[0].occurrence_count, 2);
    assert_eq!(active[1].occurrence_count, 1);

    diag.clear_dtc(100, 3);
    let active = diag.get_active_dtcs();
    assert_eq!(active.len(), 1);
    assert_eq!(active[0].spn, 200);

    diag.clear_active_dtcs();
    assert!(diag.get_active_dtcs().is_empty());
}

#[test]
fn isobus_dm_messages_manage_stores() {
    let mut diag = ISOBUSDiagnosticProtocol::new();
    diag.add_dtc(DiagnosticTroubleCode::new(100, 3));
    // DM11 clears the active store.
    let dm11 = Frame {
        id: 0xFED4 << 8,
        data: vec![],
        timestamp: 0,
        is_extended: true,
        is_fd: false,
    };
    diag.process_message(&dm11).unwrap();
    assert!(diag.get_active_dtcs().is_empty());

    // DM13 switches broadcasting off; a due clock tick then produces no
    // DM1 frame.
    diag.add_dtc(DiagnosticTroubleCode::new(100, 3));
    let dm13 = Frame {
        id: 0xFED6 << 8,
        data: vec![0x00],
        timestamp: 0,
        is_extended: true,
        is_fd: false,
    };
    diag.process_message(&dm13).unwrap();
    assert!(diag.update_at(10_000).unwrap().is_none());
}

#[test]
fn isobus_dm1_broadcast_carries_active_codes() {
    let mut diag = ISOBUSDiagnosticProtocol::new();
    diag.add_dtc(DiagnosticTroubleCode::new(100, 3));
    let frame = diag.update_at(5_000).unwrap().unwrap();
    assert!(frame.is_extended);
    assert_eq!(frame.id, 0xFECA << 8);
    assert_eq!(frame.data.len(), 2 + 4);
    assert_eq!(&frame.data[0..2], &[0x00, 0x00]);
    // Within the broadcast interval no second frame is due.
    assert!(diag.update_at(5_500).unwrap().is_none());
    // After the interval the broadcast repeats.
    assert!(diag.update_at(6_500).unwrap().is_some());
}
