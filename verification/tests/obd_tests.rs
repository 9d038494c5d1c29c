use libautomotive::error::AutomotiveError;
use libautomotive::isotp::{IsoTp, IsoTpConfig};
use libautomotive::obdii::{self, Obd, ObdConfig, PID_ENGINE_RPM, PID_VEHICLE_SPEED};
use libautomotive::physical::PhysicalLayer;
use libautomotive::types::Frame;

type Handler = Box<dyn Fn(&Frame) -> Result<Frame, AutomotiveError>>;

struct MockPhysical {
    handler: Option<Handler>,
    last_frame: Option<Frame>,
    is_open: bool,
}

impl MockPhysical {
    fn new(handler: Option<Handler>) -> Self {
        MockPhysical { handler, last_frame: None, is_open: false }
    }

    fn new_error() -> Self {
        Self::new(Some(Box::new(|_: &Frame| Err(AutomotiveError::NotInitialized))))
    }
}

impl PhysicalLayer for MockPhysical {
    fn frames_sent(&self) -> vstd::seq::Seq<libautomotive::types::FrameView> {
        unreachable!()
    }

    fn frames_rcvd(&self) -> vstd::seq::Seq<libautomotive::types::FrameView> {
        unreachable!()
    }

    fn open(&mut self) -> Result<(), AutomotiveError> {
        self.is_open = true;
        Ok(())
    }

    fn close(&mut self) -> Result<(), AutomotiveError> {
        self.is_open = false;
        Ok(())
    }

    fn send_frame(&mut self, frame: &Frame) -> Result<(), AutomotiveError> {
        if !self.is_open {
            return Err(AutomotiveError::NotInitialized);
        }
        self.last_frame = Some(frame.clone());
        Ok(())
    }

    fn receive_frame(&mut self) -> Result<Frame, AutomotiveError> {
        if !self.is_open {
            return Err(AutomotiveError::NotInitialized);
        }
        match &self.handler {
            Some(handler) => match &self.last_frame {
                Some(frame) => handler(frame),
                None => Err(AutomotiveError::Timeout),
            },
            None => Err(AutomotiveError::NotInitialized),
        }
    }

    fn set_timeout(&mut self, _timeout_ms: u32) -> Result<(), AutomotiveError> {
        if !self.is_open {
            return Err(AutomotiveError::NotInitialized);
        }
        Ok(())
    }

    fn wait_us(&mut self, _micros: u32) {}
}

fn wrap_sf(data: Vec<u8>) -> Vec<u8> {
    let mut frame_data = vec![data.len() as u8];
    frame_data.extend(data);
    frame_data
}

fn sf_frame(id: u32, data: Vec<u8>) -> Frame {
    Frame { id, data: wrap_sf(data), timestamp: 0, is_extended: false, is_fd: false }
}

fn create_mock_obd() -> Obd<IsoTp<MockPhysical>> {
    let mock = MockPhysical::new(Some(Box::new(|frame: &Frame| {
        let d = &frame.data;
        let mode = if !d.is_empty() && d[0] & 0xF0 == 0x00 && d.len() > 1 { d[1] } else { 0 };
        let response = match mode {
            0x01 => {
                let pid = if d.len() > 2 { d[2] } else { 0 };
                match pid {
                    PID_ENGINE_RPM => vec![0x41, PID_ENGINE_RPM, 0x1B, 0x56],
                    PID_VEHICLE_SPEED => vec![0x41, PID_VEHICLE_SPEED, 0x32],
                    _ => vec![0x41, pid, 0x00],
                }
            },
            0x03 => vec![0x43, 0x02, 0x01, 0x33, 0x02, 0x44],
            0x02 => {
                let pid = if d.len() > 2 { d[2] } else { 0 };
                vec![0x42, pid, 0x00, 0x1B, 0x56]
            },
            0x04 => vec![0x44, 0x00],
            _ => vec![0x7F, mode, 0x11],
        };
        Ok(sf_frame(frame.id, response))
    })));

    let mut mock = mock;
    mock.open().unwrap();

    let isotp_config = IsoTpConfig { tx_id: 0x7DF, rx_id: 0x7E8, ..Default::default() };

    let mut isotp = IsoTp::with_physical(isotp_config, mock);
    isotp.open().unwrap();

    let obd_config = ObdConfig { timeout_ms: 1000, auto_format: true };

    let mut obd = Obd::with_transport(obd_config, isotp);
    obd.open().unwrap();
    obd
}

#[test]
fn test_obd_read_dtc() -> Result<(), AutomotiveError> {
    let mut obd = create_mock_obd();

    let dtcs = obd.read_dtc()?;
    assert_eq!(dtcs.len(), 2);
    assert_eq!(dtcs[0], "P0133");
    assert_eq!(dtcs[1], "P0244");

    obd.close().unwrap();
    Ok(())
}

#[test]
fn test_obd_freeze_frame() {
    let obd_config = ObdConfig::default();

    let mock = MockPhysical::new(Some(Box::new(|frame: &Frame| {
        Ok(sf_frame(frame.id, vec![0x42, PID_ENGINE_RPM, 0x00, 0x1B, 0x56]))
    })));

    let mut mock = mock;
    mock.open().unwrap();

    let isotp_config = IsoTpConfig { tx_id: 0x7E0, rx_id: 0x7E8, ..Default::default() };

    let mut isotp = IsoTp::with_physical(isotp_config, mock);
    isotp.open().unwrap();

    let mut obd = Obd::with_transport(obd_config, isotp);
    obd.open().unwrap();

    let _ = obd.read_freeze_frame(PID_ENGINE_RPM, 0x00).unwrap();

    obd.close().unwrap();
}

#[test]
fn test_obd_error_handling() {
    let mock = MockPhysical::new_error();

    let isotp_config = IsoTpConfig { tx_id: 0x7DF, rx_id: 0x7E8, ..Default::default() };

    let isotp = IsoTp::with_physical(isotp_config, mock);
    let obd_config = ObdConfig { timeout_ms: 1000, auto_format: true };
    let mut obd = Obd::with_transport(obd_config, isotp);

    assert!(obd.read_sensor(PID_ENGINE_RPM).is_err());
    assert!(obd.read_dtc().is_err());
    assert!(obd.clear_dtc().is_err());
}

#[test]
fn obd_read_rpm_raw_reading() {
    // Request [0x01, 0x0C], response [0x41, 0x0C, 0x1B, 0x56]: the raw
    // reading is [0x1B, 0x56], which scales to 1750 revolutions per minute.
    let mut obd = create_mock_obd();
    let raw = obd.read_sensor(PID_ENGINE_RPM).unwrap();
    assert_eq!(raw, vec![0x1B, 0x56]);
    let word = obdii::raw_word(raw[0], raw[1]);
    assert_eq!(word, 6998);
    let rpm = (word as f32 / 4.0).round();
    assert_eq!(rpm, 1750.0);
    obd.close().unwrap();
}

#[test]
fn obd_read_vehicle_speed_raw_reading() {
    let mut obd = create_mock_obd();
    let raw = obd.read_sensor(PID_VEHICLE_SPEED).unwrap();
    assert_eq!(raw, vec![0x32]);
    obd.close().unwrap();
}

#[test]
fn obd_dtc_decode_exact_strings() {
    // Every 2-byte word decodes to a letter and four hexadecimal digits.
    assert_eq!(obdii::dtc_string(0x01, 0x33), "P0133");
    assert_eq!(obdii::dtc_string(0x02, 0x44), "P0244");
    assert_eq!(obdii::dtc_string(0x41, 0x23), "C0123");
    assert_eq!(obdii::dtc_string(0x9A, 0xBC), "B1ABC");
    assert_eq!(obdii::dtc_string(0xFF, 0xFF), "U3FFF");
}

#[test]
fn obd_dtc_first_char_is_system_letter() {
    // The top two bits of the first byte pick P, C, B or U, and the code is
    // always five characters long.
    for b0 in [0x00u8, 0x3F, 0x40, 0x7F, 0x80, 0xBF, 0xC0, 0xFF] {
        let s = obdii::dtc_string(b0, 0x00);
        assert_eq!(s.len(), 5);
        let first = s.chars().next().unwrap();
        assert!(first == 'P' || first == 'C' || first == 'B' || first == 'U');
    }
}

#[test]
fn obd_clear_dtc_round_trip() {
    let mut obd = create_mock_obd();
    obd.clear_dtc().unwrap();
    obd.close().unwrap();
}

#[test]
fn obd_pid_min_len_table() {
    assert_eq!(obdii::pid_min_len(PID_ENGINE_RPM), 2);
    assert_eq!(obdii::pid_min_len(obdii::PID_MAF_SENSOR), 2);
    assert_eq!(obdii::pid_min_len(obdii::PID_VEHICLE_SPEED), 1);
    assert_eq!(obdii::pid_min_len(obdii::PID_ENGINE_COOLANT_TEMP), 1);
}
