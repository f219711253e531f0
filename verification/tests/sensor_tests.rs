use co2_monitor::sensor::{
    decode_alg_result, describe_meas_mode, error_message, firmware_loaded, CO2Sensor, ConfigStep,
    Errors,
    FindDevStep, MeasurementDriveMode, RegisterRead, Status, StatusStep, ALG_RESULT_REG,
    APP_START, ERROR_ID_REG, MEAS_MODE_REG, STATUS_REG,
};

/// Drives the device search against a bus where the addresses in `present` answer.
fn search(sensor: &mut CO2Sensor, present: &[u8]) -> (FindDevStep, Vec<u8>) {
    let mut probed = Vec::new();
    let mut step = sensor.find_dev(None);
    while let FindDevStep::Probe(a) = step {
        probed.push(a);
        step = sensor.find_dev(Some((a, present.contains(&a))));
    }
    (step, probed)
}

#[test]
fn flag_and_mode_bits() {
    assert_eq!(Status::FwMode.bits(), 0b1000_0000);
    assert_eq!(Status::AppValid.bits(), 0b0001_0000);
    assert_eq!(Status::DataReady.bits(), 0b0000_1000);
    assert_eq!(Status::Error.bits(), 0b0000_0001);
    assert_eq!(MeasurementDriveMode::Mode0Idle.bits(), 0b0000_0000);
    assert_eq!(MeasurementDriveMode::Mode11S.bits(), 0b0001_0000);
    assert_eq!(MeasurementDriveMode::Mode210S.bits(), 0b0010_0000);
    assert_eq!(MeasurementDriveMode::Mode360S.bits(), 0b0011_0000);
    assert_eq!(MeasurementDriveMode::Mode4250MS.bits(), 0b0100_0000);
    assert_eq!(MeasurementDriveMode::IRQEnable.bits(), 0b0000_1000);
}

#[test]
fn new_sensor_is_unsearched() {
    let s = CO2Sensor::new();
    assert_eq!(s.dev_addr(), 0);
    assert!(!s.interrupt_active());
}

#[test]
fn search_stops_at_first_device() {
    let mut s = CO2Sensor::new();
    let (step, probed) = search(&mut s, &[0x5A, 0x70]);
    assert_eq!(step, FindDevStep::Done(Ok(true)));
    assert_eq!(s.dev_addr(), 0x5A);
    assert_eq!(probed, (0..=0x5A).collect::<Vec<u8>>());
}

#[test]
fn search_at_address_zero_and_last() {
    let mut s = CO2Sensor::new();
    let (step, probed) = search(&mut s, &[0]);
    assert_eq!(step, FindDevStep::Done(Ok(true)));
    assert_eq!(probed, vec![0]);
    assert_eq!(s.dev_addr(), 0);
    let mut s = CO2Sensor::new();
    let (step, _) = search(&mut s, &[127]);
    assert_eq!(step, FindDevStep::Done(Ok(true)));
    assert_eq!(s.dev_addr(), 127);
}

#[test]
fn search_without_device_fails() {
    let mut s = CO2Sensor::new();
    let (step, probed) = search(&mut s, &[128, 200]);
    assert_eq!(step, FindDevStep::Done(Err(Errors::NoDeviceFound)));
    assert_eq!(probed.len(), 128);
    assert_eq!(s.dev_addr(), 0);
}

#[test]
fn status_in_application_mode() {
    let mut s = CO2Sensor::new();
    search(&mut s, &[0x5A]);
    let mut c = s.read_status();
    assert_eq!(c.step(), StatusStep::ReadRegister { addr: 0x5A, register: STATUS_REG });
    assert_eq!(c.received(0x98), StatusStep::Done);
    // A finished check ignores what it is handed.
    assert_eq!(c.received(0x00), StatusStep::Done);
    assert_eq!(c.written(), StatusStep::Done);
    assert_eq!(c.reported(), StatusStep::Done);
}

#[test]
fn status_with_error_reads_error_id() {
    let s = CO2Sensor::new();
    let mut c = s.read_status();
    assert_eq!(c.received(0x91), StatusStep::ReadRegister { addr: 0, register: ERROR_ID_REG });
    assert_eq!(c.received(0x04), StatusStep::ReportError { id: 0x04 });
    assert_eq!(c.reported(), StatusStep::Done);
}

#[test]
fn status_in_boot_mode_starts_the_application() {
    let s = CO2Sensor::new();
    let mut c = s.read_status();
    assert_eq!(c.received(0x10), StatusStep::WriteCommand { addr: 0, command: APP_START });
    // A byte is not what the check waits for now.
    assert_eq!(c.received(0x80), StatusStep::WriteCommand { addr: 0, command: APP_START });
    assert_eq!(c.written(), StatusStep::ReadRegister { addr: 0, register: STATUS_REG });
    assert_eq!(c.received(0x90), StatusStep::Done);
}

#[test]
fn outer_error_is_reported_after_the_application_starts() {
    let s = CO2Sensor::new();
    let mut c = s.read_status();
    assert_eq!(c.received(0x11), StatusStep::WriteCommand { addr: 0, command: APP_START });
    assert_eq!(c.written(), StatusStep::ReadRegister { addr: 0, register: STATUS_REG });
    assert_eq!(c.received(0x81), StatusStep::ReadRegister { addr: 0, register: ERROR_ID_REG });
    assert_eq!(c.received(0x02), StatusStep::ReportError { id: 0x02 });
    assert_eq!(c.reported(), StatusStep::ReadRegister { addr: 0, register: ERROR_ID_REG });
    assert_eq!(c.received(0x08), StatusStep::ReportError { id: 0x08 });
    assert_eq!(c.reported(), StatusStep::Done);
}

#[test]
fn status_without_firmware_is_recognised() {
    assert!(!firmware_loaded(0x00));
    assert!(!firmware_loaded(0x01));
    assert!(!firmware_loaded(0x08));
    assert!(firmware_loaded(0x10));
    assert!(firmware_loaded(0x80));
    assert!(firmware_loaded(0x91));
}

#[test]
fn app_start_writes_then_checks() {
    let s = CO2Sensor::new();
    let mut c = s.app_start();
    assert_eq!(c.step(), StatusStep::WriteCommand { addr: 0, command: APP_START });
    assert_eq!(c.written(), StatusStep::ReadRegister { addr: 0, register: STATUS_REG });
    assert_eq!(c.received(0x90), StatusStep::Done);
}

#[test]
fn configuration_writes_when_a_bit_is_shared() {
    let s = CO2Sensor::new();
    let mut c = s.config_i2c(MeasurementDriveMode::Mode11S, true);
    assert_eq!(c.configuration, 0x18);
    assert_eq!(c.step, ConfigStep::ReadRegister { addr: 0, register: MEAS_MODE_REG });
    assert_eq!(
        c.received(0x10),
        ConfigStep::WriteRegister { addr: 0, register: MEAS_MODE_REG, value: 0x18 }
    );
    assert_eq!(c.written(), ConfigStep::ReadRegister { addr: 0, register: MEAS_MODE_REG });
    assert_eq!(c.received(0x18), ConfigStep::Done { confirmed: true });
}

#[test]
fn configuration_skips_the_write_when_no_bit_is_shared() {
    let s = CO2Sensor::new();
    let mut c = s.config_i2c(MeasurementDriveMode::Mode210S, false);
    assert_eq!(c.configuration, 0x20);
    assert_eq!(c.received(0x10), ConfigStep::ReadRegister { addr: 0, register: MEAS_MODE_REG });
    assert_eq!(c.received(0x10), ConfigStep::Done { confirmed: false });
}

#[test]
fn configuration_of_idle_without_interrupt_is_never_written() {
    let s = CO2Sensor::new();
    let mut c = s.config_i2c(MeasurementDriveMode::Mode0Idle, false);
    assert_eq!(c.configuration, 0);
    assert_eq!(c.received(0xff), ConfigStep::ReadRegister { addr: 0, register: MEAS_MODE_REG });
    assert_eq!(c.received(0xff), ConfigStep::Done { confirmed: false });
}

#[test]
fn reads_of_result_and_mode_registers() {
    let s = CO2Sensor::new();
    assert_eq!(s.read_data(), RegisterRead { addr: 0, register: ALG_RESULT_REG, len: 8 });
    assert_eq!(s.read_meas_mode(), RegisterRead { addr: 0, register: MEAS_MODE_REG, len: 1 });
}

#[test]
fn algorithm_result_decoding() {
    let r = decode_alg_result(&[0x01, 0x90, 0x00, 0x0C, 0x98, 0x00, 0x12, 0x34]);
    assert_eq!(r.reading, Ok((400, 12)));
    assert_eq!(r.error_id, None);
    let r = decode_alg_result(&[0xff, 0xff, 0x80, 0x01, 0x09, 0x04, 0, 0]);
    assert_eq!(r.reading, Ok((65535, 0x8001)));
    assert_eq!(r.error_id, Some(0x04));
}

#[test]
fn algorithm_result_without_new_sample() {
    let r = decode_alg_result(&[0x01, 0x90, 0x00, 0x0C, 0x90, 0x00, 0, 0]);
    assert_eq!(r.reading, Err(Errors::DataNotReady));
    assert_eq!(r.error_id, None);
    let r = decode_alg_result(&[0x01, 0x90, 0x00, 0x0C, 0x01, 0x10, 0, 0]);
    assert_eq!(r.reading, Err(Errors::DataNotReady));
    assert_eq!(r.error_id, Some(0x10));
}

#[test]
fn measurement_mode_descriptions() {
    let r = describe_meas_mode(0x18);
    assert_eq!(r.mode, Some(MeasurementDriveMode::Mode11S));
    assert!(r.interrupt_enabled);
    assert_eq!(describe_meas_mode(0x20).mode, Some(MeasurementDriveMode::Mode210S));
    let r = describe_meas_mode(0x30);
    assert_eq!(r.mode, Some(MeasurementDriveMode::Mode360S));
    assert!(!r.interrupt_enabled);
    assert_eq!(describe_meas_mode(0x40).mode, Some(MeasurementDriveMode::Mode4250MS));
    assert_eq!(describe_meas_mode(0x50).mode, Some(MeasurementDriveMode::Mode11S));
    assert_eq!(describe_meas_mode(0x60).mode, Some(MeasurementDriveMode::Mode210S));
    assert_eq!(describe_meas_mode(0x70).mode, Some(MeasurementDriveMode::Mode11S));
    let r = describe_meas_mode(0x00);
    assert_eq!(r.mode, Some(MeasurementDriveMode::Mode0Idle));
    assert!(!r.interrupt_enabled);
    assert_eq!(describe_meas_mode(0x0C).mode, Some(MeasurementDriveMode::Mode0Idle));
}

#[test]
fn error_messages() {
    assert_eq!(error_message(1), b"WRITE_REG_INVALID".to_vec());
    assert_eq!(error_message(2), b"READ_REG_INVALID".to_vec());
    assert_eq!(error_message(4), b"MEASMODE_INVALID".to_vec());
    assert_eq!(error_message(8), b"MAX_RESISTANCE".to_vec());
    assert_eq!(error_message(16), b"HEATER_FAULT".to_vec());
    assert_eq!(error_message(32), b"HEATER_SUPPLY".to_vec());
    assert_eq!(error_message(3), b"Error 00000011".to_vec());
    assert_eq!(error_message(0), b"Error 00000000".to_vec());
    assert_eq!(error_message(0xC0), b"Error 11000000".to_vec());
}

#[test]
fn configuration_byte_keeps_mode_and_sets_interrupt_bit() {
    let modes = [
        MeasurementDriveMode::Mode0Idle,
        MeasurementDriveMode::Mode11S,
        MeasurementDriveMode::Mode210S,
        MeasurementDriveMode::Mode360S,
        MeasurementDriveMode::Mode4250MS,
        MeasurementDriveMode::IRQEnable,
    ];
    let s = CO2Sensor::new();
    for mode in modes {
        for interrupt in [false, true] {
            let c = s.config_i2c(mode, interrupt);
            let irq = c.configuration & MeasurementDriveMode::IRQEnable.bits() != 0;
            assert_eq!(irq, interrupt || mode == MeasurementDriveMode::IRQEnable);
            assert_eq!(c.configuration & 0x70, mode.bits() & 0x70);
        }
    }
}

#[test]
fn recognised_modes_over_all_bytes() {
    for m in 0..=255u8 {
        let r = describe_meas_mode(m);
        let expected = match m & 0x70 {
            0x00 => Some(MeasurementDriveMode::Mode0Idle),
            0x10 => Some(MeasurementDriveMode::Mode11S),
            0x20 => Some(MeasurementDriveMode::Mode210S),
            0x30 => Some(MeasurementDriveMode::Mode360S),
            0x40 => Some(MeasurementDriveMode::Mode4250MS),
            0x50 | 0x70 => Some(MeasurementDriveMode::Mode11S),
            _ => Some(MeasurementDriveMode::Mode210S),
        };
        assert_eq!(r.mode, expected);
        assert_eq!(r.interrupt_enabled, m & 0x08 != 0);
    }
}

#[test]
fn configured_mode_reads_back() {
    let modes = [
        MeasurementDriveMode::Mode0Idle,
        MeasurementDriveMode::Mode11S,
        MeasurementDriveMode::Mode210S,
        MeasurementDriveMode::Mode360S,
        MeasurementDriveMode::Mode4250MS,
    ];
    let s = CO2Sensor::new();
    for mode in modes {
        for interrupt in [false, true] {
            let c = s.config_i2c(mode, interrupt);
            let r = describe_meas_mode(c.configuration);
            assert_eq!(r.mode, Some(mode));
            assert_eq!(r.interrupt_enabled, interrupt);
        }
    }
}
