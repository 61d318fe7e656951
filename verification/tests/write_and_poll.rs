use daly_bms::error::DalyError;
use daly_bms::poll::{alarm_fallback, cycle_step, io_data_from, mos_counters, next_backoff, read_is_required, remaining_interval, retry_decision, CycleAction, DeviceOutcome, PollConfig, RetryDecision};
use daly_bms::protocol::DataId;
use daly_bms::types::{MosStatus, SocRaw, StatusInfo};
use daly_bms::write::{check_mos_readback, check_soc_readback, check_writable, mos_request, payload_to_data, reset_request, soc_data};

#[test]
fn read_only_refuses_writes() {
    assert!(matches!(check_writable(true), Err(DalyError::ReadOnly)));
    assert!(check_writable(false).is_ok());
    assert!(matches!(mos_request(true, true, true), Err(DalyError::ReadOnly)));
    assert!(matches!(reset_request(true), Err(DalyError::ReadOnly)));
}

#[test]
fn mos_requests() {
    let (cmd, data) = mos_request(true, true, false).unwrap();
    assert_eq!(cmd, DataId::SetChargeMos);
    assert_eq!(data, [1, 0, 0, 0, 0, 0, 0, 0]);
    let (cmd, data) = mos_request(false, false, false).unwrap();
    assert_eq!(cmd, DataId::SetDischargeMos);
    assert_eq!(data, [0; 8]);
    assert_eq!(payload_to_data(7), [7, 0, 0, 0, 0, 0, 0, 0]);
}

#[test]
fn mos_readback() {
    let mos = MosStatus { charge_mos: true, discharge_mos: false, ..Default::default() };
    assert!(check_mos_readback(1, true, true, &mos).is_ok());
    assert!(matches!(
        check_mos_readback(1, false, true, &mos),
        Err(DalyError::VerifyFailed { bms_id: 1, cmd: 0xD9 })
    ));
}

#[test]
fn soc_and_reset_data() {
    assert_eq!(soc_data(805), [0x03, 0x25, 0, 0, 0, 0, 0, 0]);
    let (cmd, data) = reset_request(false).unwrap();
    assert_eq!(cmd, DataId::Reset);
    assert_eq!(data, [0; 8]);
}

#[test]
fn poll_config_defaults() {
    let c = PollConfig::default();
    assert_eq!((c.interval_ms, c.retries, c.backoff_initial_ms, c.backoff_max_ms), (1000, 3, 2000, 30_000));
}

#[test]
fn retry_stops_on_fatal_errors_and_last_attempt() {
    let timeout = DalyError::Timeout { bms_id: 1, cmd: 0x90 };
    assert_eq!(retry_decision(0, 3, &timeout), RetryDecision::RetryAfterPause);
    assert_eq!(retry_decision(1, 3, &timeout), RetryDecision::RetryAfterPause);
    assert_eq!(retry_decision(2, 3, &timeout), RetryDecision::GiveUp);
    assert_eq!(retry_decision(3, 3, &timeout), RetryDecision::GiveUp);
    assert_eq!(retry_decision(0, 1, &timeout), RetryDecision::GiveUp);
    assert_eq!(retry_decision(0, 0, &timeout), RetryDecision::GiveUp);
    assert_eq!(retry_decision(0, 3, &DalyError::Serial("gone".to_string())), RetryDecision::GiveUp);
    assert_eq!(retry_decision(0, 3, &DalyError::Io("eio".to_string())), RetryDecision::GiveUp);
}

#[test]
fn backoff_doubles_up_to_max() {
    assert_eq!(next_backoff(2000, 30_000), 4000);
    assert_eq!(next_backoff(16_000, 30_000), 30_000);
    let c = PollConfig::default();
    assert_eq!(cycle_step(DeviceOutcome::SerialError, 2000, &c), (CycleAction::BackoffAndRestart { backoff_ms: 2000 }, 4000));
    assert_eq!(cycle_step(DeviceOutcome::Snapshot, 8000, &c), (CycleAction::Publish, 2000));
    assert_eq!(cycle_step(DeviceOutcome::Timeout, 8000, &c), (CycleAction::Report, 8000));
    assert_eq!(cycle_step(DeviceOutcome::OtherError, 8000, &c), (CycleAction::Report, 8000));
}

#[test]
fn cycle_pacing() {
    assert_eq!(remaining_interval(300, 1000), 700);
    assert_eq!(remaining_interval(1500, 1000), 0);
}

#[test]
fn snapshot_integer_parts() {
    let mos = MosStatus { charge_mos: true, discharge_mos: false, ..Default::default() };
    let status = StatusInfo { charger_status: 1, ..Default::default() };
    let io = io_data_from(&mos, &status);
    assert_eq!((io.allow_to_charge, io.allow_to_discharge, io.allow_to_balance, io.allow_to_heat, io.external_relay), (1, 0, 1, 0, 1));
    assert_eq!(mos_counters(&mos), (0, 1, 1));
    let off = MosStatus::default();
    assert_eq!(mos_counters(&off), (1, 1, 0));
    assert_eq!(alarm_fallback(), (true, true, [0; 7]));
}

#[test]
fn required_reads_of_a_poll() {
    use_required();
}

fn use_required() {
    for cmd in [DataId::PackStatus, DataId::CellVoltageMinMax, DataId::TemperatureMinMax, DataId::MosStatus, DataId::StatusInfo1] {
        assert!(read_is_required(cmd));
    }
    for cmd in [DataId::CellVoltages1, DataId::Temperatures, DataId::BalanceStatus, DataId::AlarmFlags, DataId::SetSoc, DataId::Reset] {
        assert!(!read_is_required(cmd));
    }
}

#[test]
fn soc_read_back_after_calibration() {
    let pack = SocRaw { voltage_dv: 532, current_raw: 30000, soc_permille: 800 };
    assert_eq!(check_soc_readback(1, 800, &pack), Ok(()));
    assert_eq!(check_soc_readback(1, 801, &pack), Err(DalyError::VerifyFailed { bms_id: 1, cmd: 0x21 }));
}
