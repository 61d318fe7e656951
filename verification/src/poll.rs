//! Decisions of the polling loop: retries, exponential backoff after a serial
//! port failure, pacing of the cycles, and the integer parts of a snapshot.

use vstd::prelude::*;
use crate::error::DalyError;
use crate::protocol::DataId;
use crate::types::{IoData, MosStatus, StatusInfo};

verus! {

/// Configuration of the polling loop.
#[derive(Debug, Clone, Copy, PartialEq, Eq, Structural)]
pub struct PollConfig {
    /// Interval between two complete polling cycles (ms).
    pub interval_ms: u64,
    /// Number of attempts of a command before a BMS is reported in error
    /// (a command is always tried at least once).
    pub retries: u8,
    /// Initial backoff delay after a serial error (ms).
    pub backoff_initial_ms: u64,
    /// Largest backoff delay (ms).
    pub backoff_max_ms: u64,
}

impl Default for PollConfig {
    fn default() -> (c: Self)
        ensures
            c.interval_ms == 1000,
            c.retries == 3,
            c.backoff_initial_ms == 2000,
            c.backoff_max_ms == 30_000,
    {
        PollConfig { interval_ms: 1000, retries: 3, backoff_initial_ms: 2000, backoff_max_ms: 30_000 }
    }
}

/// Delay between two attempts of the same command (ms).
pub const RETRY_PAUSE_MS: u64 = 100;

/// What the retry loop does after attempt `attempt` (0-based) failed.
#[derive(Debug, Clone, Copy, PartialEq, Eq, Structural)]
pub enum RetryDecision {
    /// Pause `RETRY_PAUSE_MS`, then make the next attempt.
    RetryAfterPause,
    /// Stop and return this error.
    GiveUp,
}

/// After attempt `attempt` (0-based) failed with `err`: a serial port or I/O
/// failure ends the attempts at once; any other error is tried again while
/// fewer than `retries` attempts have been made, so a command is tried at most
/// `retries` times (once when `retries` is 0).
pub fn retry_decision(attempt: u8, retries: u8, err: &DalyError) -> (d: RetryDecision)
    ensures
        d == (if err.spec_is_fatal() || attempt + 1 >= retries {
            RetryDecision::GiveUp
        } else {
            RetryDecision::RetryAfterPause
        }),
{
    if err.is_fatal() {
        RetryDecision::GiveUp
    } else if (attempt as u16) + 1 < retries as u16 {
        RetryDecision::RetryAfterPause
    } else {
        RetryDecision::GiveUp
    }
}

/// Whether a failed read of `cmd` ends the poll of a BMS: the pack status,
/// the min/max cell voltages and temperatures, the MOS state and status
/// information (0x90 to 0x94) are needed for a snapshot; the cell voltages,
/// temperatures, balancing flags and alarms (0x95 to 0x98) fall back to empty
/// values, and so does any other command.
pub fn read_is_required(cmd: DataId) -> (b: bool)
    ensures
        b == (0x90 <= cmd.spec_code() && cmd.spec_code() <= 0x94),
{
    match cmd {
        DataId::PackStatus | DataId::CellVoltageMinMax | DataId::TemperatureMinMax | DataId::MosStatus
        | DataId::StatusInfo1 => true,
        _ => false,
    }
}

/// The backoff after one more serial failure: doubled, at most `max_ms`.
pub fn next_backoff(current_ms: u64, max_ms: u64) -> (b: u64)
    requires
        current_ms <= u64::MAX / 2,
    ensures
        b == (if 2 * current_ms < max_ms { 2 * current_ms } else { max_ms as int }),
{
    let d = current_ms * 2;
    if d < max_ms {
        d
    } else {
        max_ms
    }
}

/// How one BMS of a polling cycle ended.
#[derive(Debug, Clone, Copy, PartialEq, Eq, Structural)]
pub enum DeviceOutcome {
    /// A snapshot was produced.
    Snapshot,
    /// The BMS did not answer in time.
    Timeout,
    /// The serial port failed.
    SerialError,
    /// Any other error.
    OtherError,
}

/// What the loop does after one BMS of a cycle.
#[derive(Debug, Clone, Copy, PartialEq, Eq, Structural)]
pub enum CycleAction {
    /// Hand the snapshot to the consumer and go on with the next BMS.
    Publish,
    /// Report the error and go on with the next BMS.
    Report,
    /// Sleep `backoff_ms` and restart the cycle from its first BMS.
    BackoffAndRestart { backoff_ms: u64 },
}

/// The loop's reaction to `outcome`, and the backoff that follows: a snapshot
/// resets the backoff to its initial value; a serial failure sleeps the
/// current backoff, doubles it (up to the maximum) and restarts the cycle;
/// other errors are reported and leave the backoff unchanged.
pub fn cycle_step(outcome: DeviceOutcome, backoff_ms: u64, config: &PollConfig) -> (r: (CycleAction, u64))
    requires
        backoff_ms <= u64::MAX / 2,
    ensures
        outcome == DeviceOutcome::Snapshot ==> r == (CycleAction::Publish, config.backoff_initial_ms),
        (outcome == DeviceOutcome::Timeout || outcome == DeviceOutcome::OtherError) ==> r == (
        CycleAction::Report, backoff_ms),
        outcome == DeviceOutcome::SerialError ==> r.0 == (CycleAction::BackoffAndRestart {
            backoff_ms,
        }) && r.1 == (if 2 * backoff_ms < config.backoff_max_ms {
            2 * backoff_ms
        } else {
            config.backoff_max_ms as int
        }),
{
    match outcome {
        DeviceOutcome::Snapshot => (CycleAction::Publish, config.backoff_initial_ms),
        DeviceOutcome::Timeout | DeviceOutcome::OtherError => (CycleAction::Report, backoff_ms),
        DeviceOutcome::SerialError => (
            CycleAction::BackoffAndRestart { backoff_ms },
            next_backoff(backoff_ms, config.backoff_max_ms),
        ),
    }
}

/// The time to sleep at the end of a cycle that took `elapsed_ms`, so that
/// cycles start every `interval_ms`; zero when the cycle overran.
pub fn remaining_interval(elapsed_ms: u64, interval_ms: u64) -> (s: u64)
    ensures
        elapsed_ms < interval_ms ==> s == interval_ms - elapsed_ms,
        elapsed_ms >= interval_ms ==> s == 0,
{
    if elapsed_ms < interval_ms {
        interval_ms - elapsed_ms
    } else {
        0
    }
}

/// Operation permissions of a snapshot: charge/discharge follow the MOS
/// states, balancing is allowed, heating is not, and the external relay shows
/// the charger status.
pub fn io_data_from(mos: &MosStatus, status: &StatusInfo) -> (io: IoData)
    ensures
        io.allow_to_charge == (if mos.charge_mos { 1u8 } else { 0u8 }),
        io.allow_to_discharge == (if mos.discharge_mos { 1u8 } else { 0u8 }),
        io.allow_to_balance == 1,
        io.allow_to_heat == 0,
        io.external_relay == status.charger_status,
{
    IoData {
        allow_to_charge: if mos.charge_mos { 1 } else { 0 },
        allow_to_discharge: if mos.discharge_mos { 1 } else { 0 },
        allow_to_balance: 1,
        allow_to_heat: 0,
        external_relay: status.charger_status,
    }
}

/// Module counters of a snapshot: `(blocking_charge, blocking_discharge,
/// system_switch)`; a MOS that is off blocks, and the system switch is on
/// when either MOS is on.
pub fn mos_counters(mos: &MosStatus) -> (r: (u8, u8, u8))
    ensures
        r.0 == (if mos.charge_mos { 0u8 } else { 1u8 }),
        r.1 == (if mos.discharge_mos { 0u8 } else { 1u8 }),
        r.2 == (if mos.charge_mos || mos.discharge_mos { 1u8 } else { 0u8 }),
{
    (
        if mos.charge_mos { 0 } else { 1 },
        if mos.discharge_mos { 0 } else { 1 },
        if mos.charge_mos || mos.discharge_mos { 1 } else { 0 },
    )
}

/// The alarm answer used when reading the alarms failed: both MOS enabled, no
/// alarm bit set.
pub fn alarm_fallback() -> (r: (bool, bool, [u8; 7]))
    ensures
        r.0 && r.1,
        r.2@ == seq![0u8, 0u8, 0u8, 0u8, 0u8, 0u8, 0u8],
{
    let z: [u8; 7] = [0, 0, 0, 0, 0, 0, 0];
    assert(z@ =~= seq![0u8, 0u8, 0u8, 0u8, 0u8, 0u8, 0u8]);
    (true, true, z)
}

// =============================================================================
// Laws
// =============================================================================

/// The backoff never exceeds its maximum once it has been doubled, never
/// decreases while it is below the maximum, and a snapshot always brings it
/// back to the initial value.
pub proof fn lemma_backoff_bounded(current_ms: u64, config: PollConfig)
    requires
        current_ms <= u64::MAX / 2,
    ensures
        ({
            let b = if 2 * current_ms < config.backoff_max_ms {
                2 * current_ms
            } else {
                config.backoff_max_ms as int
            };
            &&& b <= config.backoff_max_ms
            &&& current_ms <= config.backoff_max_ms ==> current_ms <= b
        }),
{
}

} // verus!
