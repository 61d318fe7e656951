//! The integer parts of the Venus OS battery payload (`{prefix}/{index}/venus`,
//! the dbus-mqtt-battery format): the alarm levels and the I/O flags.

use vstd::prelude::*;
use crate::types::{Alarms, IoData};

verus! {

/// `Alarms` object of the payload: one level per alarm (0 OK, 1 warning, 2 alarm).
#[derive(Debug, Clone, Copy, PartialEq, Eq, Structural)]
pub struct AlarmsPayload {
    pub low_voltage: i32,
    pub high_voltage: i32,
    pub low_soc: i32,
    pub high_charge_current: i32,
    pub high_discharge_current: i32,
    pub high_current: i32,
    pub cell_imbalance: i32,
    pub high_charge_temperature: i32,
    pub low_charge_temperature: i32,
    pub low_cell_voltage: i32,
    pub low_temperature: i32,
    pub high_temperature: i32,
    pub fuse_blown: i32,
}

/// `Io` object of the payload.
#[derive(Debug, Clone, Copy, PartialEq, Eq, Structural)]
pub struct IoPayload {
    pub allow_to_charge: i32,
    pub allow_to_discharge: i32,
    pub allow_to_balance: i32,
    pub external_relay: i32,
}

/// The alarms of a snapshot as published to Venus OS: each level unchanged.
pub fn venus_alarms(a: &Alarms) -> (p: AlarmsPayload)
    ensures
        p.low_voltage == a.low_voltage,
        p.high_voltage == a.high_voltage,
        p.low_soc == a.low_soc,
        p.high_charge_current == a.high_charge_current,
        p.high_discharge_current == a.high_discharge_current,
        p.high_current == a.high_current,
        p.cell_imbalance == a.cell_imbalance,
        p.high_charge_temperature == a.high_charge_temperature,
        p.low_charge_temperature == a.low_charge_temperature,
        p.low_cell_voltage == a.low_cell_voltage,
        p.low_temperature == a.low_temperature,
        p.high_temperature == a.high_temperature,
        p.fuse_blown == a.fuse_blown,
{
    AlarmsPayload {
        low_voltage: a.low_voltage as i32,
        high_voltage: a.high_voltage as i32,
        low_soc: a.low_soc as i32,
        high_charge_current: a.high_charge_current as i32,
        high_discharge_current: a.high_discharge_current as i32,
        high_current: a.high_current as i32,
        cell_imbalance: a.cell_imbalance as i32,
        high_charge_temperature: a.high_charge_temperature as i32,
        low_charge_temperature: a.low_charge_temperature as i32,
        low_cell_voltage: a.low_cell_voltage as i32,
        low_temperature: a.low_temperature as i32,
        high_temperature: a.high_temperature as i32,
        fuse_blown: a.fuse_blown as i32,
    }
}

/// The I/O flags of a snapshot as published to Venus OS. Charge and discharge
/// are always announced as allowed (1), so that Venus OS never passes the
/// BMS MOS state on to the solar chargers; balancing and the relay are passed
/// on unchanged.
pub fn venus_io(io: &IoData) -> (p: IoPayload)
    ensures
        p.allow_to_charge == 1,
        p.allow_to_discharge == 1,
        p.allow_to_balance == io.allow_to_balance,
        p.external_relay == io.external_relay,
{
    IoPayload {
        allow_to_charge: 1,
        allow_to_discharge: 1,
        allow_to_balance: io.allow_to_balance as i32,
        external_relay: io.external_relay as i32,
    }
}

} // verus!
