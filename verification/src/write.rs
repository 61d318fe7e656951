//! Write commands: the guards, payloads and read-back checks.
//!
//! Every write is refused in read-only mode; MOS commands are confirmed by
//! reading the MOS state back (0x93) and comparing it with the request, and a
//! SOC calibration by reading the pack status back (0x90).

use vstd::prelude::*;
use crate::error::DalyError;
use crate::protocol::DataId;
use crate::types::{MosStatus, SocRaw};

verus! {

/// A data field with `value` in data[0], the rest zero.
pub fn payload_to_data(value: u8) -> (data: [u8; 8])
    ensures
        data@ == seq![value, 0u8, 0u8, 0u8, 0u8, 0u8, 0u8, 0u8],
{
    let data: [u8; 8] = [value, 0, 0, 0, 0, 0, 0, 0];
    assert(data@ =~= seq![value, 0u8, 0u8, 0u8, 0u8, 0u8, 0u8, 0u8]);
    data
}

/// Refuses every write in read-only mode.
pub fn check_writable(read_only: bool) -> (r: Result<(), DalyError>)
    ensures
        read_only ==> r == Err::<(), DalyError>(DalyError::ReadOnly),
        !read_only ==> r is Ok,
{
    if read_only {
        Err(DalyError::ReadOnly)
    } else {
        Ok(())
    }
}

/// The command and data field of a MOS switch request: 0xDA for the charge
/// MOS, 0xD9 for the discharge MOS, with 1 (on) or 0 (off) in data[0].
/// Refused in read-only mode.
pub fn mos_request(charge: bool, enable: bool, read_only: bool) -> (r: Result<(DataId, [u8; 8]), DalyError>)
    ensures
        read_only ==> r == Err::<(DataId, [u8; 8]), DalyError>(DalyError::ReadOnly),
        !read_only ==> r is Ok && (r->Ok_0).0 == (if charge {
            DataId::SetChargeMos
        } else {
            DataId::SetDischargeMos
        }) && (r->Ok_0).1@ == seq![if enable { 1u8 } else { 0u8 }, 0u8, 0u8, 0u8, 0u8, 0u8, 0u8, 0u8],
{
    check_writable(read_only)?;
    let cmd = if charge {
        DataId::SetChargeMos
    } else {
        DataId::SetDischargeMos
    };
    let v: u8 = if enable { 1 } else { 0 };
    Ok((cmd, payload_to_data(v)))
}

/// Checks the MOS state read back after a MOS write: the switched MOS must be
/// in the requested state, otherwise `VerifyFailed`.
pub fn check_mos_readback(bms_address: u8, charge: bool, enable: bool, mos: &MosStatus) -> (r: Result<(), DalyError>)
    ensures
        (if charge { mos.charge_mos } else { mos.discharge_mos }) == enable ==> r is Ok,
        (if charge { mos.charge_mos } else { mos.discharge_mos }) != enable ==> r == Err::<(), DalyError>(
            DalyError::VerifyFailed {
                bms_id: bms_address,
                cmd: if charge { 0xDAu8 } else { 0xD9u8 },
            },
        ),
{
    let state = if charge { mos.charge_mos } else { mos.discharge_mos };
    if state != enable {
        let cmd = if charge { DataId::SetChargeMos } else { DataId::SetDischargeMos };
        return Err(DalyError::VerifyFailed { bms_id: bms_address, cmd: cmd.code() });
    }
    Ok(())
}

/// The data field of a SOC calibration (0x21): `soc_tenths` (the SOC in
/// tenths of a percent) big-endian in data[0..1].
pub fn soc_data(soc_tenths: u16) -> (data: [u8; 8])
    ensures
        data@ == seq![(soc_tenths / 256) as u8, (soc_tenths % 256) as u8, 0u8, 0u8, 0u8, 0u8, 0u8, 0u8],
{
    let data: [u8; 8] = [(soc_tenths / 256) as u8, (soc_tenths % 256) as u8, 0, 0, 0, 0, 0, 0];
    assert(data@ =~= seq![(soc_tenths / 256) as u8, (soc_tenths % 256) as u8, 0u8, 0u8, 0u8, 0u8, 0u8, 0u8]);
    data
}

/// Checks the pack status read back after a SOC calibration: the SOC it
/// reports (tenths of a percent) must be the one written, otherwise
/// `VerifyFailed` for command 0x21.
pub fn check_soc_readback(bms_address: u8, soc_tenths: u16, pack: &SocRaw) -> (r: Result<(), DalyError>)
    ensures
        pack.soc_permille == soc_tenths ==> r is Ok,
        pack.soc_permille != soc_tenths ==> r == Err::<(), DalyError>(
            DalyError::VerifyFailed { bms_id: bms_address, cmd: 0x21u8 },
        ),
{
    if pack.soc_permille != soc_tenths {
        return Err(DalyError::VerifyFailed { bms_id: bms_address, cmd: DataId::SetSoc.code() });
    }
    Ok(())
}

/// The command and data field of a BMS reset (0x00, zero data); refused in
/// read-only mode.
pub fn reset_request(read_only: bool) -> (r: Result<(DataId, [u8; 8]), DalyError>)
    ensures
        read_only ==> r == Err::<(DataId, [u8; 8]), DalyError>(DalyError::ReadOnly),
        !read_only ==> r is Ok && (r->Ok_0).0 == DataId::Reset && (r->Ok_0).1@ == crate::protocol::zero_data(),
{
    check_writable(read_only)?;
    let data: [u8; 8] = [0, 0, 0, 0, 0, 0, 0, 0];
    assert(data@ =~= crate::protocol::zero_data());
    Ok((DataId::Reset, data))
}

} // verus!
