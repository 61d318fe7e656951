//! The Modbus meters on the RS485 bus: the ET112 energy meters and the
//! PRALRAN irradiance sensor. Their registers are read with FC04 and decoded
//! here into integer quantities in the meters' own units.

use vstd::prelude::*;
use crate::modbus::regs_to_i32;

verus! {

/// Registers of an ET112, read in three blocks: `(first register, count)`.
pub open spec fn et112_blocks() -> Seq<(u16, u16)> {
    seq![(0x0000u16, 16u16), (0x0010u16, 2u16), (0x0020u16, 2u16)]
}

/// The three FC04 reads of an ET112: 16 registers from 0x0000 (instant
/// values), 2 from 0x0010 (imported energy), 2 from 0x0020 (exported energy).
pub fn et112_read_plan() -> (v: Vec<(u16, u16)>)
    ensures
        v@ == et112_blocks(),
        v@.len() == 3,
        v@[0] == (0x0000u16, 16u16),
        v@[1] == (0x0010u16, 2u16),
        v@[2] == (0x0020u16, 2u16),
{
    let v: Vec<(u16, u16)> = vec![(0x0000, 16), (0x0010, 2), (0x0020, 2)];
    assert(v@ =~= et112_blocks());
    v
}

/// The value of a register read as a signed 16-bit integer.
pub open spec fn as_i16(v: u16) -> int {
    if v < 0x8000 {
        v as int
    } else {
        v as int - 0x10000
    }
}

/// The value of two registers holding a signed 32-bit integer, low word first.
pub open spec fn as_i32(lo: u16, hi: u16) -> int {
    if hi < 0x8000 {
        hi as int * 65536 + lo as int
    } else {
        hi as int * 65536 + lo as int - 0x1_0000_0000
    }
}

/// The readings of an ET112 in its register units.
#[derive(Debug, Clone, Copy, PartialEq, Eq, Structural)]
pub struct Et112Raw {
    /// Voltage, tenths of a volt.
    pub voltage_dv: i32,
    /// Current, milliamperes.
    pub current_ma: i32,
    /// Active power, tenths of a watt.
    pub power_dw: i32,
    /// Apparent power, tenths of a VA.
    pub apparent_power_dva: i32,
    /// Reactive power, tenths of a var.
    pub reactive_power_dvar: i32,
    /// Power factor, thousandths.
    pub power_factor_milli: i32,
    /// Frequency, tenths of a hertz.
    pub frequency_dhz: i16,
    /// Imported energy, tenths of a kWh.
    pub energy_import_dkwh: i32,
    /// Exported energy, tenths of a kWh.
    pub energy_export_dkwh: i32,
}

/// A block of registers shorter than asked.
#[derive(Debug, Clone, Copy, PartialEq, Eq, Structural)]
pub struct ShortBlock {
    /// Which block (1 to 3).
    pub block: u8,
    /// How many registers it had.
    pub len: usize,
}

/// Decodes the three blocks of an ET112: 32-bit values are two registers, low
/// word first; the frequency is register 0x000F as a signed 16-bit value.
/// Fails on the first block that is too short.
pub fn decode_et112(b1: &Vec<u16>, b2: &Vec<u16>, b3: &Vec<u16>) -> (r: Result<Et112Raw, ShortBlock>)
    ensures
        b1@.len() < 16 ==> r == Err::<Et112Raw, ShortBlock>(ShortBlock { block: 1, len: b1@.len() as usize }),
        b1@.len() >= 16 && b2@.len() < 2 ==> r == Err::<Et112Raw, ShortBlock>(
            ShortBlock { block: 2, len: b2@.len() as usize },
        ),
        b1@.len() >= 16 && b2@.len() >= 2 && b3@.len() < 2 ==> r == Err::<Et112Raw, ShortBlock>(
            ShortBlock { block: 3, len: b3@.len() as usize },
        ),
        b1@.len() >= 16 && b2@.len() >= 2 && b3@.len() >= 2 ==> (r matches Ok(m) && {
            &&& m.voltage_dv == as_i32(b1@[0], b1@[1])
            &&& m.current_ma == as_i32(b1@[2], b1@[3])
            &&& m.power_dw == as_i32(b1@[4], b1@[5])
            &&& m.apparent_power_dva == as_i32(b1@[6], b1@[7])
            &&& m.reactive_power_dvar == as_i32(b1@[8], b1@[9])
            &&& m.power_factor_milli == as_i32(b1@[10], b1@[11])
            &&& m.frequency_dhz == as_i16(b1@[15])
            &&& m.energy_import_dkwh == as_i32(b2@[0], b2@[1])
            &&& m.energy_export_dkwh == as_i32(b3@[0], b3@[1])
        }),
{
    if b1.len() < 16 {
        return Err(ShortBlock { block: 1, len: b1.len() });
    }
    if b2.len() < 2 {
        return Err(ShortBlock { block: 2, len: b2.len() });
    }
    if b3.len() < 2 {
        return Err(ShortBlock { block: 3, len: b3.len() });
    }
    let f = b1[15];
    let frequency_dhz: i16 = if f < 0x8000 {
        f as i16
    } else {
        ((f - 0x8000) as i16) - 0x4000 - 0x4000
    };
    Ok(Et112Raw {
        voltage_dv: regs_to_i32(b1[0], b1[1]),
        current_ma: regs_to_i32(b1[2], b1[3]),
        power_dw: regs_to_i32(b1[4], b1[5]),
        apparent_power_dva: regs_to_i32(b1[6], b1[7]),
        reactive_power_dvar: regs_to_i32(b1[8], b1[9]),
        power_factor_milli: regs_to_i32(b1[10], b1[11]),
        frequency_dhz,
        energy_import_dkwh: regs_to_i32(b2[0], b2[1]),
        energy_export_dkwh: regs_to_i32(b3[0], b3[1]),
    })
}

/// The irradiance in W/m²: the first register of the answer, or `None` when
/// the answer carried no register.
pub fn irradiance_from(regs: &Vec<u16>) -> (w: Option<u16>)
    ensures
        regs@.len() == 0 ==> w is None,
        regs@.len() > 0 ==> w == Some(regs@[0]),
{
    if regs.len() == 0 {
        None
    } else {
        Some(regs[0])
    }
}

/// Read errors are logged at the first one in a row, then every twelfth.
pub fn log_read_error(consecutive_errors: u32) -> (b: bool)
    ensures
        b == (consecutive_errors == 1 || consecutive_errors % 12 == 0),
{
    consecutive_errors == 1 || consecutive_errors % 12 == 0
}

} // verus!
