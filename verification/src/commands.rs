//! Decoding of the answers to the Daly read commands (0x90-0x98).
//!
//! Each function takes the 8 data bytes of an answer frame (or of all the
//! frames of a multi-frame answer) and returns the values they carry, in the
//! integer units of the protocol.

use vstd::prelude::*;
use crate::types::{Alarms, BalanceFlags, MosStatus, SocRaw, StatusInfo};

verus! {

/// Big-endian value of two bytes.
pub open spec fn be16(hi: u8, lo: u8) -> int {
    hi as int * 256 + lo as int
}

/// Bit `k` (0 = least significant) of byte `b`.
pub open spec fn bit(b: u8, k: int) -> u8 {
    if k == 0 {
        b % 2
    } else if k == 1 {
        (b / 2) % 2
    } else if k == 2 {
        (b / 4) % 2
    } else if k == 3 {
        (b / 8) % 2
    } else if k == 4 {
        (b / 16) % 2
    } else if k == 5 {
        (b / 32) % 2
    } else if k == 6 {
        (b / 64) % 2
    } else {
        (b / 128) % 2
    }
}

/// `(b >> k) & 1` is bit `k` of `b`.
proof fn lemma_shift_bit(b: u8, k: u8)
    requires
        k < 8,
    ensures
        (b >> k) & 1u8 == bit(b, k as int),
{
    if k == 0 {
        assert((b >> 0u8) & 1u8 == b % 2) by (bit_vector);
    } else if k == 1 {
        assert((b >> 1u8) & 1u8 == (b / 2) % 2) by (bit_vector);
    } else if k == 2 {
        assert((b >> 2u8) & 1u8 == (b / 4) % 2) by (bit_vector);
    } else if k == 3 {
        assert((b >> 3u8) & 1u8 == (b / 8) % 2) by (bit_vector);
    } else if k == 4 {
        assert((b >> 4u8) & 1u8 == (b / 16) % 2) by (bit_vector);
    } else if k == 5 {
        assert((b >> 5u8) & 1u8 == (b / 32) % 2) by (bit_vector);
    } else if k == 6 {
        assert((b >> 6u8) & 1u8 == (b / 64) % 2) by (bit_vector);
    } else {
        assert((b >> 7u8) & 1u8 == (b / 128) % 2) by (bit_vector);
    }
}

/// Bit `k` of `b`, read with a shift and a mask.
fn get_bit(b: u8, k: u8) -> (r: u8)
    requires
        k < 8,
    ensures
        r == bit(b, k as int),
        r <= 1,
{
    proof {
        lemma_shift_bit(b, k);
    }
    (b >> k) & 1
}

/// One when either bit is set, zero otherwise.
pub open spec fn either(a: u8, b: u8) -> u8 {
    if a == 1 || b == 1 {
        1
    } else {
        0
    }
}

/// Temperature in degrees Celsius of a raw byte (the protocol adds 40).
pub open spec fn celsius(raw: u8) -> int {
    raw as int - 40
}

/// Temperature in degrees Celsius of a raw Daly byte: `raw - 40`.
pub fn temperature_celsius(raw: u8) -> (t: i16)
    ensures
        t as int == celsius(raw),
{
    raw as i16 - 40
}

// =============================================================================
// Single-frame answers
// =============================================================================

/// Pack status (0x90): voltage (bytes 0-1), current (bytes 2-3), SOC (bytes 4-5).
pub fn decode_pack_status(d: &[u8; 8]) -> (s: SocRaw)
    ensures
        s.voltage_dv as int == be16(d@[0], d@[1]),
        s.current_raw as int == be16(d@[2], d@[3]),
        s.soc_permille as int == be16(d@[4], d@[5]),
{
    SocRaw {
        voltage_dv: (d[0] as u16) * 256 + (d[1] as u16),
        current_raw: (d[2] as u16) * 256 + (d[3] as u16),
        soc_permille: (d[4] as u16) * 256 + (d[5] as u16),
    }
}

/// Cell voltage extremes (0x91), as `(min_mv, min_cell, max_mv, max_cell)`:
/// the maximum is in bytes 0-2, the minimum in bytes 3-5.
pub fn decode_cell_voltage_minmax(d: &[u8; 8]) -> (r: (u16, u8, u16, u8))
    ensures
        r.0 as int == be16(d@[3], d@[4]),
        r.1 == d@[5],
        r.2 as int == be16(d@[0], d@[1]),
        r.3 == d@[2],
{
    let max_mv = (d[0] as u16) * 256 + (d[1] as u16);
    let min_mv = (d[3] as u16) * 256 + (d[4] as u16);
    (min_mv, d[5], max_mv, d[2])
}

/// Temperature extremes (0x92), as `(min_c, min_sensor, max_c, max_sensor)`:
/// the maximum is in bytes 0-1, the minimum in bytes 2-3.
pub fn decode_temperature_minmax(d: &[u8; 8]) -> (r: (i16, u8, i16, u8))
    ensures
        r.0 as int == celsius(d@[2]),
        r.1 == d@[3],
        r.2 as int == celsius(d@[0]),
        r.3 == d@[1],
{
    (temperature_celsius(d[2]), d[3], temperature_celsius(d[0]), d[1])
}

/// MOS state, cycles and residual capacity (0x93): bit 1 of byte 0 is the
/// charge MOS, bit 0 the discharge MOS; byte 1 the BMS life; bytes 2-3 the
/// cycles; bytes 4-7 the residual capacity in mAh (big-endian).
pub fn decode_mos_status(d: &[u8; 8]) -> (m: MosStatus)
    ensures
        m.charge_mos == (bit(d@[0], 1) == 1),
        m.discharge_mos == (bit(d@[0], 0) == 1),
        m.bms_life == d@[1],
        m.charge_cycles as int == be16(d@[2], d@[3]),
        m.residual_capacity_mah as int == ((d@[4] as int * 256 + d@[5] as int) * 256 + d@[6] as int)
            * 256 + d@[7] as int,
{
    let b0 = d[0];
    assert((b0 & 0x02u8 != 0) == ((b0 / 2) % 2 == 1)) by (bit_vector);
    assert((b0 & 0x01u8 != 0) == (b0 % 2 == 1)) by (bit_vector);
    let cap: u32 = (((d[4] as u32) * 256 + (d[5] as u32)) * 256 + (d[6] as u32)) * 256 + (d[7] as u32);
    MosStatus {
        charge_mos: b0 & 0x02 != 0,
        discharge_mos: b0 & 0x01 != 0,
        bms_life: d[1],
        residual_capacity_mah: cap,
        charge_cycles: ((d[2] as u16) * 256 + (d[3] as u16)) as u32,
    }
}

/// Status information 1 (0x94): cell count, sensor count, charger, load and
/// DIO states in bytes 0-4, cycle count in bytes 5-6.
pub fn decode_status_info(d: &[u8; 8]) -> (s: StatusInfo)
    ensures
        s.cell_count == d@[0],
        s.temp_sensor_count == d@[1],
        s.charger_status == d@[2],
        s.load_status == d@[3],
        s.dio_states == d@[4],
        s.cycle_count as int == be16(d@[5], d@[6]),
{
    StatusInfo {
        cell_count: d[0],
        temp_sensor_count: d[1],
        charger_status: d[2],
        load_status: d[3],
        dio_states: d[4],
        cycle_count: (d[5] as u16) * 256 + (d[6] as u16),
    }
}

/// Alarm answer (0x98): `(charge_enabled, discharge_enabled, alarm_bytes)`,
/// with bits 1 and 0 of byte 0 and the 7 bytes that follow.
pub fn decode_alarm_frame(d: &[u8; 8]) -> (r: (bool, bool, [u8; 7]))
    ensures
        r.0 == (bit(d@[0], 1) == 1),
        r.1 == (bit(d@[0], 0) == 1),
        r.2@ == d@.subrange(1, 8),
{
    let b0 = d[0];
    assert((b0 & 0x02u8 != 0) == ((b0 / 2) % 2 == 1)) by (bit_vector);
    assert((b0 & 0x01u8 != 0) == (b0 % 2 == 1)) by (bit_vector);
    let bytes: [u8; 7] = [d[1], d[2], d[3], d[4], d[5], d[6], d[7]];
    assert(bytes@ =~= d@.subrange(1, 8));
    (b0 & 0x02 != 0, b0 & 0x01 != 0, bytes)
}

/// Converts the 7 raw alarm bytes of 0x98 into [`Alarms`] (Daly UART V1.21, page 6):
/// byte 0: bit 0 cell over-voltage, bit 1 cell under-voltage, bit 2 pack
/// over-voltage, bit 3 pack under-voltage; byte 1: bit 0 charge over-temperature,
/// bit 1 charge under-temperature, bit 2 discharge over-temperature, bit 3
/// discharge under-temperature; byte 2: bit 0 charge over-current, bit 1
/// discharge over-current; byte 3: bit 0 cell imbalance; byte 5: bit 5 blown
/// fuse. The low-SOC alarm is left at 0 (it is computed in software).
pub fn parse_alarm_flags(bytes: &[u8; 7]) -> (a: Alarms)
    ensures
        a.high_voltage == either(bit(bytes@[0], 0), bit(bytes@[0], 2)),
        a.low_voltage == either(bit(bytes@[0], 1), bit(bytes@[0], 3)),
        a.low_cell_voltage == bit(bytes@[0], 1),
        a.high_charge_temperature == bit(bytes@[1], 0),
        a.low_charge_temperature == bit(bytes@[1], 1),
        a.high_temperature == bit(bytes@[1], 2),
        a.low_temperature == bit(bytes@[1], 3),
        a.high_charge_current == bit(bytes@[2], 0),
        a.high_discharge_current == bit(bytes@[2], 1),
        a.high_current == either(bit(bytes@[2], 0), bit(bytes@[2], 1)),
        a.cell_imbalance == bit(bytes@[3], 0),
        a.fuse_blown == bit(bytes@[5], 5),
        a.low_soc == 0,
{
    let b0 = bytes[0];
    let b1 = bytes[1];
    let b2 = bytes[2];
    let c0 = get_bit(b0, 0);
    let c1 = get_bit(b0, 1);
    let c2 = get_bit(b0, 2);
    let c3 = get_bit(b0, 3);
    let o0 = get_bit(b2, 0);
    let o1 = get_bit(b2, 1);
    Alarms {
        high_voltage: if c0 == 1 || c2 == 1 { 1 } else { 0 },
        low_voltage: if c1 == 1 || c3 == 1 { 1 } else { 0 },
        low_cell_voltage: c1,
        high_charge_temperature: get_bit(b1, 0),
        low_charge_temperature: get_bit(b1, 1),
        high_temperature: get_bit(b1, 2),
        low_temperature: get_bit(b1, 3),
        high_charge_current: o0,
        high_discharge_current: o1,
        high_current: if o0 == 1 || o1 == 1 { 1 } else { 0 },
        cell_imbalance: get_bit(bytes[3], 0),
        fuse_blown: get_bit(bytes[5], 5),
        low_soc: 0,
    }
}

// =============================================================================
// Multi-frame answers
// =============================================================================

/// Number of 0x95 frames for `cell_count` cells (3 voltages per frame).
pub fn cell_voltage_frame_count(cell_count: u8) -> (n: usize)
    ensures
        n == (cell_count as int + 2) / 3,
{
    (cell_count as usize + 2) / 3
}

/// Number of 0x96 frames for `sensor_count` sensors (7 temperatures per frame).
pub fn temperature_frame_count(sensor_count: u8) -> (n: usize)
    ensures
        n == (sensor_count as int + 6) / 7,
{
    (sensor_count as usize + 6) / 7
}

/// Data field of the request for frame `i` (0-based) of a multi-frame read:
/// the block number `i + 1` (kept to its low byte) in byte 0, the rest zero.
pub fn frame_request_data(i: usize) -> (data: [u8; 8])
    ensures
        data@ == seq![((i + 1) % 256) as u8, 0u8, 0u8, 0u8, 0u8, 0u8, 0u8, 0u8],
{
    let low = i % 256;
    let b: u8 = if low == 255 {
        0
    } else {
        (low + 1) as u8
    };
    let data: [u8; 8] = [b, 0, 0, 0, 0, 0, 0, 0];
    assert(data@ =~= seq![((i + 1) % 256) as u8, 0u8, 0u8, 0u8, 0u8, 0u8, 0u8, 0u8]);
    data
}

/// Voltage in millivolts of cell `k` (0-based) in the data of the 0x95 frames:
/// frame `k / 3`, bytes `1 + 2 (k % 3)` and `2 + 2 (k % 3)`.
pub open spec fn cell_mv_in(frames: Seq<[u8; 8]>, k: int) -> int {
    be16(frames[k / 3]@[1 + 2 * (k % 3)], frames[k / 3]@[2 + 2 * (k % 3)])
}

/// Individual cell voltages (0x95) in millivolts, from the data of the
/// successive frames (3 cells per frame, byte 0 being the frame index).
pub fn decode_cell_voltages(frames: &Vec<[u8; 8]>, cell_count: u8) -> (v: Vec<u16>)
    requires
        frames@.len() >= (cell_count as int + 2) / 3,
    ensures
        v@.len() == cell_count,
        forall|k: int| 0 <= k < cell_count ==> (#[trigger] v@[k]) as int == cell_mv_in(frames@, k),
{
    let n = cell_count as usize;
    let mut v: Vec<u16> = Vec::new();
    let mut k: usize = 0;
    while k < n
        invariant
            k <= n,
            n == cell_count,
            frames@.len() >= (cell_count as int + 2) / 3,
            v@.len() == k,
            forall|m: int| 0 <= m < k ==> (#[trigger] v@[m]) as int == cell_mv_in(frames@, m),
        decreases n - k,
    {
        let f = k / 3;
        let j = k % 3;
        let d = &frames[f];
        let mv = (d[1 + 2 * j] as u16) * 256 + (d[2 + 2 * j] as u16);
        v.push(mv);
        k = k + 1;
    }
    v
}

/// Temperature in degrees Celsius of sensor `k` (0-based) in the data of the
/// 0x96 frames: frame `k / 7`, byte `1 + k % 7`.
pub open spec fn sensor_celsius_in(frames: Seq<[u8; 8]>, k: int) -> int {
    celsius(frames[k / 7]@[1 + k % 7])
}

/// Individual sensor temperatures (0x96) in degrees Celsius, from the data of
/// the successive frames (7 sensors per frame, byte 0 being the frame index).
pub fn decode_temperatures(frames: &Vec<[u8; 8]>, sensor_count: u8) -> (t: Vec<i16>)
    requires
        frames@.len() >= (sensor_count as int + 6) / 7,
    ensures
        t@.len() == sensor_count,
        forall|k: int| 0 <= k < sensor_count ==> (#[trigger] t@[k]) as int == sensor_celsius_in(frames@, k),
{
    let n = sensor_count as usize;
    let mut t: Vec<i16> = Vec::new();
    let mut k: usize = 0;
    while k < n
        invariant
            k <= n,
            n == sensor_count,
            frames@.len() >= (sensor_count as int + 6) / 7,
            t@.len() == k,
            forall|m: int| 0 <= m < k ==> (#[trigger] t@[m]) as int == sensor_celsius_in(frames@, m),
        decreases n - k,
    {
        let d = &frames[k / 7];
        t.push(temperature_celsius(d[1 + k % 7]));
        k = k + 1;
    }
    t
}

/// Balancing flags (0x97): cell `i` (0-based) is bit `i % 8` of byte `i / 8`;
/// cells beyond the 48 that 6 bytes describe are reported as not balancing.
pub fn decode_balance_flags(d: &[u8; 8], cell_count: u8) -> (b: BalanceFlags)
    ensures
        b.flags@.len() == cell_count,
        forall|i: int|
            0 <= i < cell_count ==> (#[trigger] b.flags@[i]) == (i / 8 < 6 && bit(d@[i / 8], i % 8) == 1),
{
    let n = cell_count as usize;
    let mut flags: Vec<bool> = Vec::new();
    let mut i: usize = 0;
    while i < n
        invariant
            i <= n,
            n == cell_count,
            flags@.len() == i,
            forall|m: int|
                0 <= m < i ==> (#[trigger] flags@[m]) == (m / 8 < 6 && bit(d@[m / 8], m % 8) == 1),
        decreases n - i,
    {
        let byte_idx = i / 8;
        let bit_idx = i % 8;
        if byte_idx < 6 {
            let b = get_bit(d[byte_idx], bit_idx as u8);
            flags.push(b != 0);
        } else {
            flags.push(false);
        }
        i = i + 1;
    }
    BalanceFlags { flags }
}

/// `true` when at least one cell is balancing.
pub fn any_balancing(b: &BalanceFlags) -> (r: bool)
    ensures
        r == exists|i: int| 0 <= i < b.flags@.len() && #[trigger] b.flags@[i],
{
    let mut i: usize = 0;
    while i < b.flags.len()
        invariant
            i <= b.flags@.len(),
            forall|m: int| 0 <= m < i ==> !(#[trigger] b.flags@[m]),
        decreases b.flags.len() - i,
    {
        if b.flags[i] {
            return true;
        }
        i = i + 1;
    }
    false
}

} // verus!
