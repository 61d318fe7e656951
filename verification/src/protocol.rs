//! Daly UART/RS485 frame format and checksum.
//!
//! A frame is 13 bytes long:
//!
//! ```text
//! [0]    0xA5        start flag
//! [1]    address     PC -> BMS: 0x3F + board number | BMS -> PC: board number
//! [2]    data id     command (0x90, 0x91, ...)
//! [3]    0x08        length of the data field (always 8)
//! [4-11] data        8 bytes (request: reserved 0x00; answer: values)
//! [12]   checksum    sum of bytes [0-11] modulo 256
//! ```

use vstd::prelude::*;
use crate::error::DalyError;

verus! {

/// Total length of a Daly frame (request or simple answer).
pub const FRAME_LEN: usize = 13;

/// Base of the PC address: `PC_BASE + board_number` is the address a BMS listens to.
pub const PC_BASE: u8 = 0x3F;

/// PC address for board 1.
pub const PC_ADDRESS: u8 = 0x40;

/// Start-of-frame byte.
pub const START_FLAG: u8 = 0xA5;

/// Length of the data field (always 8).
pub const DATA_LEN: u8 = 0x08;

// =============================================================================
// Specifications
// =============================================================================

/// Sum of all bytes of `s`, as a natural number.
pub open spec fn byte_sum(s: Seq<u8>) -> nat
    decreases s.len(),
{
    if s.len() == 0 {
        0
    } else {
        byte_sum(s.drop_last()) + s.last() as nat
    }
}

/// The Daly checksum of `s`: the sum of its bytes modulo 256.
pub open spec fn checksum_of(s: Seq<u8>) -> u8 {
    (byte_sum(s) % 256) as u8
}

/// The address byte a PC puts in a request to board `bms_addr` (wrapping).
pub open spec fn pc_address_of(bms_addr: u8) -> u8 {
    ((PC_BASE + bms_addr) % 256) as u8
}

/// The 13 bytes of a request to board `bms_addr` with command code `code` and
/// data field `data` (8 bytes).
pub open spec fn request_bytes(bms_addr: u8, code: u8, data: Seq<u8>) -> Seq<u8> {
    let head = seq![START_FLAG, pc_address_of(bms_addr), code, DATA_LEN] + data;
    head.push(checksum_of(head))
}

/// Eight zero bytes: the reserved data field of a read request.
pub open spec fn zero_data() -> Seq<u8> {
    seq![0u8, 0u8, 0u8, 0u8, 0u8, 0u8, 0u8, 0u8]
}

/// `true` when `f` (13 bytes) starts with the start flag and carries a valid checksum.
pub open spec fn is_valid_frame(f: Seq<u8>) -> bool {
    &&& f.len() == FRAME_LEN
    &&& f[0] == START_FLAG
    &&& f[12] == checksum_of(f.subrange(0, 12))
}

// =============================================================================
// Addressing and checksum
// =============================================================================

/// The PC address to put in byte 1 of a request for board `bms_addr`:
/// `0x3F + bms_addr`, wrapping around.
pub fn pc_address_for(bms_addr: u8) -> (a: u8)
    ensures
        a == pc_address_of(bms_addr),
{
    PC_BASE.wrapping_add(bms_addr)
}

/// The Daly checksum: sum of all the bytes, modulo 256.
pub fn checksum(bytes: &[u8]) -> (c: u8)
    ensures
        c == checksum_of(bytes@),
{
    let mut acc: u32 = 0;
    let mut i: usize = 0;
    while i < bytes.len()
        invariant
            i <= bytes.len(),
            acc < 256,
            acc == byte_sum(bytes@.subrange(0, i as int)) % 256,
        decreases bytes.len() - i,
    {
        proof {
            let pre = bytes@.subrange(0, i as int);
            let next = bytes@.subrange(0, i + 1);
            assert(next.drop_last() =~= pre);
            assert(next.last() == bytes@[i as int]);
            vstd::arithmetic::div_mod::lemma_add_mod_noop(
                byte_sum(pre) as int,
                bytes@[i as int] as int,
                256,
            );
            vstd::arithmetic::div_mod::lemma_mod_twice(byte_sum(pre) as int, 256);
            vstd::arithmetic::div_mod::lemma_small_mod(bytes@[i as int] as nat, 256);
        }
        acc = (acc + bytes[i] as u32) % 256;
        i = i + 1;
    }
    assert(bytes@.subrange(0, bytes.len() as int) =~= bytes@);
    acc as u8
}

/// Reads a big-endian `u16` at `offset` in `data`.
pub fn read_u16_be(data: &[u8], offset: usize) -> (v: u16)
    requires
        offset + 1 < data.len(),
    ensures
        v == data@[offset as int] as int * 256 + data@[offset + 1] as int,
{
    let hi = data[offset] as u16;
    let lo = data[offset + 1] as u16;
    hi * 256 + lo
}

// =============================================================================
// Data ids
// =============================================================================

/// Command identifiers of the Daly UART/RS485 protocol.
#[derive(Debug, Clone, Copy, PartialEq, Eq, Hash, Structural)]
pub enum DataId {
    /// Total voltage, current, SOC (0x90)
    PackStatus,
    /// Min/max cell voltage with cell number (0x91)
    CellVoltageMinMax,
    /// Min/max temperature with sensor number (0x92)
    TemperatureMinMax,
    /// Charge/discharge MOS state, cycles, residual capacity (0x93)
    MosStatus,
    /// Status information 1: number of cells and sensors, states (0x94)
    StatusInfo1,
    /// Individual cell voltages (0x95)
    CellVoltages1,
    /// Individual sensor temperatures (0x96)
    Temperatures,
    /// Per-cell balancing flags (0x97)
    BalanceStatus,
    /// Alarm/protection flags (0x98)
    AlarmFlags,
    /// BMS reset (0x00)
    Reset,
    /// SOC calibration (0x21)
    SetSoc,
    /// Discharge MOS command (0xD9)
    SetDischargeMos,
    /// Charge MOS command (0xDA)
    SetChargeMos,
}

impl DataId {
    /// The byte that encodes this command on the wire.
    pub open spec fn spec_code(self) -> u8 {
        match self {
            DataId::PackStatus => 0x90,
            DataId::CellVoltageMinMax => 0x91,
            DataId::TemperatureMinMax => 0x92,
            DataId::MosStatus => 0x93,
            DataId::StatusInfo1 => 0x94,
            DataId::CellVoltages1 => 0x95,
            DataId::Temperatures => 0x96,
            DataId::BalanceStatus => 0x97,
            DataId::AlarmFlags => 0x98,
            DataId::Reset => 0x00,
            DataId::SetSoc => 0x21,
            DataId::SetDischargeMos => 0xD9,
            DataId::SetChargeMos => 0xDA,
        }
    }

    /// `true` for the write commands.
    pub open spec fn spec_is_write(self) -> bool {
        self is Reset || self is SetSoc || self is SetDischargeMos || self is SetChargeMos
    }

    /// The byte that encodes this command on the wire.
    pub fn code(self) -> (c: u8)
        ensures
            c == self.spec_code(),
    {
        match self {
            DataId::PackStatus => 0x90,
            DataId::CellVoltageMinMax => 0x91,
            DataId::TemperatureMinMax => 0x92,
            DataId::MosStatus => 0x93,
            DataId::StatusInfo1 => 0x94,
            DataId::CellVoltages1 => 0x95,
            DataId::Temperatures => 0x96,
            DataId::BalanceStatus => 0x97,
            DataId::AlarmFlags => 0x98,
            DataId::Reset => 0x00,
            DataId::SetSoc => 0x21,
            DataId::SetDischargeMos => 0xD9,
            DataId::SetChargeMos => 0xDA,
        }
    }

    /// Converts a raw byte into a `DataId`; `None` when the byte is no known command.
    pub fn from_u8(v: u8) -> (r: Option<DataId>)
        ensures
            r == data_id_of(v),
            match r {
                Some(d) => d.spec_code() == v,
                None => forall|d: DataId| d.spec_code() != v,
            },
    {
        match v {
            0x90 => Some(DataId::PackStatus),
            0x91 => Some(DataId::CellVoltageMinMax),
            0x92 => Some(DataId::TemperatureMinMax),
            0x93 => Some(DataId::MosStatus),
            0x94 => Some(DataId::StatusInfo1),
            0x95 => Some(DataId::CellVoltages1),
            0x96 => Some(DataId::Temperatures),
            0x97 => Some(DataId::BalanceStatus),
            0x98 => Some(DataId::AlarmFlags),
            0x00 => Some(DataId::Reset),
            0x21 => Some(DataId::SetSoc),
            0xD9 => Some(DataId::SetDischargeMos),
            0xDA => Some(DataId::SetChargeMos),
            _ => None,
        }
    }

    /// `true` when this is a write command (dangerous without confirmation).
    pub fn is_write(self) -> (b: bool)
        ensures
            b == self.spec_is_write(),
    {
        match self {
            DataId::Reset | DataId::SetSoc | DataId::SetDischargeMos | DataId::SetChargeMos => true,
            _ => false,
        }
    }
}

/// The command a byte encodes, if any.
pub open spec fn data_id_of(v: u8) -> Option<DataId> {
    if v == 0x90 {
        Some(DataId::PackStatus)
    } else if v == 0x91 {
        Some(DataId::CellVoltageMinMax)
    } else if v == 0x92 {
        Some(DataId::TemperatureMinMax)
    } else if v == 0x93 {
        Some(DataId::MosStatus)
    } else if v == 0x94 {
        Some(DataId::StatusInfo1)
    } else if v == 0x95 {
        Some(DataId::CellVoltages1)
    } else if v == 0x96 {
        Some(DataId::Temperatures)
    } else if v == 0x97 {
        Some(DataId::BalanceStatus)
    } else if v == 0x98 {
        Some(DataId::AlarmFlags)
    } else if v == 0x00 {
        Some(DataId::Reset)
    } else if v == 0x21 {
        Some(DataId::SetSoc)
    } else if v == 0xD9 {
        Some(DataId::SetDischargeMos)
    } else if v == 0xDA {
        Some(DataId::SetChargeMos)
    } else {
        None
    }
}

/// Decoding a command's code gives the command back, a decoded byte is the
/// code of the command it gives, and distinct commands have distinct codes.
pub proof fn lemma_data_id_code_roundtrip(d: DataId, e: DataId, v: u8)
    ensures
        data_id_of(d.spec_code()) == Some(d),
        data_id_of(v) matches Some(c) ==> c.spec_code() == v,
        d.spec_code() == e.spec_code() ==> d == e,
{
}

// =============================================================================
// Request frame
// =============================================================================

/// Request frame PC -> BMS (12 bytes + checksum).
#[derive(Debug, Clone, Copy)]
pub struct RequestFrame {
    pub bytes: [u8; 13],
}

impl RequestFrame {
    /// Builds a request to board `bms_address` for command `cmd` with the given
    /// 8 data bytes; byte 1 is `0x3F + bms_address` and byte 12 the checksum.
    pub fn new(bms_address: u8, cmd: DataId, data: [u8; 8]) -> (f: RequestFrame)
        ensures
            f.bytes@ == request_bytes(bms_address, cmd.spec_code(), data@),
    {
        let pc = pc_address_for(bms_address);
        let code = cmd.code();
        let head: [u8; 12] = [
            START_FLAG, pc, code, DATA_LEN,
            data[0], data[1], data[2], data[3], data[4], data[5], data[6], data[7],
        ];
        let cs = checksum(head.as_slice());
        let bytes: [u8; 13] = [
            head[0], head[1], head[2], head[3], head[4], head[5], head[6], head[7],
            head[8], head[9], head[10], head[11], cs,
        ];
        proof {
            let h = seq![START_FLAG, pc_address_of(bms_address), cmd.spec_code(), DATA_LEN] + data@;
            assert(head@ =~= h);
            assert(bytes@ =~= h.push(checksum_of(h)));
        }
        RequestFrame { bytes }
    }

    /// Standard read request: the 8 data bytes are reserved (0x00).
    pub fn read(bms_address: u8, cmd: DataId) -> (f: RequestFrame)
        ensures
            f.bytes@ == request_bytes(bms_address, cmd.spec_code(), zero_data()),
    {
        let data: [u8; 8] = [0, 0, 0, 0, 0, 0, 0, 0];
        assert(data@ =~= zero_data());
        Self::new(bms_address, cmd, data)
    }

    /// Write request with one payload byte in data[0], the rest zero.
    pub fn write_byte(bms_address: u8, cmd: DataId, value: u8) -> (f: RequestFrame)
        ensures
            f.bytes@ == request_bytes(
                bms_address,
                cmd.spec_code(),
                seq![value, 0u8, 0u8, 0u8, 0u8, 0u8, 0u8, 0u8],
            ),
    {
        let data: [u8; 8] = [value, 0, 0, 0, 0, 0, 0, 0];
        assert(data@ =~= seq![value, 0u8, 0u8, 0u8, 0u8, 0u8, 0u8, 0u8]);
        Self::new(bms_address, cmd, data)
    }

    /// SOC calibration request (0x21): `soc_tenths` is the SOC in tenths of a
    /// percent, written big-endian in data[6..7]; data[0..5] (date/time) are zero.
    pub fn write_soc(bms_address: u8, soc_tenths: u16) -> (f: RequestFrame)
        ensures
            f.bytes@ == request_bytes(
                bms_address,
                0x21,
                seq![0u8, 0u8, 0u8, 0u8, 0u8, 0u8, (soc_tenths / 256) as u8, (soc_tenths % 256) as u8],
            ),
    {
        let hi = (soc_tenths / 256) as u8;
        let lo = (soc_tenths % 256) as u8;
        let data: [u8; 8] = [0, 0, 0, 0, 0, 0, hi, lo];
        assert(data@ =~= seq![0u8, 0u8, 0u8, 0u8, 0u8, 0u8, hi, lo]);
        Self::new(bms_address, DataId::SetSoc, data)
    }

    /// The 13 bytes of the frame.
    pub fn as_bytes(&self) -> (s: &[u8])
        ensures
            s@ == self.bytes@,
    {
        self.bytes.as_slice()
    }
}

// =============================================================================
// Answer frame
// =============================================================================

/// Answer frame BMS -> PC (13 bytes).
#[derive(Debug, Clone, Copy)]
pub struct ResponseFrame {
    pub bytes: [u8; 13],
}

/// What `ResponseFrame::parse` makes of `raw`: the 13 frame bytes, or the error.
pub open spec fn parse_result(raw: Seq<u8>) -> Result<Seq<u8>, DalyError> {
    if raw.len() < FRAME_LEN {
        Err(DalyError::InvalidFrame { len: raw.len() as usize, reason: "trame trop courte" })
    } else if raw[0] != START_FLAG {
        Err(DalyError::InvalidStartFlag(raw[0]))
    } else if checksum_of(raw.subrange(0, 12)) != raw[12] {
        Err(DalyError::Checksum { expected: checksum_of(raw.subrange(0, 12)), actual: raw[12] })
    } else {
        Ok(raw.subrange(0, 13))
    }
}

impl ResponseFrame {
    /// Parses raw bytes into an answer frame, checking length, start flag and
    /// checksum. Bytes after the first 13 are ignored.
    pub fn parse(raw: &[u8]) -> (r: Result<ResponseFrame, DalyError>)
        ensures
            match (r, parse_result(raw@)) {
                (Ok(f), Ok(b)) => f.bytes@ == b,
                (Err(e), Err(e2)) => e == e2,
                _ => false,
            },
    {
        if raw.len() < FRAME_LEN {
            return Err(DalyError::InvalidFrame { len: raw.len(), reason: "trame trop courte" });
        }
        if raw[0] != START_FLAG {
            return Err(DalyError::InvalidStartFlag(raw[0]));
        }
        let head = copy_prefix(raw, 12);
        let expected = checksum(head.as_slice());
        let actual = raw[12];
        if expected != actual {
            return Err(DalyError::Checksum { expected, actual });
        }
        let bytes: [u8; 13] = [
            raw[0], raw[1], raw[2], raw[3], raw[4], raw[5], raw[6], raw[7],
            raw[8], raw[9], raw[10], raw[11], raw[12],
        ];
        assert(bytes@ =~= raw@.subrange(0, 13));
        Ok(ResponseFrame { bytes })
    }

    /// BMS address of the answer (byte 1).
    pub fn address(&self) -> (a: u8)
        ensures
            a == self.bytes@[1],
    {
        self.bytes[1]
    }

    /// Data id of the answer (byte 2).
    pub fn data_id(&self) -> (d: u8)
        ensures
            d == self.bytes@[2],
    {
        self.bytes[2]
    }

    /// The 8 data bytes (bytes 4 to 11).
    pub fn data(&self) -> (d: [u8; 8])
        ensures
            d@ == self.bytes@.subrange(4, 12),
    {
        let b = &self.bytes;
        let d: [u8; 8] = [b[4], b[5], b[6], b[7], b[8], b[9], b[10], b[11]];
        assert(d@ =~= self.bytes@.subrange(4, 12));
        d
    }

    /// Checks that the answer comes from `expected_address` and carries `expected_cmd`.
    pub fn validate_for(&self, expected_address: u8, expected_cmd: DataId) -> (r: Result<(), DalyError>)
        ensures
            self.bytes@[1] != expected_address ==> r == Err::<(), DalyError>(
                DalyError::UnexpectedAddress { expected: expected_address, actual: self.bytes@[1] },
            ),
            self.bytes@[1] == expected_address && self.bytes@[2] != expected_cmd.spec_code() ==> r
                == Err::<(), DalyError>(
                DalyError::UnexpectedDataId {
                    expected: expected_cmd.spec_code(),
                    actual: self.bytes@[2],
                },
            ),
            self.bytes@[1] == expected_address && self.bytes@[2] == expected_cmd.spec_code() ==> r
                is Ok,
    {
        if self.address() != expected_address {
            return Err(DalyError::UnexpectedAddress { expected: expected_address, actual: self.address() });
        }
        if self.data_id() != expected_cmd.code() {
            return Err(DalyError::UnexpectedDataId { expected: expected_cmd.code(), actual: self.data_id() });
        }
        Ok(())
    }
}

/// Every request that `RequestFrame::new` builds is a valid frame: it starts
/// with the start flag and its last byte is the checksum of the twelve before
/// it, so `ResponseFrame::parse` accepts it unchanged.
pub proof fn lemma_request_frame_valid(bms_addr: u8, code: u8, data: Seq<u8>)
    requires
        data.len() == 8,
    ensures
        is_valid_frame(request_bytes(bms_addr, code, data)),
        parse_result(request_bytes(bms_addr, code, data)) == Ok::<Seq<u8>, DalyError>(
            request_bytes(bms_addr, code, data),
        ),
{
    let f = request_bytes(bms_addr, code, data);
    let head = seq![START_FLAG, pc_address_of(bms_addr), code, DATA_LEN] + data;
    assert(f.subrange(0, 12) =~= head);
    assert(f.subrange(0, 13) =~= f);
}

/// The first `n` bytes of `raw`, copied.
pub(crate) fn copy_prefix(raw: &[u8], n: usize) -> (v: Vec<u8>)
    requires
        n <= raw.len(),
    ensures
        v@ == raw@.subrange(0, n as int),
{
    let mut v: Vec<u8> = Vec::new();
    let mut i: usize = 0;
    while i < n
        invariant
            i <= n,
            n <= raw.len(),
            v@ == raw@.subrange(0, i as int),
        decreases n - i,
    {
        v.push(raw[i]);
        i = i + 1;
    }
    v
}

} // verus!
