//! Logic of the command-line tools: raw frames typed in hexadecimal, and the
//! decoding of the frames a low-level probe receives.

use vstd::prelude::*;
use crate::commands::be16;
use vstd::string::StringSliceAdditionalSpecFns;
use crate::protocol::{checksum, checksum_of, DataId, FRAME_LEN, START_FLAG};

verus! {

// =============================================================================
// Hexadecimal input
// =============================================================================

/// Errors of hexadecimal decoding.
#[derive(Debug, Clone, Copy, PartialEq, Eq, Structural)]
pub enum HexError {
    /// A character that is not `0-9`, `a-f` or `A-F`, at byte position `index`.
    InvalidHexCharacter { c: char, index: usize },
    /// An odd number of digits.
    OddLength,
    /// The decoded length does not fit the destination.
    InvalidStringLength,
}

/// The value of hexadecimal digit `b`, if it is one.
pub open spec fn hex_value(b: u8) -> Option<u8> {
    if 0x30 <= b && b <= 0x39 {
        Some((b - 0x30) as u8)
    } else if 0x61 <= b && b <= 0x66 {
        Some((b - 0x61 + 10) as u8)
    } else if 0x41 <= b && b <= 0x46 {
        Some((b - 0x41 + 10) as u8)
    } else {
        None
    }
}

/// Position of the first byte of `h` that is no hexadecimal digit.
pub open spec fn first_non_hex(h: Seq<u8>) -> Option<int>
    decreases h.len(),
{
    if h.len() == 0 {
        None
    } else if hex_value(h[0]) is None {
        Some(0)
    } else {
        match first_non_hex(h.drop_first()) {
            Some(k) => Some(k + 1),
            None => None,
        }
    }
}

/// What decoding the hexadecimal text `h` gives: an error for an odd length,
/// then for the first invalid character; otherwise one byte per pair of digits,
/// high digit first.
pub open spec fn hex_decoded(h: Seq<u8>) -> Result<Seq<u8>, HexError> {
    if h.len() % 2 != 0 {
        Err(HexError::OddLength)
    } else {
        match first_non_hex(h) {
            Some(i) => Err(HexError::InvalidHexCharacter { c: h[i] as char, index: i as usize }),
            None => Ok(
                Seq::new(
                    h.len() / 2,
                    |i: int| (hex_value(h[2 * i])->0 * 16 + hex_value(h[2 * i + 1])->0) as u8,
                ),
            ),
        }
    }
}

/// Decodes hexadecimal text with `hex::decode`. What is claimed of that call
/// (`hex_decoded`): an odd number of digits gives `OddLength`; otherwise the
/// first byte that is no hexadecimal digit (either case) gives
/// `InvalidHexCharacter` with that byte as a character and its position;
/// otherwise the result holds one byte per pair of digits, high digit first.
#[verifier::external_body]
fn hex_decode(h: &[u8]) -> (r: Result<Vec<u8>, HexError>)
    ensures
        match (r, hex_decoded(h@)) {
            (Ok(v), Ok(w)) => v@ == w,
            (Err(e), Err(e2)) => e == e2,
            _ => false,
        },
{
    match hex::decode(h) {
        Ok(v) => Ok(v),
        Err(hex::FromHexError::InvalidHexCharacter { c, index }) => Err(HexError::InvalidHexCharacter { c, index }),
        Err(hex::FromHexError::OddLength) => Err(HexError::OddLength),
        Err(hex::FromHexError::InvalidStringLength) => Err(HexError::InvalidStringLength),
    }
}

/// `s` without its spaces (byte 0x20).
pub open spec fn without_spaces(s: Seq<u8>) -> Seq<u8> {
    s.filter(|b: u8| b != 0x20)
}

/// Removes the spaces of the text `s`, as bytes.
fn strip_spaces(s: &[u8]) -> (v: Vec<u8>)
    ensures
        v@ == without_spaces(s@),
{
    let mut v: Vec<u8> = Vec::new();
    let mut i: usize = 0;
    while i < s.len()
        invariant
            i <= s@.len(),
            v@ == without_spaces(s@.subrange(0, i as int)),
        decreases s.len() - i,
    {
        proof {
            let pre = s@.subrange(0, i as int);
            let next = s@.subrange(0, i + 1);
            assert(next.drop_last() =~= pre);
            reveal(Seq::filter);
        }
        if s[i] != 0x20 {
            v.push(s[i]);
        }
        i = i + 1;
    }
    assert(s@.subrange(0, s@.len() as int) =~= s@);
    v
}

/// Why a raw frame typed by the user cannot be sent.
#[derive(Debug, Clone, Copy, PartialEq, Eq, Structural)]
pub enum RawCommandError {
    /// The text is not valid hexadecimal.
    InvalidHex(HexError),
    /// Fewer than 3 bytes.
    TooShort,
    /// Byte 2 is no known data id.
    UnknownDataId(u8),
}

/// What a raw frame typed as hexadecimal text `h` (its bytes) asks for: the
/// command of byte 2 and, when the frame has at least 12 bytes, the data of
/// bytes 4 to 11 (zeros otherwise). Spaces in the text are ignored.
pub open spec fn raw_command_spec(h: Seq<u8>) -> Result<(u8, Seq<u8>), RawCommandError> {
    match hex_decoded(without_spaces(h)) {
        Err(e) => Err(RawCommandError::InvalidHex(e)),
        Ok(b) => if b.len() < 3 {
            Err(RawCommandError::TooShort)
        } else if b.len() >= 12 {
            Ok((b[2], b.subrange(4, 12)))
        } else {
            Ok((b[2], crate::protocol::zero_data()))
        },
    }
}

/// A raw frame that decodes to at least 12 bytes asks for its byte 2 as the
/// command and carries its bytes 4 to 11 as the data field, unchanged; one of
/// 3 to 11 bytes carries a zero data field; one of fewer than 3 bytes is too
/// short; text that is not hexadecimal is refused with the decoding error.
pub proof fn lemma_raw_command_fields(h: Seq<u8>)
    ensures
        (match hex_decoded(without_spaces(h)) {
            Ok(b) => if b.len() >= 12 {
                raw_command_spec(h) == Ok::<(u8, Seq<u8>), RawCommandError>((b[2], b.subrange(4, 12)))
            } else if b.len() >= 3 {
                raw_command_spec(h) == Ok::<(u8, Seq<u8>), RawCommandError>(
                    (b[2], seq![0u8, 0u8, 0u8, 0u8, 0u8, 0u8, 0u8, 0u8]),
                )
            } else {
                raw_command_spec(h) == Err::<(u8, Seq<u8>), RawCommandError>(RawCommandError::TooShort)
            },
            Err(e) => raw_command_spec(h) == Err::<(u8, Seq<u8>), RawCommandError>(RawCommandError::InvalidHex(e)),
        }),
{
    assert(crate::protocol::zero_data() =~= seq![0u8, 0u8, 0u8, 0u8, 0u8, 0u8, 0u8, 0u8]);
}

/// Parses a raw frame typed as hexadecimal (such as `A540900800000000000000C1`):
/// the command is byte 2 and must be a known data id; the data field is bytes
/// 4 to 11 when the frame is long enough, zeros otherwise.
pub fn parse_raw_command(hex: &str) -> (r: Result<(DataId, [u8; 8]), RawCommandError>)
    ensures
        match (r, raw_command_spec(hex.spec_bytes())) {
            (Ok((d, data)), Ok((code, expected))) => d.spec_code() == code && data@ == expected,
            (Err(RawCommandError::UnknownDataId(c)), Ok((code, _))) => c == code && forall|d: DataId|
                d.spec_code() != code,
            (Err(e), Err(e2)) => e == e2,
            _ => false,
        },
        (match (hex_decoded(without_spaces(hex.spec_bytes())), r) {
            (Ok(b), Ok((d, data))) => d.spec_code() == b[2] && (if b.len() >= 12 {
                data@ == b.subrange(4, 12)
            } else {
                data@ == seq![0u8, 0u8, 0u8, 0u8, 0u8, 0u8, 0u8, 0u8]
            }),
            (Ok(b), Err(e)) => (b.len() < 3 && e == RawCommandError::TooShort) || (b.len() >= 3
                && e == RawCommandError::UnknownDataId(b[2])),
            (Err(e), Err(e2)) => e2 == RawCommandError::InvalidHex(e),
            (Err(_), Ok(_)) => false,
        }),
{
    proof {
        lemma_raw_command_fields(hex.spec_bytes());
    }
    let cleaned = strip_spaces(hex.as_bytes());
    let bytes = match hex_decode(cleaned.as_slice()) {
        Ok(b) => b,
        Err(e) => {
            return Err(RawCommandError::InvalidHex(e));
        },
    };
    if bytes.len() < 3 {
        return Err(RawCommandError::TooShort);
    }
    let cmd_byte = bytes[2];
    let cmd = match DataId::from_u8(cmd_byte) {
        Some(c) => c,
        None => {
            return Err(RawCommandError::UnknownDataId(cmd_byte));
        },
    };
    let data: [u8; 8] = if bytes.len() >= 12 {
        let d: [u8; 8] = [bytes[4], bytes[5], bytes[6], bytes[7], bytes[8], bytes[9], bytes[10], bytes[11]];
        assert(d@ =~= bytes@.subrange(4, 12));
        d
    } else {
        let d: [u8; 8] = [0, 0, 0, 0, 0, 0, 0, 0];
        assert(d@ =~= crate::protocol::zero_data());
        d
    };
    Ok((cmd, data))
}

// =============================================================================
// Probe
// =============================================================================

/// Fields of an answer frame as the probe reads them.
#[allow(inconsistent_fields)]
#[derive(Debug, Clone, Copy, PartialEq, Eq, Structural)]
pub enum ProbeDetail {
    /// 0x90: total voltage (0.1 V, bytes 4-5), current (0.1 A offset by 30000,
    /// bytes 8-9), SOC (0.1 %, bytes 10-11).
    PackStatus { voltage_dv: u16, current_raw: u16, soc_permille: u16 },
    /// 0x93: state (0 rest, 1 charge, 2 discharge), charge and discharge MOS,
    /// cycles, capacity in mAh (bytes 8-11).
    MosStatus { state: u8, charge_mos: u8, discharge_mos: u8, cycles: u8, capacity_mah: u32 },
    /// 0x94: cells, temperature sensors, charger, load, cycles (bytes 9-10).
    StatusInfo { cells: u8, temp_sensors: u8, charger: u8, load: u8, cycles: u16 },
    /// Any other command.
    Other,
}

/// What the probe reports of a received frame.
#[derive(Debug, Clone, Copy, PartialEq, Eq, Structural)]
pub struct ProbeReport {
    pub bms_address: u8,
    pub cmd: u8,
    pub checksum_ok: bool,
    pub detail: ProbeDetail,
}

/// Reads a received 13-byte frame as the probe displays it; `None` when it
/// does not have 13 bytes or does not start with the start flag.
pub fn probe_decode(f: &[u8]) -> (r: Option<ProbeReport>)
    ensures
        (f@.len() != FRAME_LEN || f@[0] != START_FLAG) ==> r is None,
        (f@.len() == FRAME_LEN && f@[0] == START_FLAG) ==> r is Some && ({
            let rep = r->0;
            &&& rep.bms_address == f@[1]
            &&& rep.cmd == f@[2]
            &&& rep.checksum_ok == (checksum_of(f@.subrange(0, 12)) == f@[12])
            &&& f@[2] == 0x90 ==> rep.detail == (ProbeDetail::PackStatus {
                voltage_dv: be16(f@[4], f@[5]) as u16,
                current_raw: be16(f@[8], f@[9]) as u16,
                soc_permille: be16(f@[10], f@[11]) as u16,
            })
            &&& f@[2] == 0x93 ==> rep.detail == (ProbeDetail::MosStatus {
                state: f@[4],
                charge_mos: f@[5],
                discharge_mos: f@[6],
                cycles: f@[7],
                capacity_mah: ((be16(f@[8], f@[9]) * 256 + f@[10] as int) * 256 + f@[11] as int) as u32,
            })
            &&& f@[2] == 0x94 ==> rep.detail == (ProbeDetail::StatusInfo {
                cells: f@[4],
                temp_sensors: f@[5],
                charger: f@[6],
                load: f@[7],
                cycles: be16(f@[9], f@[10]) as u16,
            })
            &&& (f@[2] != 0x90 && f@[2] != 0x93 && f@[2] != 0x94) ==> rep.detail == ProbeDetail::Other
        }),
{
    if f.len() != FRAME_LEN || f[0] != START_FLAG {
        return None;
    }
    let head = crate::protocol::copy_prefix(f, 12);
    let checksum_ok = checksum(head.as_slice()) == f[12];
    let cmd = f[2];
    let detail = if cmd == 0x90 {
        ProbeDetail::PackStatus {
            voltage_dv: (f[4] as u16) * 256 + (f[5] as u16),
            current_raw: (f[8] as u16) * 256 + (f[9] as u16),
            soc_permille: (f[10] as u16) * 256 + (f[11] as u16),
        }
    } else if cmd == 0x93 {
        ProbeDetail::MosStatus {
            state: f[4],
            charge_mos: f[5],
            discharge_mos: f[6],
            cycles: f[7],
            capacity_mah: (((f[8] as u32) * 256 + (f[9] as u32)) * 256 + (f[10] as u32)) * 256 + (f[11] as u32),
        }
    } else if cmd == 0x94 {
        ProbeDetail::StatusInfo {
            cells: f[4],
            temp_sensors: f[5],
            charger: f[6],
            load: f[7],
            cycles: (f[9] as u16) * 256 + (f[10] as u16),
        }
    } else {
        ProbeDetail::Other
    };
    Some(ProbeReport { bms_address: f[1], cmd, checksum_ok, detail })
}

} // verus!
