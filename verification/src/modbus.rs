//! Modbus RTU framing: CRC-16/Modbus, FC03 / FC04 / FC06 requests, and the
//! decoding of FC03 / FC04 answers.

use vstd::prelude::*;

verus! {

// =============================================================================
// CRC-16/Modbus
// =============================================================================

/// One shift of the CRC register (polynomial 0xA001, LSB first).
pub open spec fn crc_shift(crc: u16) -> u16 {
    if crc & 1 != 0 {
        (crc >> 1u16) ^ 0xA001u16
    } else {
        crc >> 1u16
    }
}

/// `n` shifts of the CRC register.
pub open spec fn crc_shifts(crc: u16, n: nat) -> u16
    decreases n,
{
    if n == 0 {
        crc
    } else {
        crc_shifts(crc_shift(crc), (n - 1) as nat)
    }
}

/// The CRC register after feeding one byte.
pub open spec fn crc_feed(crc: u16, b: u8) -> u16 {
    crc_shifts(crc ^ (b as u16), 8)
}

/// CRC-16/Modbus of `s` (initial value 0xFFFF).
pub open spec fn crc16_of(s: Seq<u8>) -> u16
    decreases s.len(),
{
    if s.len() == 0 {
        0xFFFFu16
    } else {
        crc_feed(crc16_of(s.drop_last()), s.last())
    }
}

/// Computes the CRC-16/Modbus register over `data` (polynomial 0xA001,
/// initial value 0xFFFF, LSB first).
pub fn crc16_register(data: &[u8]) -> (crc: u16)
    ensures
        crc == crc16_of(data@),
{
    let mut crc: u16 = 0xFFFF;
    let mut i: usize = 0;
    while i < data.len()
        invariant
            i <= data.len(),
            crc == crc16_of(data@.subrange(0, i as int)),
        decreases data.len() - i,
    {
        let ghost start = crc ^ (data@[i as int] as u16);
        crc = crc ^ (data[i] as u16);
        let mut k: usize = 0;
        while k < 8
            invariant
                k <= 8,
                crc_shifts(crc, (8 - k) as nat) == crc_shifts(start, 8),
            decreases 8 - k,
        {
            if crc & 0x0001 != 0 {
                crc = (crc >> 1u16) ^ 0xA001;
            } else {
                crc = crc >> 1u16;
            }
            k = k + 1;
        }
        proof {
            let pre = data@.subrange(0, i as int);
            let next = data@.subrange(0, i + 1);
            assert(next.drop_last() =~= pre);
        }
        i = i + 1;
    }
    assert(data@.subrange(0, data.len() as int) =~= data@);
    crc
}

/// `v` with its two bytes exchanged.
pub open spec fn swap_bytes(v: u16) -> u16 {
    ((v % 256) * 256 + v / 256) as u16
}

/// The check value of the Modbus frames of the RS485 bus: the CRC-16/Modbus
/// register of `s` with its two bytes exchanged.
pub open spec fn modbus_check(s: Seq<u8>) -> u16 {
    swap_bytes(crc16_of(s))
}

/// The check value of `data` used by the Modbus frames of the RS485 bus: the
/// CRC-16/Modbus register (polynomial 0xA001, initial value 0xFFFF, LSB first)
/// with its two bytes exchanged, so that `01 03 00 00 00 01` gives `0x840A`.
/// A frame ends with the low byte of this value, then its high byte.
pub fn crc16(data: &[u8]) -> (crc: u16)
    ensures
        crc == modbus_check(data@),
{
    let r = crc16_register(data);
    (r % 256) * 256 + r / 256
}

/// The two trailing check bytes of a frame: the low byte of `crc` first.
pub open spec fn crc_bytes(crc: u16) -> Seq<u8> {
    seq![(crc % 256) as u8, (crc / 256) as u8]
}

/// `head` followed by its check value, low byte first.
pub open spec fn with_crc(head: Seq<u8>) -> Seq<u8> {
    head + crc_bytes(modbus_check(head))
}

/// Big-endian split of a 16-bit value.
pub open spec fn be_bytes(v: u16) -> Seq<u8> {
    seq![(v / 256) as u8, (v % 256) as u8]
}

/// The 8 bytes of a request with function code `fc` and two 16-bit fields.
pub open spec fn request_frame(addr: u8, fc: u8, a: u16, b: u16) -> Seq<u8> {
    with_crc(seq![addr, fc] + be_bytes(a) + be_bytes(b))
}

/// Builds an 8-byte request `[addr][fc][a_hi][a_lo][b_hi][b_lo][crc_lo][crc_hi]`.
fn build_request(addr: u8, fc: u8, a: u16, b: u16) -> (frame: [u8; 8])
    ensures
        frame@ == request_frame(addr, fc, a, b),
{
    let head: [u8; 6] = [addr, fc, (a / 256) as u8, (a % 256) as u8, (b / 256) as u8, (b % 256) as u8];
    let crc = crc16(head.as_slice());
    let frame: [u8; 8] = [head[0], head[1], head[2], head[3], head[4], head[5], (crc % 256) as u8, (crc / 256) as u8];
    proof {
        assert(head@ =~= seq![addr, fc] + be_bytes(a) + be_bytes(b));
        assert(frame@ =~= head@ + crc_bytes(crc));
    }
    frame
}

// =============================================================================
// Requests
// =============================================================================

/// FC04 - Read Input Registers (8 bytes):
/// `[ADDR][0x04][REG_HI][REG_LO][COUNT_HI][COUNT_LO][CRC_LO][CRC_HI]`.
pub fn build_fc04(addr: u8, reg_start: u16, count: u16) -> (frame: [u8; 8])
    ensures
        frame@ == request_frame(addr, 0x04, reg_start, count),
{
    build_request(addr, 0x04, reg_start, count)
}

/// FC03 - Read Holding Registers (8 bytes):
/// `[ADDR][0x03][REG_HI][REG_LO][COUNT_HI][COUNT_LO][CRC_LO][CRC_HI]`.
pub fn build_fc03(addr: u8, reg_start: u16, count: u16) -> (frame: [u8; 8])
    ensures
        frame@ == request_frame(addr, 0x03, reg_start, count),
{
    build_request(addr, 0x03, reg_start, count)
}

/// FC06 - Write Single Register (8 bytes):
/// `[ADDR][0x06][REG_HI][REG_LO][VAL_HI][VAL_LO][CRC_LO][CRC_HI]`.
pub fn build_fc06(addr: u8, reg: u16, value: u16) -> (frame: [u8; 8])
    ensures
        frame@ == request_frame(addr, 0x06, reg, value),
{
    build_request(addr, 0x06, reg, value)
}

/// Expected length of the answer to an FC03/FC04 request for `count` registers:
/// address, function code, byte count, `2 * count` data bytes and the CRC.
pub fn response_len(count: u16) -> (n: usize)
    ensures
        n == 5 + 2 * count,
{
    5 + (count as usize) * 2
}

// =============================================================================
// Answers
// =============================================================================

/// Errors found in an FC03/FC04 answer.
#[allow(inconsistent_fields)]
#[derive(Debug, Clone, Copy, PartialEq, Eq, Structural)]
pub enum ModbusError {
    /// Fewer than 5 bytes.
    TooShort { len: usize },
    /// The slave address is not the one asked.
    UnexpectedAddress { expected: u8, actual: u8 },
    /// The slave answered with an exception (function code with bit 7 set).
    Exception { fc: u8, code: u8 },
    /// The function code is neither the one asked nor its exception.
    UnexpectedFunction { expected: u8, actual: u8 },
    /// The byte count disagrees with the length of the buffer.
    ByteCountMismatch { byte_count: u8, len: usize, expected: usize },
    /// The CRC at the end does not match the bytes before it.
    BadCrc { received: u16, computed: u16 },
    /// The byte count is odd, so the last register would be incomplete.
    OddByteCount { byte_count: u8 },
}

/// The registers carried by the data bytes `data` (big-endian pairs).
pub open spec fn registers_of(data: Seq<u8>) -> Seq<u16> {
    Seq::new(data.len() / 2, |i: int| (data[2 * i] as int * 256 + data[2 * i + 1] as int) as u16)
}

/// The CRC carried by the last two bytes of `buf` (low byte first).
pub open spec fn received_crc(buf: Seq<u8>) -> u16 {
    (buf[buf.len() - 2] as int + 256 * buf[buf.len() - 1] as int) as u16
}

/// What `parse_read_response` makes of `buf`, for an answer expected from
/// slave `addr` with function code `fc`.
pub open spec fn read_response_result(addr: u8, fc: u8, buf: Seq<u8>) -> Result<Seq<u16>, ModbusError> {
    if buf.len() < 5 {
        Err(ModbusError::TooShort { len: buf.len() as usize })
    } else if buf[0] != addr {
        Err(ModbusError::UnexpectedAddress { expected: addr, actual: buf[0] })
    } else if buf[1] == fc | 0x80u8 {
        Err(ModbusError::Exception { fc, code: buf[2] })
    } else if buf[1] != fc {
        Err(ModbusError::UnexpectedFunction { expected: fc, actual: buf[1] })
    } else if buf[2] as int != buf.len() - 5 {
        Err(ModbusError::ByteCountMismatch {
            byte_count: buf[2],
            len: buf.len() as usize,
            expected: (buf.len() - 5) as usize,
        })
    } else if received_crc(buf) != modbus_check(buf.subrange(0, buf.len() - 2)) {
        Err(ModbusError::BadCrc {
            received: received_crc(buf),
            computed: modbus_check(buf.subrange(0, buf.len() - 2)),
        })
    } else if (buf.len() - 5) % 2 == 1 {
        Err(ModbusError::OddByteCount { byte_count: buf[2] })
    } else {
        Ok(registers_of(buf.subrange(3, buf.len() - 2)))
    }
}

/// Checks and decodes the answer to an FC03/FC04 request: slave address,
/// function code (or exception), byte count and CRC, in that order; an odd
/// byte count, which cannot hold whole registers, is refused last. Returns the
/// registers in order, each decoded big-endian.
pub fn parse_read_response(addr: u8, fc: u8, buf: &[u8]) -> (r: Result<Vec<u16>, ModbusError>)
    ensures
        match (r, read_response_result(addr, fc, buf@)) {
            (Ok(regs), Ok(expected)) => regs@ == expected,
            (Err(e), Err(e2)) => e == e2,
            _ => false,
        },
{
    let len = buf.len();
    if len < 5 {
        return Err(ModbusError::TooShort { len });
    }
    if buf[0] != addr {
        return Err(ModbusError::UnexpectedAddress { expected: addr, actual: buf[0] });
    }
    if buf[1] == fc | 0x80 {
        return Err(ModbusError::Exception { fc, code: buf[2] });
    }
    if buf[1] != fc {
        return Err(ModbusError::UnexpectedFunction { expected: fc, actual: buf[1] });
    }
    let byte_count = buf[2];
    let expected_data_bytes = len - 5;
    if byte_count as usize != expected_data_bytes {
        return Err(ModbusError::ByteCountMismatch { byte_count, len, expected: expected_data_bytes });
    }
    let body = crate::protocol::copy_prefix(buf, len - 2);
    let crc_calc = crc16(body.as_slice());
    let crc_recv = (buf[len - 2] as u16) + 256 * (buf[len - 1] as u16);
    if crc_recv != crc_calc {
        return Err(ModbusError::BadCrc { received: crc_recv, computed: crc_calc });
    }
    if expected_data_bytes % 2 == 1 {
        return Err(ModbusError::OddByteCount { byte_count });
    }
    let ghost data = buf@.subrange(3, len - 2);
    let n = expected_data_bytes / 2;
    let mut regs: Vec<u16> = Vec::new();
    let mut i: usize = 0;
    while i < n
        invariant
            n == expected_data_bytes / 2,
            expected_data_bytes == len - 5,
            expected_data_bytes % 2 == 0,
            len == buf.len(),
            len >= 5,
            data == buf@.subrange(3, len - 2),
            i <= n,
            regs@ == registers_of(data).subrange(0, i as int),
        decreases n - i,
    {
        let hi = buf[3 + 2 * i] as u16;
        let lo = buf[4 + 2 * i] as u16;
        regs.push(hi * 256 + lo);
        proof {
            assert(registers_of(data).subrange(0, i + 1) =~= registers_of(data).subrange(0, i as int).push(
                (hi * 256 + lo) as u16,
            ));
        }
        i = i + 1;
    }
    assert(regs@ =~= registers_of(data));
    Ok(regs)
}

/// Decodes two ET112 registers as a signed 32-bit value, low word first:
/// `lo | hi << 16`, read as two's complement.
pub fn regs_to_i32(lo: u16, hi: u16) -> (v: i32)
    ensures
        v as int == if hi < 0x8000 {
            hi as int * 65536 + lo as int
        } else {
            hi as int * 65536 + lo as int - 0x1_0000_0000
        },
{
    let u: u32 = (hi as u32) * 65536 + (lo as u32);
    if u < 0x8000_0000 {
        u as i32
    } else {
        (u - 0x8000_0000) as i32 - 0x4000_0000 - 0x4000_0000
    }
}

// =============================================================================
// Laws
// =============================================================================

/// The bytes of a well-formed FC03/FC04 answer from slave `addr` carrying `regs`.
pub open spec fn read_response_bytes(addr: u8, fc: u8, regs: Seq<u16>) -> Seq<u8> {
    with_crc(seq![addr, fc, (2 * regs.len()) as u8] + regs_bytes(regs))
}

/// The big-endian bytes of a sequence of registers.
pub open spec fn regs_bytes(regs: Seq<u16>) -> Seq<u8>
    decreases regs.len(),
{
    if regs.len() == 0 {
        Seq::empty()
    } else {
        regs_bytes(regs.drop_last()) + be_bytes(regs.last())
    }
}

proof fn lemma_regs_bytes(regs: Seq<u16>)
    ensures
        regs_bytes(regs).len() == 2 * regs.len(),
        registers_of(regs_bytes(regs)) =~= regs,
    decreases regs.len(),
{
    if regs.len() > 0 {
        let init = regs.drop_last();
        lemma_regs_bytes(init);
        let b = regs_bytes(regs);
        assert forall|i: int| 0 <= i < regs.len() implies registers_of(b)[i] == regs[i] by {
            if i < init.len() {
                assert(registers_of(regs_bytes(init))[i] == init[i]);
            } else {
                let v = regs.last();
                assert((v / 256) as u8 as int * 256 + (v % 256) as u8 as int == v as int);
            }
        }
    }
}

/// Every request that `build_fc03`, `build_fc04` or `build_fc06` produces ends
/// with the check value of its first six bytes, low byte first.
pub proof fn lemma_request_crc_valid(addr: u8, fc: u8, a: u16, b: u16)
    ensures
        ({
            let f = request_frame(addr, fc, a, b);
            &&& f.len() == 8
            &&& f[6] as int + 256 * f[7] as int == modbus_check(f.subrange(0, 6)) as int
        }),
{
    let head = seq![addr, fc] + be_bytes(a) + be_bytes(b);
    let f = request_frame(addr, fc, a, b);
    assert(f.subrange(0, 6) =~= head);
}

/// A well-formed answer (slave `addr`, function code `fc` below 0x80, at most 127
/// registers, correct byte count and CRC) is accepted by `parse_read_response`,
/// which gives back exactly the registers it carries; its length is
/// `response_len` of the register count.
pub proof fn lemma_read_response_roundtrip(addr: u8, fc: u8, regs: Seq<u16>)
    requires
        fc < 0x80,
        regs.len() <= 127,
    ensures
        read_response_result(addr, fc, read_response_bytes(addr, fc, regs)) == Ok::<Seq<u16>, ModbusError>(regs),
        read_response_bytes(addr, fc, regs).len() == 5 + 2 * regs.len(),
{
    lemma_regs_bytes(regs);
    let head = seq![addr, fc, (2 * regs.len()) as u8] + regs_bytes(regs);
    let buf = read_response_bytes(addr, fc, regs);
    assert(buf.subrange(0, buf.len() - 2) =~= head);
    assert(buf.subrange(3, buf.len() - 2) =~= regs_bytes(regs));
    assert(fc | 0x80u8 != fc) by (bit_vector)
        requires
            fc < 0x80,
    ;
    let crc = modbus_check(head);
    assert(received_crc(buf) == crc);
}

} // verus!
