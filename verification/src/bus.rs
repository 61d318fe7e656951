//! Decisions of a command exchange on the shared RS485 bus: which frame to
//! send, and what to make of the answer frames that come back.
//!
//! On a shared bus the master BMS (0x01) may answer first even when the
//! request targets another board; a second frame is then read, and accepted
//! if it is the expected answer.

use vstd::prelude::*;
use crate::error::DalyError;
use crate::protocol::{
    parse_result, request_bytes, zero_data, DataId, RequestFrame, ResponseFrame,
};

verus! {

/// Default time allowed for an answer (ms).
pub const DEFAULT_TIMEOUT_MS: u64 = 500;

/// Minimum delay between two commands on the bus (ms).
pub const INTER_FRAME_DELAY_MS: u64 = 50;

/// The request sent for command `cmd`: write commands carry `data`, read
/// commands carry reserved zero bytes.
pub fn request_for(bms_address: u8, cmd: DataId, data: [u8; 8]) -> (f: RequestFrame)
    ensures
        cmd.spec_is_write() ==> f.bytes@ == request_bytes(bms_address, cmd.spec_code(), data@),
        !cmd.spec_is_write() ==> f.bytes@ == request_bytes(bms_address, cmd.spec_code(), zero_data()),
{
    if cmd.is_write() {
        RequestFrame::new(bms_address, cmd, data)
    } else {
        RequestFrame::read(bms_address, cmd)
    }
}

/// What to do with the first answer frame.
#[derive(Debug, Clone)]
pub enum FirstAnswer {
    /// The frame is the expected answer.
    Accepted(ResponseFrame),
    /// The frame is valid but comes from another board (`actual`): read a
    /// second frame.
    TrySecond { actual: u8 },
    /// The exchange fails with this error.
    Failed(DalyError),
}

/// `true` when `f` is a valid answer from `bms_address` to command `code`.
pub open spec fn answers(f: Seq<u8>, bms_address: u8, code: u8) -> bool {
    f[1] == bms_address && f[2] == code
}

/// Classifies the first answer frame `buf` to command `cmd` sent to `bms_address`.
pub fn classify_first_answer(buf: &[u8], bms_address: u8, cmd: DataId) -> (a: FirstAnswer)
    ensures
        match (a, parse_result(buf@)) {
            (FirstAnswer::Failed(e), Err(e2)) => e == e2,
            (FirstAnswer::Accepted(f), Ok(b)) => f.bytes@ == b && answers(b, bms_address, cmd.spec_code()),
            (FirstAnswer::TrySecond { actual: actual }, Ok(b)) => b[1] != bms_address && actual == b[1],
            (FirstAnswer::Failed(e), Ok(b)) => b[1] == bms_address && b[2] != cmd.spec_code() && e
                == (DalyError::UnexpectedDataId { expected: cmd.spec_code(), actual: b[2] }),
            _ => false,
        },
{
    match ResponseFrame::parse(buf) {
        Err(e) => FirstAnswer::Failed(e),
        Ok(frame) => {
            if frame.address() != bms_address {
                FirstAnswer::TrySecond { actual: frame.address() }
            } else {
                match frame.validate_for(bms_address, cmd) {
                    Ok(()) => FirstAnswer::Accepted(frame),
                    Err(e) => FirstAnswer::Failed(e),
                }
            }
        },
    }
}

/// The outcome of the exchange after a first frame from board `first_actual`:
/// the second frame `buf2` (if one could be read) is accepted when it parses
/// and answers the request; otherwise the exchange fails with
/// `UnexpectedAddress` naming the first board.
pub fn check_second_answer(buf2: Option<&[u8]>, bms_address: u8, cmd: DataId, first_actual: u8) -> (r:
    Result<ResponseFrame, DalyError>)
    ensures
        match r {
            Ok(f) => buf2 is Some && parse_result(buf2->0@) == Ok::<Seq<u8>, DalyError>(f.bytes@)
                && answers(f.bytes@, bms_address, cmd.spec_code()),
            Err(e) => e == (DalyError::UnexpectedAddress { expected: bms_address, actual: first_actual })
                && !(buf2 is Some && parse_result(buf2->0@) is Ok && answers(
                parse_result(buf2->0@)->Ok_0,
                bms_address,
                cmd.spec_code(),
            )),
        },
{
    match buf2 {
        Some(b) => {
            match ResponseFrame::parse(b) {
                Ok(frame2) => {
                    if frame2.validate_for(bms_address, cmd).is_ok() {
                        return Ok(frame2);
                    }
                },
                Err(_) => {},
            }
        },
        None => {},
    }
    Err(DalyError::UnexpectedAddress { expected: bms_address, actual: first_actual })
}

/// Checks one frame of a multi-frame answer: it must parse and answer
/// command `cmd` from `bms_address`.
pub fn check_frame(buf: &[u8], bms_address: u8, cmd: DataId) -> (r: Result<ResponseFrame, DalyError>)
    ensures
        match (r, parse_result(buf@)) {
            (Ok(f), Ok(b)) => f.bytes@ == b && answers(b, bms_address, cmd.spec_code()),
            (Err(e), Err(e2)) => e == e2,
            (Err(e), Ok(b)) => !answers(b, bms_address, cmd.spec_code()) && (if b[1] != bms_address {
                e == (DalyError::UnexpectedAddress { expected: bms_address, actual: b[1] })
            } else {
                e == (DalyError::UnexpectedDataId { expected: cmd.spec_code(), actual: b[2] })
            }),
            _ => false,
        },
{
    let frame = ResponseFrame::parse(buf)?;
    frame.validate_for(bms_address, cmd)?;
    Ok(frame)
}

/// The error of an exchange that received no answer in time.
pub fn timeout_error(bms_address: u8, cmd: DataId) -> (e: DalyError)
    ensures
        e == (DalyError::Timeout { bms_id: bms_address, cmd: cmd.spec_code() }),
{
    DalyError::Timeout { bms_id: bms_address, cmd: cmd.code() }
}

/// The addresses of `probed` whose probe was answered (`answered`), in the
/// order they were probed.
pub open spec fn answered_addresses(probed: Seq<u8>, answered: Seq<bool>) -> Seq<u8>
    decreases probed.len(),
{
    if probed.len() == 0 {
        Seq::empty()
    } else {
        let rest = answered_addresses(probed.drop_last(), answered);
        if answered[probed.len() - 1] {
            rest.push(probed.last())
        } else {
            rest
        }
    }
}

/// The BMS found by discovery: the probed addresses that answered, in probe
/// order; when the addresses were probed in increasing order (as
/// `discovery_range` gives them), the ones found are in increasing order too.
pub fn found_addresses(probed: &Vec<u8>, answered: &Vec<bool>) -> (v: Vec<u8>)
    requires
        probed@.len() == answered@.len(),
    ensures
        v@ == answered_addresses(probed@, answered@),
        (forall|i: int, j: int| 0 <= i < j < probed@.len() ==> probed@[i] < probed@[j]) ==> (forall|i: int, j: int|
            0 <= i < j < v@.len() ==> v@[i] < v@[j]),
{
    let mut out: Vec<u8> = Vec::new();
    let mut i: usize = 0;
    let ghost inc = forall|a: int, b: int| 0 <= a < b < probed@.len() ==> probed@[a] < probed@[b];
    while i < probed.len()
        invariant
            i <= probed@.len(),
            probed@.len() == answered@.len(),
            inc == (forall|a: int, b: int| 0 <= a < b < probed@.len() ==> probed@[a] < probed@[b]),
            out@ == answered_addresses(probed@.subrange(0, i as int), answered@),
            inc ==> forall|a: int, b: int| 0 <= a < b < out@.len() ==> out@[a] < out@[b],
            out@.len() > 0 ==> exists|k: int| 0 <= k < i && out@.last() == probed@[k],
        decreases probed.len() - i,
    {
        proof {
            assert(probed@.subrange(0, i + 1).drop_last() =~= probed@.subrange(0, i as int));
        }
        if answered[i] {
            proof {
                if inc && out@.len() > 0 {
                    let k = choose|k: int| 0 <= k < i && out@.last() == probed@[k];
                    assert(out@.last() < probed@[i as int]);
                }
            }
            out.push(probed[i]);
            proof {
                assert(out@.last() == probed@[i as int]);
            }
        }
        i = i + 1;
    }
    assert(probed@.subrange(0, i as int) =~= probed@);
    out
}

/// The addresses `start..=end` probed by discovery, in order.
pub fn discovery_range(start: u8, end: u8) -> (v: Vec<u8>)
    ensures
        start <= end ==> v@.len() == end - start + 1,
        start > end ==> v@.len() == 0,
        forall|i: int| 0 <= i < v@.len() ==> v@[i] == start + i,
{
    let mut v: Vec<u8> = Vec::new();
    if start > end {
        return v;
    }
    let mut a: u8 = start;
    loop
        invariant
            start <= a <= end,
            v@.len() == a - start,
            forall|i: int| 0 <= i < v@.len() ==> v@[i] == start + i,
        decreases end - a,
    {
        v.push(a);
        if a == end {
            return v;
        }
        a = a + 1;
    }
}

} // verus!
