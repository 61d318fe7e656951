//! The decisions of the HTTP API: the checks a write request passes before it
//! reaches the bus, how the BMS answer is reported, and the query limits.

use vstd::prelude::*;
use crate::error::DalyError;
use crate::store::{LogEntry, RingBuffer};
use crate::text::{parse_addr, parse_addr_spec};

pub mod chart;
pub mod et112;
pub mod influx_csv;

verus! {

/// The password a write request must carry (the Daly factory password).
pub open spec fn write_password() -> Seq<char> {
    "12345678"@
}

/// `true` when `p` is the write password.
pub fn password_matches(p: &str) -> (b: bool)
    ensures
        b == (p@ == write_password()),
{
    let given = String::from_str(p);
    let expected = String::from_str("12345678");
    given == expected
}

/// Why a write request was turned down before reaching the BMS.
#[derive(Debug, Clone, Copy, PartialEq, Eq, Structural)]
pub enum WriteRefusal {
    /// A reset without `confirm: true` (400).
    ConfirmRequired,
    /// The password is not the write password (403).
    WrongPassword,
    /// Read-only mode is on (403).
    ReadOnly,
    /// The BMS id in the path is not an address (400).
    BadAddress,
}

/// What the checks of a write request decide, in their order: the password,
/// then read-only mode, then the address in the path.
pub open spec fn write_check(password: Seq<char>, read_only: bool, id: Seq<char>) -> Result<u8, WriteRefusal> {
    if password != write_password() {
        Err(WriteRefusal::WrongPassword)
    } else if read_only {
        Err(WriteRefusal::ReadOnly)
    } else {
        match parse_addr_spec(id) {
            Some(a) => Ok(a),
            None => Err(WriteRefusal::BadAddress),
        }
    }
}

/// Checks a write request (cell or pack voltage alarms, delta alarms,
/// balancing, SOC): the address to write to, or why the request is refused.
pub fn check_write(password: &str, read_only: bool, id: &str) -> (r: Result<u8, WriteRefusal>)
    ensures
        r == write_check(password@, read_only, id@),
{
    if !password_matches(password) {
        return Err(WriteRefusal::WrongPassword);
    }
    if read_only {
        return Err(WriteRefusal::ReadOnly);
    }
    match parse_addr(id) {
        Some(a) => Ok(a),
        None => Err(WriteRefusal::BadAddress),
    }
}

/// Body of `POST /api/v1/bms/:id/mos` (not served by the web API).
#[derive(Debug, Clone)]
pub struct MosCommand {
    pub charge: Option<bool>,
    pub discharge: Option<bool>,
    pub password: Option<String>,
}

/// Body of `POST /api/v1/bms/:id/settings/cell-voltage-alarms`.
#[derive(Debug, Clone)]
pub struct CellVoltAlarmsCmd {
    pub high_l1_mv: u16,
    pub high_l2_mv: u16,
    pub low_l1_mv: u16,
    pub low_l2_mv: u16,
    pub password: String,
}

/// Body of `POST /api/v1/bms/:id/settings/pack-voltage-alarms`.
#[derive(Debug, Clone)]
pub struct PackVoltAlarmsCmd {
    pub high_l1_dv: u16,
    pub high_l2_dv: u16,
    pub low_l1_dv: u16,
    pub low_l2_dv: u16,
    pub password: String,
}

/// Body of `POST /api/v1/bms/:id/settings/delta-alarms`.
#[derive(Debug, Clone)]
pub struct DeltaAlarmsCmd {
    pub cell_delta_l1_mv: u16,
    pub cell_delta_l2_mv: u16,
    pub temp_delta_l1: u8,
    pub temp_delta_l2: u8,
    pub password: String,
}

/// Body of `POST /api/v1/bms/:id/settings/balancing`.
#[derive(Debug, Clone)]
pub struct BalancingCmd {
    pub activation_mv: u16,
    pub delta_mv: u16,
    pub password: String,
}

/// Body of `POST /api/v1/bms/:id/reset`.
#[derive(Debug, Clone)]
pub struct ResetCommand {
    pub confirm: bool,
    pub password: String,
}

/// What the checks of a reset request decide: `confirm` first, then the
/// checks of every write.
pub open spec fn reset_check(confirm: bool, password: Seq<char>, read_only: bool, id: Seq<char>) -> Result<u8, WriteRefusal> {
    if !confirm {
        Err(WriteRefusal::ConfirmRequired)
    } else {
        write_check(password, read_only, id)
    }
}

impl ResetCommand {
    /// Checks this reset request for the BMS id `id`.
    pub fn check(&self, read_only: bool, id: &str) -> (r: Result<u8, WriteRefusal>)
        ensures
            r == reset_check(self.confirm, self.password@, read_only, id@),
    {
        if !self.confirm {
            return Err(WriteRefusal::ConfirmRequired);
        }
        check_write(self.password.as_str(), read_only, id)
    }
}

/// How the API reports the outcome of a write sent to a BMS.
#[derive(Debug)]
pub enum WriteReply {
    /// Acknowledged (200).
    Done,
    /// No acknowledgement in time; many BMS never acknowledge SOC writes and
    /// resets, so this is reported as a success with a warning (200).
    Unacknowledged,
    /// Any other error (500).
    Failed(DalyError),
}

/// The reply to the result of a write.
pub fn write_reply(r: Result<(), DalyError>) -> (w: WriteReply)
    ensures
        r is Ok ==> w is Done,
        r matches Err(e) ==> (e is Timeout ==> w is Unacknowledged) && (!(e is Timeout) ==> w
            == WriteReply::Failed(e)),
{
    match r {
        Ok(()) => WriteReply::Done,
        Err(DalyError::Timeout { .. }) => WriteReply::Unacknowledged,
        Err(e) => WriteReply::Failed(e),
    }
}

/// Number of times `GET /api/v1/bms/:id/settings` asks the BMS.
pub const SETTINGS_ATTEMPTS: u8 = 3;

/// The pause after failed attempt `attempt` (0-based) of a settings read:
/// 300 ms before each new attempt, none after the last.
pub fn settings_retry_pause_ms(attempt: u8) -> (p: Option<u64>)
    ensures
        attempt + 1 < SETTINGS_ATTEMPTS ==> p == Some(300u64),
        attempt + 1 >= SETTINGS_ATTEMPTS ==> p is None,
{
    if attempt < SETTINGS_ATTEMPTS - 1 {
        Some(300)
    } else {
        None
    }
}

/// Query of `GET /api/v1/system/logs?limit=N`.
#[derive(Debug, Clone, Copy)]
pub struct LogsQuery {
    pub limit: Option<usize>,
}

impl LogsQuery {
    /// The number of entries asked for: 100 by default, at most 200.
    pub fn effective_limit(&self) -> (n: usize)
        ensures
            n == (match self.limit {
                Some(l) => if l < 200 { l } else { 200 },
                None => 100,
            }),
    {
        let l = match self.limit {
            Some(l) => l,
            None => 100,
        };
        if l < 200 {
            l
        } else {
            200
        }
    }

    /// The log entries shown: the most recent first, as many as asked for.
    pub fn select(&self, logs: &RingBuffer<LogEntry>) -> (v: Vec<LogEntry>)
        ensures
            ({
                let n = match self.limit {
                    Some(l) => if l < 200 { l } else { 200 },
                    None => 100,
                };
                &&& v@.len() == (if n < logs@.len() { n as int } else { logs@.len() as int })
                &&& forall|i: int| 0 <= i < v@.len() ==> cloned(logs@[logs@.len() - 1 - i], #[trigger] v@[i])
            }),
    {
        logs.recent(self.effective_limit())
    }
}

/// In read-only mode no write request gets through the checks, whatever its
/// password and target; and a request with a wrong password never does.
pub proof fn lemma_read_only_refuses_writes(password: Seq<char>, id: Seq<char>, confirm: bool, read_only: bool)
    ensures
        read_only ==> write_check(password, true, id) is Err,
        read_only ==> reset_check(confirm, password, true, id) is Err,
        password != write_password() ==> write_check(password, read_only, id) is Err,
        password != write_password() ==> reset_check(confirm, password, read_only, id) is Err,
{
}

} // verus!
