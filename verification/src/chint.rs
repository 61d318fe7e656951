//! CHINT automatic transfer switch (ATS) over Modbus RTU: request frames,
//! model detection, and the decoding of its status registers.

use vstd::prelude::*;
use crate::modbus::{be_bytes, crc16_register, crc16_of, crc_bytes};
use crate::text::{
    decimal, push_decimal, two_digits, all_digits, chars_of, digit_value, digits_value, hex_byte, hex_digit_char, hex_words_text, is_whitespace, is_whitespace_char,
    parse_decimal, parse_uint, parse_uint_range, str_eq, words, words_scan,
};

verus! {

/// CRC-16/Modbus of `data` (polynomial 0xA001, initial value 0xFFFF).
pub fn calculate_crc(data: &[u8]) -> (crc: u16)
    ensures
        crc == crc16_of(data@),
{
    crc16_register(data)
}

/// The bytes of a request with function `func` on register `reg`: a read
/// (0x03) asks for one register, a write (0x06) carries `value` when given;
/// any other function carries no field after the register.
pub open spec fn ats_frame(addr: u8, func: u8, reg: u16, value: Option<u16>) -> Seq<u8> {
    let head = seq![addr, func] + be_bytes(reg) + if func == 0x03 {
        seq![0u8, 1u8]
    } else if func == 0x06 && value is Some {
        be_bytes(value->0)
    } else {
        Seq::empty()
    };
    head + crc_bytes(crc16_of(head))
}

/// Builds a request frame `[addr][func][reg_hi][reg_lo][...][crc_lo][crc_hi]`.
pub fn build_frame(addr: u8, func: u8, reg: u16, value: Option<u16>) -> (f: Vec<u8>)
    ensures
        f@ == ats_frame(addr, func, reg, value),
{
    let mut data: Vec<u8> = vec![addr, func, (reg / 256) as u8, (reg % 256) as u8];
    if func == 0x03 {
        data.push(0x00);
        data.push(0x01);
    } else if func == 0x06 {
        match value {
            Some(v) => {
                data.push((v / 256) as u8);
                data.push((v % 256) as u8);
            },
            None => {},
        }
    }
    let ghost head = data@;
    let crc = calculate_crc(data.as_slice());
    data.push((crc % 256) as u8);
    data.push((crc / 256) as u8);
    assert(head =~= seq![addr, func] + be_bytes(reg) + if func == 0x03 {
        seq![0u8, 1u8]
    } else if func == 0x06 && value is Some {
        be_bytes(value->0)
    } else {
        Seq::empty()
    });
    assert(data@ =~= head + crc_bytes(crc));
    data
}

/// The two ATS models: MN (full series, with settings) and BN (base series).
#[derive(Debug, Clone, Copy, PartialEq, Eq, Structural)]
pub enum AtsModel {
    MN,
    BN,
}

/// Register that only MN models have (under-voltage 1 threshold).
pub const MN_PROBE_REGISTER: u16 = 0x2065;

/// Register of the switch status.
pub const SWITCH_REGISTER: u16 = 0x0050;

/// The model, from the attempt to read `MN_PROBE_REGISTER`: MN when it answered.
pub fn model_from_probe(probe: Option<u16>) -> (m: AtsModel)
    ensures
        m == (if probe is Some { AtsModel::MN } else { AtsModel::BN }),
{
    match probe {
        Some(_) => AtsModel::MN,
        None => AtsModel::BN,
    }
}

/// The register read by the periodic link check: the MN probe register on MN
/// models, the switch status otherwise.
pub fn monitor_register(model: AtsModel) -> (r: u16)
    ensures
        r == (if model == AtsModel::MN { MN_PROBE_REGISTER } else { SWITCH_REGISTER }),
{
    match model {
        AtsModel::MN => MN_PROBE_REGISTER,
        AtsModel::BN => SWITCH_REGISTER,
    }
}

/// Delay before retry `attempt + 1` (ms): 50 ms doubled per attempt, at most 32 times.
pub fn retry_delay_ms(attempt: u8) -> (d: u64)
    ensures
        d == 50 * vstd::arithmetic::power2::pow2(if attempt < 5 { attempt as nat } else { 5 }),
{
    let k: u64 = if attempt < 5 { attempt as u64 } else { 5 };
    proof {
        vstd::arithmetic::power2::lemma2_to64();
    }
    let p: u64 = if k == 0 {
        1
    } else if k == 1 {
        2
    } else if k == 2 {
        4
    } else if k == 3 {
        8
    } else if k == 4 {
        16
    } else {
        32
    };
    50 * p
}

// =============================================================================
// Status registers
// =============================================================================

/// State of one phase of a source (2 bits of register 0x004F).
#[derive(Debug, Clone, Copy, PartialEq, Eq, Structural)]
pub enum SourceState {
    Normal,
    Undervoltage,
    Overvoltage,
    Error,
}

/// The 2-bit field of `v` that starts at bit `shift`.
pub open spec fn field2(v: u16, shift: nat) -> nat {
    (v as nat / vstd::arithmetic::power2::pow2(shift)) % 4
}

/// The state coded by a 2-bit field.
pub open spec fn source_state_of(code: nat) -> SourceState {
    if code == 0 {
        SourceState::Normal
    } else if code == 1 {
        SourceState::Undervoltage
    } else if code == 2 {
        SourceState::Overvoltage
    } else {
        SourceState::Error
    }
}

/// Decodes the 2-bit phase state of register 0x004F that starts at bit `shift`.
pub fn decode_source_state(power: u16, shift: u16) -> (s: SourceState)
    requires
        shift < 16,
    ensures
        s == source_state_of(field2(power, shift as nat)),
        field2(power, shift as nat) == 0 ==> s == SourceState::Normal,
        field2(power, shift as nat) == 1 ==> s == SourceState::Undervoltage,
        field2(power, shift as nat) == 2 ==> s == SourceState::Overvoltage,
        field2(power, shift as nat) == 3 ==> s == SourceState::Error,
{
    let code = (power >> shift) & 3;
    proof {
        lemma_field2(power, shift);
    }
    if code == 0 {
        SourceState::Normal
    } else if code == 1 {
        SourceState::Undervoltage
    } else if code == 2 {
        SourceState::Overvoltage
    } else {
        SourceState::Error
    }
}

proof fn lemma_field2(v: u16, shift: u16)
    requires
        shift < 16,
    ensures
        ((v >> shift) & 3u16) as nat == field2(v, shift as nat),
{
    vstd::bits::lemma_u16_shr_is_div(v, shift);
    vstd::arithmetic::power2::lemma_pow2_pos(shift as nat);
    let q = v >> shift;
    assert(q & 3u16 == q % 4) by (bit_vector);
}

/// The six phase states of register 0x004F: source I on bits 8, 10, 12 and
/// source II on bits 0, 2, 4, each as `[a, b, c]`.
pub fn decode_power_register(power: u16) -> (r: ([SourceState; 3], [SourceState; 3]))
    ensures
        r.0@ == seq![
            source_state_of(field2(power, 8)),
            source_state_of(field2(power, 10)),
            source_state_of(field2(power, 12)),
        ],
        r.1@ == seq![
            source_state_of(field2(power, 0)),
            source_state_of(field2(power, 2)),
            source_state_of(field2(power, 4)),
        ],
{
    let s1: [SourceState; 3] = [
        decode_source_state(power, 8),
        decode_source_state(power, 10),
        decode_source_state(power, 12),
    ];
    let s2: [SourceState; 3] = [
        decode_source_state(power, 0),
        decode_source_state(power, 2),
        decode_source_state(power, 4),
    ];
    assert(s1@ =~= seq![
        source_state_of(field2(power, 8)),
        source_state_of(field2(power, 10)),
        source_state_of(field2(power, 12)),
    ]);
    assert(s2@ =~= seq![
        source_state_of(field2(power, 0)),
        source_state_of(field2(power, 2)),
        source_state_of(field2(power, 4)),
    ]);
    (s1, s2)
}

/// Fault reported in bits 4-6 of the switch status register.
#[derive(Debug, Clone, Copy, PartialEq, Eq, Structural)]
pub enum SwitchFault {
    NoFault,
    FireLink,
    MotorTimeout,
    SourceITrip,
    SourceIITrip,
    ClosingSignal,
    PhaseSequenceI,
    PhaseSequenceII,
}

/// The fault coded by a 3-bit field.
pub open spec fn switch_fault_of(code: nat) -> SwitchFault {
    if code == 0 {
        SwitchFault::NoFault
    } else if code == 1 {
        SwitchFault::FireLink
    } else if code == 2 {
        SwitchFault::MotorTimeout
    } else if code == 3 {
        SwitchFault::SourceITrip
    } else if code == 4 {
        SwitchFault::SourceIITrip
    } else if code == 5 {
        SwitchFault::ClosingSignal
    } else if code == 6 {
        SwitchFault::PhaseSequenceI
    } else {
        SwitchFault::PhaseSequenceII
    }
}

/// Decoded switch status register (0x0050).
#[derive(Debug, Clone, Copy, PartialEq, Eq, Structural)]
pub struct SwitchStatus {
    /// Switch I closed (bit 1).
    pub switch1_closed: bool,
    /// Switch II closed (bit 2).
    pub switch2_closed: bool,
    /// Automatic mode (bit 0); manual otherwise.
    pub auto_mode: bool,
    /// Remote control enabled (bit 8).
    pub remote_enabled: bool,
    /// Fault (bits 4-6).
    pub fault: SwitchFault,
}

/// Bit `k` of a 16-bit register.
pub open spec fn bit16(v: u16, k: nat) -> bool {
    (v as nat / vstd::arithmetic::power2::pow2(k)) % 2 == 1
}

/// Decodes the switch status register (0x0050).
pub fn decode_switch_register(sw: u16) -> (s: SwitchStatus)
    ensures
        s.switch1_closed == bit16(sw, 1),
        s.switch2_closed == bit16(sw, 2),
        s.auto_mode == bit16(sw, 0),
        s.remote_enabled == bit16(sw, 8),
        s.fault == switch_fault_of((sw as nat / 16) % 8),
        (sw as nat / 16) % 8 == 0 ==> s.fault == SwitchFault::NoFault,
        (sw as nat / 16) % 8 == 1 ==> s.fault == SwitchFault::FireLink,
        (sw as nat / 16) % 8 == 2 ==> s.fault == SwitchFault::MotorTimeout,
        (sw as nat / 16) % 8 == 3 ==> s.fault == SwitchFault::SourceITrip,
        (sw as nat / 16) % 8 == 4 ==> s.fault == SwitchFault::SourceIITrip,
        (sw as nat / 16) % 8 == 5 ==> s.fault == SwitchFault::ClosingSignal,
        (sw as nat / 16) % 8 == 6 ==> s.fault == SwitchFault::PhaseSequenceI,
        (sw as nat / 16) % 8 == 7 ==> s.fault == SwitchFault::PhaseSequenceII,
{
    proof {
        vstd::arithmetic::power2::lemma2_to64();
    }
    assert((sw & 0x02u16 != 0) == ((sw / 2) % 2 == 1)) by (bit_vector);
    assert((sw & 0x04u16 != 0) == ((sw / 4) % 2 == 1)) by (bit_vector);
    assert((sw & 0x01u16 != 0) == (sw % 2 == 1)) by (bit_vector);
    assert((sw & 0x0100u16 != 0) == ((sw / 256) % 2 == 1)) by (bit_vector);
    assert((sw >> 4u16) & 7u16 == (sw / 16) % 8) by (bit_vector);
    let code = (sw >> 4) & 0x07;
    let fault = if code == 0 {
        SwitchFault::NoFault
    } else if code == 1 {
        SwitchFault::FireLink
    } else if code == 2 {
        SwitchFault::MotorTimeout
    } else if code == 3 {
        SwitchFault::SourceITrip
    } else if code == 4 {
        SwitchFault::SourceIITrip
    } else if code == 5 {
        SwitchFault::ClosingSignal
    } else if code == 6 {
        SwitchFault::PhaseSequenceI
    } else {
        SwitchFault::PhaseSequenceII
    };
    SwitchStatus {
        switch1_closed: sw & 0x02 != 0,
        switch2_closed: sw & 0x04 != 0,
        auto_mode: sw & 0x01 != 0,
        remote_enabled: sw & 0x0100 != 0,
        fault,
    }
}

/// Operating mode (register 0x206D).
#[derive(Debug, Clone, Copy, PartialEq, Eq, Structural)]
pub enum OperationMode {
    AutoRestore,
    AutoNoRestore,
    MutualBackup,
    Generator,
    GeneratorNoRestore,
    GeneratorBackup,
    Unknown,
}

/// Decodes the operating mode register (0x206D): codes 0 to 5, anything else unknown.
pub fn decode_operation_mode(mode: u16) -> (m: OperationMode)
    ensures
        mode == 0 ==> m == OperationMode::AutoRestore,
        mode == 1 ==> m == OperationMode::AutoNoRestore,
        mode == 2 ==> m == OperationMode::MutualBackup,
        mode == 3 ==> m == OperationMode::Generator,
        mode == 4 ==> m == OperationMode::GeneratorNoRestore,
        mode == 5 ==> m == OperationMode::GeneratorBackup,
        mode > 5 ==> m == OperationMode::Unknown,
{
    match mode {
        0 => OperationMode::AutoRestore,
        1 => OperationMode::AutoNoRestore,
        2 => OperationMode::MutualBackup,
        3 => OperationMode::Generator,
        4 => OperationMode::GeneratorNoRestore,
        5 => OperationMode::GeneratorBackup,
        _ => OperationMode::Unknown,
    }
}

/// Decodes the Modbus baud-rate register (0x0101): 0 to 3 give 4800, 9600,
/// 19200 and 38400 bauds; anything else is unknown.
pub fn decode_baud(code: u16) -> (b: Option<u32>)
    ensures
        code == 0 ==> b == Some(4800u32),
        code == 1 ==> b == Some(9600u32),
        code == 2 ==> b == Some(19200u32),
        code == 3 ==> b == Some(38400u32),
        code > 3 ==> b is None,
{
    match code {
        0 => Some(4800),
        1 => Some(9600),
        2 => Some(19200),
        3 => Some(38400),
        _ => None,
    }
}

/// Parity of the Modbus link.
#[derive(Debug, Clone, Copy, PartialEq, Eq, Structural)]
pub enum Parity {
    NoParity,
    Odd,
    Even,
}

/// Decodes the parity register (0x000E): 0 none, 1 odd, 2 even; anything else unknown.
pub fn decode_parity(code: u16) -> (p: Option<Parity>)
    ensures
        code == 0 ==> p == Some(Parity::NoParity),
        code == 1 ==> p == Some(Parity::Odd),
        code == 2 ==> p == Some(Parity::Even),
        code > 2 ==> p is None,
{
    match code {
        0 => Some(Parity::NoParity),
        1 => Some(Parity::Odd),
        2 => Some(Parity::Even),
        _ => None,
    }
}

/// The two frequencies (Hz) packed in register 0x000D: source I in the high
/// byte, source II in the low byte.
pub fn split_frequencies(freq: u16) -> (r: (u16, u16))
    ensures
        r.0 == freq / 256,
        r.1 == freq % 256,
{
    assert((freq >> 8u16) & 0xFFu16 == freq / 256) by (bit_vector);
    assert(freq & 0xFFu16 == freq % 256) by (bit_vector);
    ((freq >> 8) & 0xFF, freq & 0xFF)
}

/// The registers read for a full status, in order, for `model`: the voltages,
/// version, counters, runtime and delays T1/T2; the maximum voltages; on MN
/// models the thresholds, delays T3/T4 and frequencies; then the source and
/// switch states, the operating mode and the Modbus settings.
pub open spec fn status_registers(model: AtsModel) -> Seq<u16> {
    let base = seq![
        0x0006u16, 0x0007u16, 0x0008u16, 0x0009u16, 0x000Au16, 0x000Bu16, 0x000Cu16,
        0x0015u16, 0x0016u16, 0x0017u16, 0x2069u16, 0x206Au16,
        0x000Fu16, 0x0010u16, 0x0011u16, 0x0012u16, 0x0013u16, 0x0014u16,
    ];
    let mn = seq![0x2065u16, 0x2066u16, 0x2067u16, 0x2068u16, 0x206Bu16, 0x206Cu16, 0x000Du16];
    let tail = seq![0x004Fu16, 0x0050u16, 0x206Du16, 0x0100u16, 0x0101u16, 0x000Eu16];
    if model == AtsModel::MN {
        base + mn + tail
    } else {
        base + tail
    }
}

/// `true` for a register that the status display decodes: the source
/// voltages (0x0006-0x000B), the software version (0x000C), the frequencies
/// (0x000D), the parity (0x000E), the maximum voltages (0x000F-0x0014), the
/// counters and runtime (0x0015-0x0017), the source states (0x004F), the
/// switch status (`SWITCH_REGISTER`), the thresholds (0x2065-0x2068), the
/// delays T1-T4 (0x2069-0x206C), the operating mode (0x206D), and the Modbus
/// address and baud rate (0x0100, 0x0101).
pub open spec fn status_display_register(r: u16) -> bool {
    ||| 0x0006 <= r <= 0x0017
    ||| r == 0x004F
    ||| r == SWITCH_REGISTER
    ||| 0x2065 <= r <= 0x206D
    ||| r == 0x0100
    ||| r == 0x0101
}

/// The full-status plan of every model reads the source states (0x004F),
/// then at once the switch status (`SWITCH_REGISTER`: position, mode, remote
/// control, fault), then the operating mode (0x206D), and the Modbus address,
/// baud rate and parity (0x0100, 0x0101, 0x000E); the thresholds exist on MN
/// models only (`MN_PROBE_REGISTER` is read exactly on them); and every
/// register read is one the status display decodes.
pub proof fn lemma_status_plan_contents(model: AtsModel)
    ensures
        exists|i: int|
            0 <= i && i + 2 < status_registers(model).len() && #[trigger] status_registers(model)[i] == 0x004F
                && status_registers(model)[i + 1] == SWITCH_REGISTER && status_registers(model)[i + 2] == 0x206D,
        status_registers(model).contains(SWITCH_REGISTER),
        status_registers(model).contains(0x004Fu16),
        status_registers(model).contains(0x206Du16),
        status_registers(model).contains(0x0100u16),
        status_registers(model).contains(0x0101u16),
        status_registers(model).contains(0x000Eu16),
        status_registers(model).contains(MN_PROBE_REGISTER) == (model == AtsModel::MN),
        forall|i: int| 0 <= i < status_registers(model).len() ==> status_display_register(#[trigger] status_registers(model)[i]),
{
    let v = status_registers(model);
    let t: int = if model == AtsModel::MN { 25 } else { 18 };
    assert(v[t] == 0x004F && v[t + 1] == SWITCH_REGISTER && v[t + 2] == 0x206D);
    assert(v[t + 3] == 0x0100u16 && v[t + 4] == 0x0101u16 && v[t + 5] == 0x000Eu16);
    if model == AtsModel::MN {
        assert(v[18] == MN_PROBE_REGISTER);
    } else {
        assert forall|i: int| 0 <= i < v.len() implies v[i] != MN_PROBE_REGISTER by {}
    }
}

/// The registers to read for a full status of `model`, in order.
pub fn status_register_plan(model: AtsModel) -> (v: Vec<u16>)
    ensures
        v@ == status_registers(model),
        v@.contains(SWITCH_REGISTER),
        exists|i: int|
            0 <= i && i + 2 < v@.len() && #[trigger] v@[i] == 0x004F && v@[i + 1] == SWITCH_REGISTER && v@[i + 2] == 0x206D,
        v@.contains(0x0100u16),
        v@.contains(0x0101u16),
        v@.contains(0x000Eu16),
        v@.contains(MN_PROBE_REGISTER) == (model == AtsModel::MN),
        forall|i: int| 0 <= i < v@.len() ==> status_display_register(#[trigger] v@[i]),
{
    proof {
        lemma_status_plan_contents(model);
    }
    let mut v: Vec<u16> = vec![
        0x0006, 0x0007, 0x0008, 0x0009, 0x000A, 0x000B, 0x000C,
        0x0015, 0x0016, 0x0017, 0x2069, 0x206A,
        0x000F, 0x0010, 0x0011, 0x0012, 0x0013, 0x0014,
    ];
    if model == AtsModel::MN {
        v.push(0x2065);
        v.push(0x2066);
        v.push(0x2067);
        v.push(0x2068);
        v.push(0x206B);
        v.push(0x206C);
        v.push(0x000D);
    }
    v.push(0x004F);
    v.push(0x0050);
    v.push(0x206D);
    v.push(0x0100);
    v.push(0x0101);
    v.push(0x000E);
    assert(v@ =~= status_registers(model));
    v
}

/// A status read succeeded when at least one register answered.
pub fn status_read_ok(reads: &Vec<Option<u16>>) -> (ok: bool)
    ensures
        ok == exists|i: int| 0 <= i < reads@.len() && (#[trigger] reads@[i]) is Some,
{
    let mut i: usize = 0;
    while i < reads.len()
        invariant
            i <= reads@.len(),
            forall|k: int| 0 <= k < i ==> (#[trigger] reads@[k]) is None,
        decreases reads.len() - i,
    {
        if reads[i].is_some() {
            return true;
        }
        i = i + 1;
    }
    false
}

// =============================================================================
// Commands and settings
// =============================================================================

/// Remote control and source forcing commands.
#[derive(Debug, Clone, Copy, PartialEq, Eq, Structural)]
pub enum AtsCommand {
    RemoteOn,
    RemoteOff,
    ForceDouble,
    ForceSource1,
    ForceSource2,
}

/// The register and value written by `cmd`.
pub fn command_write(cmd: AtsCommand) -> (r: (u16, u16))
    ensures
        cmd == AtsCommand::RemoteOn ==> r == (0x2800u16, 0x0004u16),
        cmd == AtsCommand::RemoteOff ==> r == (0x2800u16, 0x0000u16),
        cmd == AtsCommand::ForceDouble ==> r == (0x2700u16, 0x00FFu16),
        cmd == AtsCommand::ForceSource1 ==> r == (0x2700u16, 0x0000u16),
        cmd == AtsCommand::ForceSource2 ==> r == (0x2700u16, 0x00AAu16),
{
    match cmd {
        AtsCommand::RemoteOn => (0x2800, 0x0004),
        AtsCommand::RemoteOff => (0x2800, 0x0000),
        AtsCommand::ForceDouble => (0x2700, 0x00FF),
        AtsCommand::ForceSource1 => (0x2700, 0x0000),
        AtsCommand::ForceSource2 => (0x2700, 0x00AA),
    }
}

/// The voltage thresholds that can be set on MN models.
#[derive(Debug, Clone, Copy, PartialEq, Eq, Structural)]
pub enum AtsSetting {
    Undervoltage1,
    Undervoltage2,
    Overvoltage1,
    Overvoltage2,
}

/// The register of a threshold.
pub fn setting_register(s: AtsSetting) -> (r: u16)
    ensures
        s == AtsSetting::Undervoltage1 ==> r == 0x2065,
        s == AtsSetting::Undervoltage2 ==> r == 0x2066,
        s == AtsSetting::Overvoltage1 ==> r == 0x2067,
        s == AtsSetting::Overvoltage2 ==> r == 0x2068,
{
    match s {
        AtsSetting::Undervoltage1 => 0x2065,
        AtsSetting::Undervoltage2 => 0x2066,
        AtsSetting::Overvoltage1 => 0x2067,
        AtsSetting::Overvoltage2 => 0x2068,
    }
}

/// Why a threshold cannot be written.
#[derive(Debug, Clone, Copy, PartialEq, Eq, Structural)]
pub enum SettingError {
    /// Thresholds only exist on MN models.
    NotAvailable,
    /// Remote control must be enabled first.
    RemoteDisabled,
    /// The value is outside 150..=200 V.
    OutOfRange,
}

/// Thresholds can only be written on MN models.
pub fn settings_allowed(model: AtsModel) -> (ok: bool)
    ensures
        ok == (model == AtsModel::MN),
{
    model == AtsModel::MN
}

/// Checks an under-voltage threshold request: the model must be MN, remote
/// control must be enabled (bit 8 of the switch status `switch`, as read; a
/// failed read counts as disabled), and the value must lie in 150..=200 V.
pub fn check_undervoltage_setting(model: AtsModel, switch: Option<u16>, value: u16) -> (r: Result<(), SettingError>)
    ensures
        model != AtsModel::MN ==> r == Err::<(), SettingError>(SettingError::NotAvailable),
        model == AtsModel::MN && !(switch is Some && bit16(switch->0, 8)) ==> r == Err::<(), SettingError>(
            SettingError::RemoteDisabled,
        ),
        model == AtsModel::MN && switch is Some && bit16(switch->0, 8) && (value < 150 || value > 200)
            ==> r == Err::<(), SettingError>(SettingError::OutOfRange),
        model == AtsModel::MN && switch is Some && bit16(switch->0, 8) && 150 <= value <= 200 ==> r is Ok,
{
    if model != AtsModel::MN {
        return Err(SettingError::NotAvailable);
    }
    let remote = match switch {
        Some(s) => decode_switch_register(s).remote_enabled,
        None => false,
    };
    if !remote {
        return Err(SettingError::RemoteDisabled);
    }
    if value < 150 || value > 200 {
        return Err(SettingError::OutOfRange);
    }
    Ok(())
}

// =============================================================================
// Answers and configuration
// =============================================================================

/// What a read answer `resp` (the bytes received) gives: nothing when it is
/// shorter than 5 bytes or is an exception (function 0x83); the register of
/// bytes 3-4 when its function is 0x03; nothing otherwise.
pub open spec fn read_answer_spec(resp: Seq<u8>) -> Option<u16> {
    if resp.len() < 5 || resp[1] == 0x83 || resp[1] != 0x03 {
        None
    } else {
        Some((resp[3] as int * 256 + resp[4] as int) as u16)
    }
}

/// The register value carried by the answer to a read (see `read_answer_spec`).
pub fn read_answer_value(resp: &[u8]) -> (v: Option<u16>)
    ensures
        v == read_answer_spec(resp@),
{
    if resp.len() < 5 {
        return None;
    }
    if resp[1] == 0x83 {
        None
    } else if resp[1] == 0x03 {
        Some((resp[3] as u16) * 256 + (resp[4] as u16))
    } else {
        None
    }
}

/// A write is acknowledged by any answer whose function byte is not the
/// exception 0x86 (an answer of a single byte counts as acknowledged); no
/// answer at all is no acknowledgement.
pub fn write_answer_ok(resp: &[u8]) -> (ok: bool)
    ensures
        ok == (resp@.len() > 0 && (resp@.len() < 2 || resp@[1] != 0x86)),
{
    if resp.len() == 0 {
        false
    } else if resp.len() < 2 {
        true
    } else {
        resp[1] != 0x86
    }
}

/// The bytes written by `tokens`, each one in hexadecimal (an optional `+`
/// then one or two significant digits, at most `FF`); nothing when one of
/// them is not such a byte.
pub open spec fn hex_tokens_bytes(tokens: Seq<Seq<char>>) -> Option<Seq<u8>>
    decreases tokens.len(),
{
    if tokens.len() == 0 {
        Some(Seq::empty())
    } else {
        match (hex_tokens_bytes(tokens.drop_last()), parse_uint(tokens.last(), 16, 255)) {
            (Some(b), Some(v)) => Some(b.push(v as u8)),
            _ => None,
        }
    }
}

/// Reads a raw frame typed as hexadecimal bytes separated by white space,
/// such as `"01 03 00 4F 00 01"`; `None` when a word is not a byte in
/// hexadecimal.
pub fn parse_raw_frame(frame_hex: &str) -> (r: Option<Vec<u8>>)
    ensures
        r is None <==> hex_tokens_bytes(words(frame_hex@)) is None,
        r matches Some(b) ==> hex_tokens_bytes(words(frame_hex@)) == Some(b@),
{
    let v = chars_of(frame_hex);
    let mut out: Vec<u8> = Vec::new();
    let mut failed = false;
    let mut start: usize = 0;
    let mut i: usize = 0;
    while i < v.len()
        invariant
            start <= i <= v@.len(),
            v@ == frame_hex@,
            failed ==> hex_tokens_bytes(words_scan(v@.subrange(0, i as int)).0) is None,
            !failed ==> hex_tokens_bytes(words_scan(v@.subrange(0, i as int)).0) == Some(out@),
            words_scan(v@.subrange(0, i as int)).1 == v@.subrange(start as int, i as int),
        decreases v.len() - i,
    {
        let ghost pre = v@.subrange(0, i as int);
        let ghost next = v@.subrange(0, i + 1);
        proof {
            assert(next.drop_last() =~= pre);
            assert(next.last() == v@[i as int]);
        }
        if is_whitespace_char(v[i]) {
            if start < i {
                let b = parse_uint_range(&v, start, i, 16, 255);
                match b {
                    Some(x) => {
                        if !failed {
                            out.push(x as u8);
                        }
                    },
                    None => {
                        failed = true;
                    },
                }
                proof {
                    let done = words_scan(pre).0.push(words_scan(pre).1);
                    assert(done.drop_last() =~= words_scan(pre).0);
                    assert(done.last() == v@.subrange(start as int, i as int));
                }
            }
            start = i + 1;
            proof {
                assert(v@.subrange(start as int, i + 1) =~= Seq::<char>::empty());
            }
        } else {
            proof {
                assert(v@.subrange(start as int, i + 1) =~= v@.subrange(start as int, i as int).push(v@[i as int]));
            }
        }
        i = i + 1;
    }
    proof {
        assert(v@.subrange(0, v@.len() as int) =~= frame_hex@);
    }
    if start < v.len() {
        let b = parse_uint_range(&v, start, v.len(), 16, 255);
        match b {
            Some(x) => {
                if !failed {
                    out.push(x as u8);
                }
            },
            None => {
                failed = true;
            },
        }
        proof {
            let ws = words(frame_hex@);
            assert(ws.drop_last() =~= words_scan(frame_hex@).0);
            assert(ws.last() == v@.subrange(start as int, v@.len() as int));
        }
    }
    if failed {
        None
    } else {
        Some(out)
    }
}

proof fn lemma_hex_byte_parses(b: u8)
    ensures
        parse_uint(hex_byte(b), 16, 255) == Some(b as nat),
        !is_whitespace(hex_byte(b)[0]),
        !is_whitespace(hex_byte(b)[1]),
        hex_byte(b).len() == 2,
{
    let hi = (b / 16) as nat;
    let lo = (b % 16) as nat;
    let h = hex_byte(b);
    assert(h[0] == hex_digit_char(hi));
    assert(h[1] == hex_digit_char(lo));
    assert(digit_value(hex_digit_char(hi), 16) == Some(hi));
    assert(digit_value(hex_digit_char(lo), 16) == Some(lo));
    assert(h[0] != '+');
    assert(all_digits(h, 16));
    assert(h.drop_last() =~= seq![h[0]]);
    let one = seq![h[0]];
    assert(one.drop_last() =~= Seq::<char>::empty());
    assert(one.last() == h[0]);
    assert(digits_value(Seq::<char>::empty(), 16) == 0);
    assert(digits_value(one, 16) == hi);
    assert(digits_value(h, 16) == hi * 16 + lo);
}

proof fn lemma_words_of_hex_words(f: Seq<u8>)
    ensures
        f.len() > 0 ==> words_scan(hex_words_text(f)).1 == hex_byte(f.last()),
        f.len() > 0 ==> words_scan(hex_words_text(f)).0 == f.drop_last().map_values(|b: u8| hex_byte(b)),
        words(hex_words_text(f)) == f.map_values(|b: u8| hex_byte(b)),
    decreases f.len(),
{
    if f.len() == 0 {
        assert(hex_words_text(f) =~= Seq::<char>::empty());
        assert(f.map_values(|b: u8| hex_byte(b)) =~= Seq::<Seq<char>>::empty());
    } else {
        let b = f.last();
        let h = hex_byte(b);
        lemma_hex_byte_parses(b);
        let p = f.drop_last();
        let (prefix, t) = if f.len() == 1 {
            (Seq::<char>::empty(), h)
        } else {
            (hex_words_text(p).push(' '), hex_words_text(p) + seq![' '] + h)
        };
        assert(hex_words_text(f) == t);
        // Before the last byte: the words of `p`, none in progress.
        if f.len() == 1 {
            assert(words_scan(prefix) == (Seq::<Seq<char>>::empty(), Seq::<char>::empty()));
            assert(p.map_values(|b: u8| hex_byte(b)) =~= Seq::<Seq<char>>::empty());
        } else {
            lemma_words_of_hex_words(p);
            assert(prefix.drop_last() =~= hex_words_text(p));
            assert(is_whitespace(prefix.last()));
            assert(words_scan(hex_words_text(p)).1 == hex_byte(p.last()));
            assert(words_scan(prefix).0 =~= words(hex_words_text(p)));
            assert(words_scan(prefix).1 =~= Seq::<char>::empty());
        }
        // Then the two digits of the last byte.
        let t1 = prefix.push(h[0]);
        assert(t1.drop_last() =~= prefix);
        assert(words_scan(t1).1 =~= seq![h[0]]);
        assert(t =~= t1.push(h[1]));
        assert(t.drop_last() =~= t1);
        assert(words_scan(t).1 =~= h);
        assert(words_scan(t).0 =~= p.map_values(|b: u8| hex_byte(b)));
        assert(f.map_values(|b: u8| hex_byte(b)) =~= p.map_values(|b: u8| hex_byte(b)).push(h));
    }
}

proof fn lemma_hex_tokens_of_bytes(f: Seq<u8>)
    ensures
        hex_tokens_bytes(f.map_values(|b: u8| hex_byte(b))) == Some(f),
    decreases f.len(),
{
    let ts = f.map_values(|b: u8| hex_byte(b));
    if f.len() == 0 {
        assert(f =~= Seq::<u8>::empty());
    } else {
        lemma_tokens_prefix(f);
        lemma_hex_tokens_of_bytes(f.drop_last());
        lemma_hex_byte_parses(f.last());
        assert(ts.last() == hex_byte(f.last()));
        assert(f.drop_last().push(f.last()) =~= f);
    }
}

proof fn lemma_tokens_prefix(f: Seq<u8>)
    requires
        f.len() > 0,
    ensures
        f.map_values(|b: u8| hex_byte(b)).drop_last() == f.drop_last().map_values(|b: u8| hex_byte(b)),
{
    assert(f.map_values(|b: u8| hex_byte(b)).drop_last() =~= f.drop_last().map_values(|b: u8| hex_byte(b)));
}

/// Bytes written with `hex_words` read back as the same bytes:
/// `parse_raw_frame` undoes `hex_words`.
pub proof fn lemma_hex_words_parse_back(f: Seq<u8>)
    ensures
        hex_tokens_bytes(words(hex_words_text(f))) == Some(f),
{
    lemma_words_of_hex_words(f);
    lemma_hex_tokens_of_bytes(f);
}

// =============================================================================
// Values shown for the registers read
// =============================================================================

/// How a register value is shown.
#[derive(Debug, Clone, Copy, PartialEq, Eq, Structural)]
pub enum ReadingUnit {
    /// `"{v} V"`.
    Volts,
    /// `"{v} s"`.
    Seconds,
    /// `"{v} h"`.
    Hours,
    /// `"{v} Hz"`.
    Hertz,
    /// `"{v}"`.
    Count,
    /// A software version `v / 100` with two decimals, such as `"1.23"`.
    Version,
}

/// The text of value `v` in `unit`.
pub open spec fn reading_text(unit: ReadingUnit, v: u16) -> Seq<char> {
    match unit {
        ReadingUnit::Volts => decimal(v as nat) + seq![' ', 'V'],
        ReadingUnit::Seconds => decimal(v as nat) + seq![' ', 's'],
        ReadingUnit::Hours => decimal(v as nat) + seq![' ', 'h'],
        ReadingUnit::Hertz => decimal(v as nat) + seq![' ', 'H', 'z'],
        ReadingUnit::Count => decimal(v as nat),
        ReadingUnit::Version => decimal((v / 100) as nat) + seq!['.'] + two_digits((v % 100) as nat),
    }
}

/// `"---"`: the text of a register that could not be read.
pub open spec fn unread_text() -> Seq<char> {
    seq!['-', '-', '-']
}

/// `"N/A"`: the text of a register the model does not have.
pub open spec fn not_available_text() -> Seq<char> {
    seq!['N', '/', 'A']
}

/// The text shown for a register read with result `reading`: its value in
/// `unit`, or `"---"` when the read failed.
pub fn reading_label(unit: ReadingUnit, reading: Option<u16>) -> (s: String)
    ensures
        s@ == (match reading {
            Some(v) => reading_text(unit, v),
            None => unread_text(),
        }),
{
    proof {
        reveal_strlit("---");
        reveal_strlit(" V");
        reveal_strlit(" s");
        reveal_strlit(" h");
        reveal_strlit(" Hz");
        reveal_strlit(".");
        reveal_strlit("0");
    }
    match reading {
        None => String::from_str("---"),
        Some(v) => {
            let mut s = String::new();
            match unit {
                ReadingUnit::Version => {
                    push_decimal(&mut s, (v / 100) as u64);
                    s.append(".");
                    let c = v % 100;
                    if c < 10 {
                        s.append("0");
                    }
                    push_decimal(&mut s, c as u64);
                    proof {
                        if c < 10 {
                            assert(decimal(c as nat) == seq![crate::text::digit_char(c as nat)]);
                        } else {
                            let d = decimal(c as nat);
                            assert(decimal((c / 10) as nat) == seq![crate::text::digit_char((c / 10) as nat)]);
                            assert(d =~= seq![crate::text::digit_char((c / 10) as nat), crate::text::digit_char((c % 10) as nat)]);
                        }
                        assert(s@ =~= reading_text(unit, v));
                    }
                },
                _ => {
                    push_decimal(&mut s, v as u64);
                    match unit {
                        ReadingUnit::Volts => s.append(" V"),
                        ReadingUnit::Seconds => s.append(" s"),
                        ReadingUnit::Hours => s.append(" h"),
                        ReadingUnit::Hertz => s.append(" Hz"),
                        _ => {},
                    }
                    proof {
                        assert(s@ =~= reading_text(unit, v));
                    }
                },
            }
            s
        },
    }
}

/// The text shown for a register that only MN models have: `"N/A"` on a BN
/// model, else as `reading_label`.
pub fn model_reading_label(model: AtsModel, unit: ReadingUnit, reading: Option<u16>) -> (s: String)
    ensures
        model == AtsModel::BN ==> s@ == not_available_text(),
        model == AtsModel::MN ==> s@ == (match reading {
            Some(v) => reading_text(unit, v),
            None => unread_text(),
        }),
{
    match model {
        AtsModel::BN => {
            proof {
                reveal_strlit("N/A");
            }
            String::from_str("N/A")
        },
        AtsModel::MN => reading_label(unit, reading),
    }
}

/// The three phase limits `"a V/b V/c V"`, when all three were read.
pub fn phase_limits_label(a: Option<u16>, b: Option<u16>, c: Option<u16>) -> (s: Option<String>)
    ensures
        match (a, b, c) {
            (Some(x), Some(y), Some(z)) => s matches Some(t) && t@ == reading_text(ReadingUnit::Volts, x) + seq!['/']
                + reading_text(ReadingUnit::Volts, y) + seq!['/'] + reading_text(ReadingUnit::Volts, z),
            _ => s is None,
        },
{
    match (a, b, c) {
        (Some(x), Some(y), Some(z)) => {
            let mut s = reading_label(ReadingUnit::Volts, Some(x));
            proof {
                reveal_strlit("/");
            }
            s.append("/");
            let ys = reading_label(ReadingUnit::Volts, Some(y));
            s.append(ys.as_str());
            s.append("/");
            let zs = reading_label(ReadingUnit::Volts, Some(z));
            s.append(zs.as_str());
            proof {
                assert(s@ =~= reading_text(ReadingUnit::Volts, x) + seq!['/'] + reading_text(ReadingUnit::Volts, y)
                    + seq!['/'] + reading_text(ReadingUnit::Volts, z));
            }
            Some(s)
        },
        _ => None,
    }
}

/// A reading succeeded when at least one of the values shown is neither
/// `"---"` nor `"N/A"`.
pub fn any_value_read(labels: &Vec<String>) -> (b: bool)
    ensures
        b == exists|i: int|
            0 <= i < labels@.len() && labels@[i]@ != unread_text() && labels@[i]@ != not_available_text(),
{
    proof {
        reveal_strlit("---");
        reveal_strlit("N/A");
        assert("---"@ =~= unread_text());
        assert("N/A"@ =~= not_available_text());
    }
    let mut i: usize = 0;
    while i < labels.len()
        invariant
            i <= labels@.len(),
            forall|k: int|
                0 <= k < i ==> (#[trigger] labels@[k])@ == unread_text() || labels@[k]@ == not_available_text(),
        decreases labels.len() - i,
    {
        let unread = str_eq(labels[i].as_str(), "---");
        let absent = str_eq(labels[i].as_str(), "N/A");
        proof {
            reveal_strlit("---");
            reveal_strlit("N/A");
            assert("---"@ =~= unread_text());
            assert("N/A"@ =~= not_available_text());
        }
        if !unread && !absent {
            return true;
        }
        i = i + 1;
    }
    false
}

/// Settings of the ATS service, read from its environment.
#[derive(Debug, Clone)]
pub struct AtsConfig {
    pub port_name: String,
    pub baud_rate: u32,
    pub parity: Parity,
    pub modbus_addr: u8,
    pub host: String,
    pub port_http: u16,
    pub debug_enabled: bool,
}

/// A number read from the environment, or `default` when it is missing or
/// does not parse.
pub open spec fn env_number(v: Option<String>, max: nat, default: nat) -> nat {
    match v {
        Some(s) => match parse_uint(s@, 10, max) {
            Some(n) => n,
            None => default,
        },
        None => default,
    }
}

fn number_or(v: &Option<String>, max: u32, default: u32) -> (n: u32)
    requires
        default <= max,
    ensures
        n == env_number(*v, max as nat, default as nat),
{
    match v {
        Some(s) => match parse_decimal(s.as_str(), max) {
            Some(n) => n,
            None => default,
        },
        None => default,
    }
}

fn text_or(v: Option<String>, default: &str) -> (s: String)
    ensures
        s@ == (match v {
            Some(t) => t@,
            None => default@,
        }),
{
    match v {
        Some(t) => t,
        None => String::from_str(default),
    }
}

impl AtsConfig {
    /// The settings from the values of `SERIAL_PORT`, `SERIAL_BAUD`,
    /// `SERIAL_PARITY`, `MODBUS_ADDR`, `SERVER_HOST`, `SERVER_PORT` and
    /// `DEBUG_LOG_ENABLED` (`None` when unset): `COM5`, 9600 baud, even parity
    /// (`None` and `Odd` select the others), address 6, `127.0.0.1:5000`, and
    /// debug logging only when the value is exactly `true`.
    pub fn from_values(
        serial_port: Option<String>,
        serial_baud: Option<String>,
        serial_parity: Option<String>,
        modbus_addr: Option<String>,
        server_host: Option<String>,
        server_port: Option<String>,
        debug_log: Option<String>,
    ) -> (c: Self)
        ensures
            c.port_name@ == (match serial_port {
                Some(t) => t@,
                None => "COM5"@,
            }),
            c.baud_rate == env_number(serial_baud, 0xFFFF_FFFF, 9600),
            c.parity == (match serial_parity {
                Some(t) => if t@ == "None"@ {
                    Parity::NoParity
                } else if t@ == "Odd"@ {
                    Parity::Odd
                } else {
                    Parity::Even
                },
                None => Parity::Even,
            }),
            c.modbus_addr == env_number(modbus_addr, 255, 6),
            c.host@ == (match server_host {
                Some(t) => t@,
                None => "127.0.0.1"@,
            }),
            c.port_http == env_number(server_port, 0xFFFF, 5000),
            c.debug_enabled == (match debug_log {
                Some(t) => t@ == "true"@,
                None => false,
            }),
    {
        let parity = match &serial_parity {
            Some(t) => if str_eq(t.as_str(), "None") {
                Parity::NoParity
            } else if str_eq(t.as_str(), "Odd") {
                Parity::Odd
            } else {
                Parity::Even
            },
            None => Parity::Even,
        };
        let debug_enabled = match &debug_log {
            Some(t) => str_eq(t.as_str(), "true"),
            None => false,
        };
        let baud_rate = number_or(&serial_baud, 0xFFFF_FFFF, 9600);
        let addr = number_or(&modbus_addr, 255, 6);
        let port = number_or(&server_port, 0xFFFF, 5000);
        proof {
            match modbus_addr {
                Some(s) => match parse_uint(s@, 10, 255) {
                    Some(n) => assert(n <= 255),
                    None => {},
                },
                None => {},
            }
            match server_port {
                Some(s) => match parse_uint(s@, 10, 0xFFFF) {
                    Some(n) => assert(n <= 0xFFFF),
                    None => {},
                },
                None => {},
            }
        }
        AtsConfig {
            port_name: text_or(serial_port, "COM5"),
            baud_rate,
            parity,
            modbus_addr: addr as u8,
            host: text_or(server_host, "127.0.0.1"),
            port_http: port as u16,
            debug_enabled,
        }
    }
}

} // verus!
