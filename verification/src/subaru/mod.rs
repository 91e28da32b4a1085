//! The PIDs polled on the Subaru EJ205 (2007 USDM): commands, units,
//! polling priority and decoder of each.

use crate::obd::parser::{decoded, mode01, mode21, Measure};
use crate::obd::{ObdResult, Reading};
use std::time::{Duration, SystemTime};
use vstd::prelude::*;

verus! {

/// How often a PID is polled, relative to the base polling period.
#[derive(Debug, Clone, Copy, PartialEq, Eq, Structural, PartialOrd, Ord, Hash)]
pub enum Priority {
    /// Every period (100 ms at the default period): RPM, boost, knock.
    Critical,
    /// Every 3rd period (about 250 ms): TPS, MAF, timing.
    High,
    /// Every 5th period (500 ms): coolant, intake air, fuel pressure.
    Normal,
    /// Every 10th period (1 s): load, IAM.
    Low,
}

/// The decoder of a PID's answer.
#[derive(Debug, Clone, Copy, PartialEq, Eq, Structural)]
pub enum Decoder {
    Rpm,
    MapKpa,
    TpsPct,
    MafGs,
    CoolantTemp,
    IntakeTemp,
    FuelPressureKpa,
    EngineLoad,
    KnockFine,
    KnockLearn,
    TimingAdvance,
    BoostPsi,
    Iam,
}

/// Minimum frame length the decoder needs.
pub open spec fn decoder_min(d: Decoder) -> nat {
    match d {
        Decoder::Rpm => 4,
        Decoder::MafGs => 4,
        Decoder::MapKpa => 3,
        Decoder::TpsPct => 3,
        Decoder::CoolantTemp => 3,
        Decoder::IntakeTemp => 3,
        Decoder::FuelPressureKpa => 3,
        Decoder::EngineLoad => 3,
        Decoder::KnockFine => 23,
        Decoder::KnockLearn => 27,
        Decoder::TimingAdvance => 24,
        Decoder::BoostPsi => 17,
        Decoder::Iam => 31,
    }
}

/// Numerator of the decoded value.
pub open spec fn decoder_num(d: Decoder, b: Seq<u8>) -> int {
    match d {
        Decoder::Rpm => 256 * b[2] + b[3],
        Decoder::MafGs => 256 * b[2] + b[3],
        Decoder::MapKpa => b[2] as int,
        Decoder::TpsPct => 100 * b[2],
        Decoder::CoolantTemp => b[2] - 40,
        Decoder::IntakeTemp => b[2] - 40,
        Decoder::FuelPressureKpa => 3 * b[2],
        Decoder::EngineLoad => 100 * b[2],
        Decoder::KnockFine => 352 * (b[22] - 128),
        Decoder::KnockLearn => 352 * (b[26] - 128),
        Decoder::TimingAdvance => 352 * (b[23] - 128),
        Decoder::BoostPsi => 681818 * b[16] - 146960000,
        Decoder::Iam => b[30] as int,
    }
}

/// Denominator of the decoded value.
pub open spec fn decoder_den(d: Decoder) -> int {
    match d {
        Decoder::Rpm => 4,
        Decoder::MafGs => 100,
        Decoder::MapKpa => 1,
        Decoder::TpsPct => 255,
        Decoder::CoolantTemp => 1,
        Decoder::IntakeTemp => 1,
        Decoder::FuelPressureKpa => 1,
        Decoder::EngineLoad => 255,
        Decoder::KnockFine => 1000,
        Decoder::KnockLearn => 1000,
        Decoder::TimingAdvance => 1000,
        Decoder::BoostPsi => 10000000,
        Decoder::Iam => 16,
    }
}

/// The answer `r` for the frame `b` is what the mode 01 or mode 21 decoder
/// that `d` names answers.
pub open spec fn named_decoder_answer(d: Decoder, r: ObdResult<Measure>, b: Seq<u8>) -> bool {
    match d {
        Decoder::Rpm => mode01::rpm_answer(r, b),
        Decoder::MapKpa => mode01::map_kpa_answer(r, b),
        Decoder::TpsPct => mode01::tps_pct_answer(r, b),
        Decoder::MafGs => mode01::maf_gs_answer(r, b),
        Decoder::CoolantTemp => mode01::coolant_temp_answer(r, b),
        Decoder::IntakeTemp => mode01::intake_temp_answer(r, b),
        Decoder::FuelPressureKpa => mode01::fuel_pressure_kpa_answer(r, b),
        Decoder::EngineLoad => mode01::engine_load_answer(r, b),
        Decoder::KnockFine => mode21::knock_fine_answer(r, b),
        Decoder::KnockLearn => mode21::knock_learn_answer(r, b),
        Decoder::TimingAdvance => mode21::timing_advance_answer(r, b),
        Decoder::BoostPsi => mode21::boost_psi_answer(r, b),
        Decoder::Iam => mode21::iam_answer(r, b),
    }
}

/// The decoder table (minimum length, numerator, denominator of each
/// variant) gives, for every frame, exactly the answer of the mode 01 or
/// mode 21 decoder the variant names: e.g. `MafGs` decodes `(256 A + B) /
/// 100` g/s like `mode01::maf_gs`, and `Iam` decodes `byte 30 / 16` like
/// `mode21::iam`.
pub proof fn law_decoder_table_matches_decoders(d: Decoder, b: Seq<u8>, r: ObdResult<Measure>)
    ensures
        decoded(r, b, decoder_min(d), decoder_num(d, b), decoder_den(d)) <==> named_decoder_answer(
            d,
            r,
            b,
        ),
{
}

impl Decoder {
    /// Decodes a frame with this decoder.
    pub fn apply(&self, bytes: &[u8]) -> (r: ObdResult<Measure>)
        ensures
            decoded(r, bytes@, decoder_min(*self), decoder_num(*self, bytes@), decoder_den(*self)),
            named_decoder_answer(*self, r, bytes@),
    {
        match self {
            Decoder::Rpm => mode01::rpm(bytes),
            Decoder::MapKpa => mode01::map_kpa(bytes),
            Decoder::TpsPct => mode01::tps_pct(bytes),
            Decoder::MafGs => mode01::maf_gs(bytes),
            Decoder::CoolantTemp => mode01::coolant_temp(bytes),
            Decoder::IntakeTemp => mode01::intake_temp(bytes),
            Decoder::FuelPressureKpa => mode01::fuel_pressure_kpa(bytes),
            Decoder::EngineLoad => mode01::engine_load(bytes),
            Decoder::KnockFine => mode21::knock_fine(bytes),
            Decoder::KnockLearn => mode21::knock_learn(bytes),
            Decoder::TimingAdvance => mode21::timing_advance(bytes),
            Decoder::BoostPsi => mode21::boost_psi(bytes),
            Decoder::Iam => mode21::iam(bytes),
        }
    }
}

/// A polled PID: its name, the command sent to the adapter, its unit, its
/// polling priority and its decoder.
#[derive(Debug, Clone, Copy)]
pub struct PidDef {
    pub name: &'static str,
    pub cmd: &'static str,
    pub unit: &'static str,
    pub priority: Priority,
    pub decode: Decoder,
}

/// Entry `i` of the EJ205 table: name, command, unit, priority, decoder.
pub open spec fn ej205_entry(i: int) -> (Seq<char>, Seq<char>, Seq<char>, Priority, Decoder) {
    if i == 0 {
        ("rpm"@, "010C"@, "rpm"@, Priority::Critical, Decoder::Rpm)
    } else if i == 1 {
        ("map"@, "010B"@, "kPa"@, Priority::Critical, Decoder::MapKpa)
    } else if i == 2 {
        ("tps"@, "0111"@, "%"@, Priority::High, Decoder::TpsPct)
    } else if i == 3 {
        ("maf"@, "0110"@, "g/s"@, Priority::High, Decoder::MafGs)
    } else if i == 4 {
        ("coolant"@, "0105"@, "°C"@, Priority::Normal, Decoder::CoolantTemp)
    } else if i == 5 {
        ("iat"@, "010F"@, "°C"@, Priority::Normal, Decoder::IntakeTemp)
    } else if i == 6 {
        ("fuel_pres"@, "010A"@, "kPa"@, Priority::Normal, Decoder::FuelPressureKpa)
    } else if i == 7 {
        ("load"@, "0104"@, "%"@, Priority::Low, Decoder::EngineLoad)
    } else if i == 8 {
        ("knock_fine"@, "2101"@, "°"@, Priority::Critical, Decoder::KnockFine)
    } else if i == 9 {
        ("knock_learn"@, "2101"@, "°"@, Priority::High, Decoder::KnockLearn)
    } else if i == 10 {
        ("timing"@, "2101"@, "°"@, Priority::High, Decoder::TimingAdvance)
    } else if i == 11 {
        ("boost_psi"@, "2101"@, "psi"@, Priority::Critical, Decoder::BoostPsi)
    } else {
        ("iam"@, "2101"@, ""@, Priority::Low, Decoder::Iam)
    }
}

pub open spec fn pid_is_entry(p: PidDef, i: int) -> bool {
    (p.name@, p.cmd@, p.unit@, p.priority, p.decode) == ej205_entry(i)
}

/// The request that fetches the quantity a decoder reads: the SAE J1979
/// mode 01 PID of the standard quantities (`01` then the PID in hex), and
/// the Subaru mode 21 block `2101` for the knock, timing, boost and IAM
/// values.
pub open spec fn request_for(d: Decoder) -> Seq<char> {
    match d {
        Decoder::Rpm => "010C"@,
        Decoder::MapKpa => "010B"@,
        Decoder::TpsPct => "0111"@,
        Decoder::MafGs => "0110"@,
        Decoder::CoolantTemp => "0105"@,
        Decoder::IntakeTemp => "010F"@,
        Decoder::FuelPressureKpa => "010A"@,
        Decoder::EngineLoad => "0104"@,
        _ => "2101"@,
    }
}

/// Every entry of the table sends the request that fetches the quantity its
/// decoder reads, each quantity is polled once, and the mode 01 requests
/// are pairwise distinct (only the shared mode 21 block repeats).
pub proof fn law_table_requests_match_decoders()
    ensures
        forall|i: int| 0 <= i < 13 ==> (#[trigger] ej205_entry(i)).1 == request_for(ej205_entry(i).4),
        forall|i: int, j: int|
            0 <= i < j < 13 ==> (#[trigger] ej205_entry(i)).4 != (#[trigger] ej205_entry(j)).4,
        forall|i: int, j: int|
            0 <= i < j < 13 && (#[trigger] ej205_entry(i)).1 != "2101"@ ==> ej205_entry(i).1
                != (#[trigger] ej205_entry(j)).1,
        ej205_entry(5).0 == "iat"@ && ej205_entry(5).1 == "010F"@ && ej205_entry(5).4
            == Decoder::IntakeTemp,
{
    reveal_strlit("010C");
    reveal_strlit("010B");
    reveal_strlit("0111");
    reveal_strlit("0110");
    reveal_strlit("0105");
    reveal_strlit("010F");
    reveal_strlit("010A");
    reveal_strlit("0104");
    reveal_strlit("2101");
    assert forall|i: int, j: int|
        0 <= i < j < 13 && (#[trigger] ej205_entry(i)).1 != "2101"@ implies ej205_entry(i).1
            != (#[trigger] ej205_entry(j)).1 by {
        let a = ej205_entry(i).1;
        let b = ej205_entry(j).1;
        if j >= 8 {
            assert(a[0] != b[0] || a[1] != b[1] || a[2] != b[2] || a[3] != b[3]);
        } else {
            assert(a[2] != b[2] || a[3] != b[3]);
        }
    }
}

/// How often the quantity a decoder reads is polled: engine speed, manifold
/// pressure, boost and the fine knock correction every period; throttle,
/// air flow, knock learning and timing every 3rd; the temperatures and the
/// fuel pressure every 5th; load and IAM every 10th.
pub open spec fn priority_for(d: Decoder) -> Priority {
    match d {
        Decoder::Rpm | Decoder::MapKpa | Decoder::KnockFine | Decoder::BoostPsi => Priority::Critical,
        Decoder::TpsPct | Decoder::MafGs | Decoder::KnockLearn | Decoder::TimingAdvance => {
            Priority::High
        },
        Decoder::CoolantTemp | Decoder::IntakeTemp | Decoder::FuelPressureKpa => Priority::Normal,
        Decoder::EngineLoad | Decoder::Iam => Priority::Low,
    }
}

/// The unit of the quantity a decoder reads.
pub open spec fn unit_for(d: Decoder) -> Seq<char> {
    match d {
        Decoder::Rpm => "rpm"@,
        Decoder::MapKpa | Decoder::FuelPressureKpa => "kPa"@,
        Decoder::TpsPct | Decoder::EngineLoad => "%"@,
        Decoder::MafGs => "g/s"@,
        Decoder::CoolantTemp | Decoder::IntakeTemp => "°C"@,
        Decoder::KnockFine | Decoder::KnockLearn | Decoder::TimingAdvance => "°"@,
        Decoder::BoostPsi => "psi"@,
        Decoder::Iam => ""@,
    }
}

/// Every entry of the table is polled at the priority of the quantity it
/// reads and shows that quantity's unit.
pub proof fn law_table_priorities_and_units()
    ensures
        forall|i: int|
            0 <= i < 13 ==> (#[trigger] ej205_entry(i)).3 == priority_for(ej205_entry(i).4)
                && ej205_entry(i).2 == unit_for(ej205_entry(i).4),
{
}

/// The PIDs polled on the EJ205, in polling order. The mode 21 PIDs need the
/// `AT SH 7E0` header and may fail on clone adapters.
pub fn ej205_pids() -> (pids: Vec<PidDef>)
    ensures
        pids@.len() == 13,
        forall|i: int| 0 <= i < 13 ==> pid_is_entry(#[trigger] pids@[i], i),
{
    let pids = vec![
        PidDef { name: "rpm", cmd: "010C", unit: "rpm", priority: Priority::Critical, decode: Decoder::Rpm },
        PidDef { name: "map", cmd: "010B", unit: "kPa", priority: Priority::Critical, decode: Decoder::MapKpa },
        PidDef { name: "tps", cmd: "0111", unit: "%", priority: Priority::High, decode: Decoder::TpsPct },
        PidDef { name: "maf", cmd: "0110", unit: "g/s", priority: Priority::High, decode: Decoder::MafGs },
        PidDef { name: "coolant", cmd: "0105", unit: "°C", priority: Priority::Normal, decode: Decoder::CoolantTemp },
        PidDef { name: "iat", cmd: "010F", unit: "°C", priority: Priority::Normal, decode: Decoder::IntakeTemp },
        PidDef { name: "fuel_pres", cmd: "010A", unit: "kPa", priority: Priority::Normal, decode: Decoder::FuelPressureKpa },
        PidDef { name: "load", cmd: "0104", unit: "%", priority: Priority::Low, decode: Decoder::EngineLoad },
        PidDef { name: "knock_fine", cmd: "2101", unit: "°", priority: Priority::Critical, decode: Decoder::KnockFine },
        PidDef { name: "knock_learn", cmd: "2101", unit: "°", priority: Priority::High, decode: Decoder::KnockLearn },
        PidDef { name: "timing", cmd: "2101", unit: "°", priority: Priority::High, decode: Decoder::TimingAdvance },
        PidDef { name: "boost_psi", cmd: "2101", unit: "psi", priority: Priority::Critical, decode: Decoder::BoostPsi },
        PidDef { name: "iam", cmd: "2101", unit: "", priority: Priority::Low, decode: Decoder::Iam },
    ];
    pids
}

// ---------------------------------------------------------------------------
// Wall clock
// ---------------------------------------------------------------------------

#[verifier::external_type_specification]
#[verifier::external_body]
pub struct ExSystemTime(SystemTime);

/// Calls `SystemTime::now`. The clock's reading is not stated.
#[verifier::external_body]
fn system_time_now() -> SystemTime {
    SystemTime::now()
}

/// Calls `SystemTime::duration_since(UNIX_EPOCH)`, with the error (a clock
/// set before 1970) turned into `None`. The duration is not stated.
#[verifier::external_body]
fn since_unix_epoch(t: &SystemTime) -> Option<Duration> {
    t.duration_since(std::time::UNIX_EPOCH).ok()
}

/// Calls `Duration::as_millis`. The value is not stated (`Duration` is
/// opaque here).
#[verifier::external_body]
fn duration_as_millis(d: &Duration) -> u128 {
    d.as_millis()
}

/// The timestamp of a reading, from the clock's milliseconds since the Unix
/// epoch (`None` when the clock reads earlier): 0 before the epoch,
/// otherwise the milliseconds truncated to 64 bits.
pub fn epoch_millis(since_epoch_ms: Option<u128>) -> (r: u64)
    ensures
        r == match since_epoch_ms {
            Some(m) => m as u64,
            None => 0u64,
        },
{
    match since_epoch_ms {
        Some(m) => m as u64,
        None => 0,
    }
}

/// Milliseconds since the Unix epoch (0 when the clock reads earlier),
/// truncated to 64 bits: [`epoch_millis`] of the clock's reading.
pub fn now_ms() -> u64 {
    let since_epoch_ms = match since_unix_epoch(&system_time_now()) {
        Some(d) => Some(duration_as_millis(&d)),
        None => None,
    };
    epoch_millis(since_epoch_ms)
}

/// A reading of `pid` with the decoded `value`, stamped with [`now_ms`].
pub fn make_reading(pid: &PidDef, value: Measure) -> (r: Reading)
    ensures
        r.pid == pid.name,
        r.unit == pid.unit,
        r.value == value,
{
    Reading { pid: pid.name, value, unit: pid.unit, ts_ms: now_ms() }
}

} // verus!
