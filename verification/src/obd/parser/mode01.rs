//! Standard SAE J1979 mode 01 PIDs. Byte 0 of a frame is the mode echo
//! (`0x41`), byte 1 the PID, the data bytes `A`, `B` follow.

use crate::obd::parser::{check_len, decoded, Measure};
use crate::obd::ObdResult;
use vstd::prelude::*;

verus! {

/// The answer of [`rpm`] for the frame `b`.
pub open spec fn rpm_answer(r: ObdResult<Measure>, b: Seq<u8>) -> bool {
    decoded(r, b, 4, 256 * b[2] + b[3], 4)
}

/// Engine speed in rpm: `(256 A + B) / 4`.
pub fn rpm(bytes: &[u8]) -> (r: ObdResult<Measure>)
    ensures
        rpm_answer(r, bytes@),
{
    check_len(bytes, 4)?;
    Ok(Measure { num: 256 * (bytes[2] as i64) + bytes[3] as i64, den: 4 })
}

/// The answer of [`coolant_temp`] for the frame `b`.
pub open spec fn coolant_temp_answer(r: ObdResult<Measure>, b: Seq<u8>) -> bool {
    decoded(r, b, 3, b[2] - 40, 1)
}

/// Coolant temperature in °C: `A - 40`.
pub fn coolant_temp(bytes: &[u8]) -> (r: ObdResult<Measure>)
    ensures
        coolant_temp_answer(r, bytes@),
{
    check_len(bytes, 3)?;
    Ok(Measure { num: bytes[2] as i64 - 40, den: 1 })
}

/// The answer of [`intake_temp`] for the frame `b`.
pub open spec fn intake_temp_answer(r: ObdResult<Measure>, b: Seq<u8>) -> bool {
    decoded(r, b, 3, b[2] - 40, 1)
}

/// Intake air temperature in °C: `A - 40`.
pub fn intake_temp(bytes: &[u8]) -> (r: ObdResult<Measure>)
    ensures
        intake_temp_answer(r, bytes@),
{
    check_len(bytes, 3)?;
    Ok(Measure { num: bytes[2] as i64 - 40, den: 1 })
}

/// The answer of [`map_kpa`] for the frame `b`.
pub open spec fn map_kpa_answer(r: ObdResult<Measure>, b: Seq<u8>) -> bool {
    decoded(r, b, 3, b[2] as int, 1)
}

/// Manifold absolute pressure in kPa: `A`.
pub fn map_kpa(bytes: &[u8]) -> (r: ObdResult<Measure>)
    ensures
        map_kpa_answer(r, bytes@),
{
    check_len(bytes, 3)?;
    Ok(Measure { num: bytes[2] as i64, den: 1 })
}

/// The answer of [`tps_pct`] for the frame `b`.
pub open spec fn tps_pct_answer(r: ObdResult<Measure>, b: Seq<u8>) -> bool {
    decoded(r, b, 3, 100 * b[2], 255)
}

/// Throttle position in %: `100 A / 255`.
pub fn tps_pct(bytes: &[u8]) -> (r: ObdResult<Measure>)
    ensures
        tps_pct_answer(r, bytes@),
{
    check_len(bytes, 3)?;
    Ok(Measure { num: 100 * (bytes[2] as i64), den: 255 })
}

/// The answer of [`maf_gs`] for the frame `b`.
pub open spec fn maf_gs_answer(r: ObdResult<Measure>, b: Seq<u8>) -> bool {
    decoded(r, b, 4, 256 * b[2] + b[3], 100)
}

/// Mass air flow in g/s: `(256 A + B) / 100`.
pub fn maf_gs(bytes: &[u8]) -> (r: ObdResult<Measure>)
    ensures
        maf_gs_answer(r, bytes@),
{
    check_len(bytes, 4)?;
    Ok(Measure { num: 256 * (bytes[2] as i64) + bytes[3] as i64, den: 100 })
}

/// The answer of [`fuel_pressure_kpa`] for the frame `b`.
pub open spec fn fuel_pressure_kpa_answer(r: ObdResult<Measure>, b: Seq<u8>) -> bool {
    decoded(r, b, 3, 3 * b[2], 1)
}

/// Fuel pressure in kPa: `3 A`.
pub fn fuel_pressure_kpa(bytes: &[u8]) -> (r: ObdResult<Measure>)
    ensures
        fuel_pressure_kpa_answer(r, bytes@),
{
    check_len(bytes, 3)?;
    Ok(Measure { num: 3 * (bytes[2] as i64), den: 1 })
}

/// The answer of [`engine_load`] for the frame `b`.
pub open spec fn engine_load_answer(r: ObdResult<Measure>, b: Seq<u8>) -> bool {
    decoded(r, b, 3, 100 * b[2], 255)
}

/// Calculated engine load in %: `100 A / 255`.
pub fn engine_load(bytes: &[u8]) -> (r: ObdResult<Measure>)
    ensures
        engine_load_answer(r, bytes@),
{
    check_len(bytes, 3)?;
    Ok(Measure { num: 100 * (bytes[2] as i64), den: 255 })
}

} // verus!
