//! Subaru mode 21 block (EJ205, USDM 2007): the values sit at fixed byte
//! offsets of the `2101` answer.

use crate::obd::parser::{check_len, decoded, Measure};
use crate::obd::ObdResult;
use vstd::prelude::*;

verus! {

/// The answer of [`knock_fine`] for the frame `b`.
pub open spec fn knock_fine_answer(r: ObdResult<Measure>, b: Seq<u8>) -> bool {
    decoded(r, b, 23, 352 * (b[22] - 128), 1000)
}

/// Fine knock learning in degrees: `(byte 22 - 128) * 0.352`.
pub fn knock_fine(bytes: &[u8]) -> (r: ObdResult<Measure>)
    ensures
        knock_fine_answer(r, bytes@),
{
    check_len(bytes, 23)?;
    Ok(Measure { num: 352 * (bytes[22] as i64 - 128), den: 1000 })
}

/// The answer of [`knock_learn`] for the frame `b`.
pub open spec fn knock_learn_answer(r: ObdResult<Measure>, b: Seq<u8>) -> bool {
    decoded(r, b, 27, 352 * (b[26] - 128), 1000)
}

/// Knock learning in degrees: `(byte 26 - 128) * 0.352`.
pub fn knock_learn(bytes: &[u8]) -> (r: ObdResult<Measure>)
    ensures
        knock_learn_answer(r, bytes@),
{
    check_len(bytes, 27)?;
    Ok(Measure { num: 352 * (bytes[26] as i64 - 128), den: 1000 })
}

/// The answer of [`timing_advance`] for the frame `b`.
pub open spec fn timing_advance_answer(r: ObdResult<Measure>, b: Seq<u8>) -> bool {
    decoded(r, b, 24, 352 * (b[23] - 128), 1000)
}

/// Ignition timing advance in degrees: `(byte 23 - 128) * 0.352`.
pub fn timing_advance(bytes: &[u8]) -> (r: ObdResult<Measure>)
    ensures
        timing_advance_answer(r, bytes@),
{
    check_len(bytes, 24)?;
    Ok(Measure { num: 352 * (bytes[23] as i64 - 128), den: 1000 })
}

/// The answer of [`iam`] for the frame `b`.
pub open spec fn iam_answer(r: ObdResult<Measure>, b: Seq<u8>) -> bool {
    decoded(r, b, 31, b[30] as int, 16)
}

/// Ignition advance multiplier: `byte 30 / 16`. 1.0 means no active knock;
/// below 0.875 the engine needs checking, below 0.75 the session should stop.
pub fn iam(bytes: &[u8]) -> (r: ObdResult<Measure>)
    ensures
        iam_answer(r, bytes@),
{
    check_len(bytes, 31)?;
    Ok(Measure { num: bytes[30] as i64, den: 16 })
}

/// The answer of [`boost_psi`] for the frame `b`.
pub open spec fn boost_psi_answer(r: ObdResult<Measure>, b: Seq<u8>) -> bool {
    decoded(r, b, 17, 681818 * b[16] - 146960000, 10000000)
}

/// Boost in psi (gauge): `byte 16 * 0.0681818 - 14.696`.
pub fn boost_psi(bytes: &[u8]) -> (r: ObdResult<Measure>)
    ensures
        boost_psi_answer(r, bytes@),
{
    check_len(bytes, 17)?;
    Ok(Measure { num: 681818 * (bytes[16] as i64) - 146960000, den: 10000000 })
}

} // verus!
