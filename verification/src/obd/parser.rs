//! Parsing of ELM327 text responses and decoding of PID values.
//!
//! The decoders return the exact value of a reading as a fraction
//! ([`Measure`]); turning it into a floating-point number is left to the
//! caller.

pub mod data_line;
pub mod mode01;
pub mod mode21;

use super::{ObdError, ObdFault, ObdResult};
use crate::text::{
    chars_of, contains, contains_exec, dec_digits, find_line, find_line_exec, has_char, push_all,
    push_decimal, split_whitespace_exec, string_of, to_uppercase, tokens, trim, trim_exec,
    unicode_upper, utf8_len, LineTest, all_ascii, upper_seq, lemma_find_line_ascii,
    lemma_trim_ascii,
};
use vstd::prelude::*;

verus! {

// ---------------------------------------------------------------------------
// Responses
// ---------------------------------------------------------------------------

/// The trimmed first line of an ELM327 answer that carries data: the first
/// line that is not blank and holds no `>` prompt, or the empty text.
pub open spec fn response_text(raw: Seq<char>) -> Seq<char> {
    match find_line(raw, 0, LineTest::DataWithoutPrompt) {
        Some(l) => trim(l),
        None => Seq::empty(),
    }
}

/// Value of a hexadecimal digit (either case).
pub open spec fn hex_digit_value(c: char) -> Option<u8> {
    if '0' <= c <= '9' {
        Some(((c as u32) - 48) as u8)
    } else if 'a' <= c <= 'f' {
        Some(((c as u32) - 87) as u8)
    } else if 'A' <= c <= 'F' {
        Some(((c as u32) - 55) as u8)
    } else {
        None
    }
}

/// `u8::from_str_radix(t, 16)` for a token of two UTF-8 bytes: two hex
/// digits, or `+` and one hex digit.
pub open spec fn hex_byte(t: Seq<char>) -> Option<u8> {
    if t.len() == 2 {
        if t[0] == '+' {
            hex_digit_value(t[1])
        } else {
            match (hex_digit_value(t[0]), hex_digit_value(t[1])) {
                (Some(h), Some(l)) => Some((16 * h + l) as u8),
                _ => None,
            }
        }
    } else {
        None
    }
}

/// The bytes of the tokens that are two UTF-8 bytes long (other tokens are
/// skipped), or `None` when one of them is not a hexadecimal byte.
pub open spec fn hex_bytes(ts: Seq<Seq<char>>) -> Option<Seq<u8>>
    decreases ts.len(),
{
    if ts.len() == 0 {
        Some(Seq::empty())
    } else {
        match hex_bytes(ts.drop_last()) {
            None => None,
            Some(prefix) => if utf8_len(ts.last()) != 2 {
                Some(prefix)
            } else {
                match hex_byte(ts.last()) {
                    Some(b) => Some(prefix.push(b)),
                    None => None,
                }
            },
        }
    }
}

/// Outcome of a response line `clean` whose upper-cased form is `upper`:
/// the adapter's error words are checked first, in this order, then the
/// line is read as hexadecimal bytes.
pub open spec fn classify_spec(clean: Seq<char>, upper: Seq<char>) -> Result<Seq<u8>, ObdFault> {
    if contains(upper, "NO DATA"@) {
        Err(ObdFault::NoData)
    } else if contains(upper, "STOPPED"@) {
        Err(ObdFault::Stopped)
    } else if contains(upper, "BUS INIT"@) {
        Err(ObdFault::BusInit)
    } else if contains(upper, "ERROR"@) {
        Err(ObdFault::DeviceError)
    } else if contains(upper, seq!['?']) {
        Err(ObdFault::DeviceError)
    } else {
        match hex_bytes(tokens(clean)) {
            Some(b) => Ok(b),
            None => Err(ObdFault::Corrupted(clean)),
        }
    }
}

/// What `parse_response` answers for the raw text `raw`.
pub open spec fn parse_response_spec(raw: Seq<char>) -> Result<Seq<u8>, ObdFault> {
    classify_spec(response_text(raw), unicode_upper(response_text(raw)))
}

pub open spec fn bytes_result(r: ObdResult<Vec<u8>>) -> Result<Seq<u8>, ObdFault> {
    match r {
        Ok(v) => Ok(v@),
        Err(e) => Err(e@),
    }
}

pub proof fn lemma_utf8_len_at_least_len(s: Seq<char>)
    ensures
        utf8_len(s) >= s.len(),
    decreases s.len(),
{
    if s.len() > 0 {
        lemma_utf8_len_at_least_len(s.drop_last());
    }
}

/// Whether the token is two bytes long in UTF-8.
fn is_two_utf8_bytes(t: &Vec<char>) -> (r: bool)
    ensures
        r == (utf8_len(t@) == 2),
{
    proof {
        reveal_with_fuel(utf8_len, 3);
        lemma_utf8_len_at_least_len(t@);
        if t@.len() == 2 {
            assert(t@.drop_last().drop_last() =~= Seq::<char>::empty());
            assert(t@.drop_last().last() == t@[0]);
        }
        if t@.len() == 1 {
            assert(t@.drop_last() =~= Seq::<char>::empty());
        }
    }
    if t.len() == 2 {
        (t[0] as u32) < 0x80 && (t[1] as u32) < 0x80
    } else if t.len() == 1 {
        let u = t[0] as u32;
        0x80 <= u && u < 0x800
    } else {
        false
    }
}

fn hex_digit_exec(c: char) -> (r: Option<u8>)
    ensures
        r == hex_digit_value(c),
{
    if '0' <= c && c <= '9' {
        Some(((c as u32) - 48) as u8)
    } else if 'a' <= c && c <= 'f' {
        Some(((c as u32) - 87) as u8)
    } else if 'A' <= c && c <= 'F' {
        Some(((c as u32) - 55) as u8)
    } else {
        None
    }
}

fn hex_byte_exec(t: &Vec<char>) -> (r: Option<u8>)
    ensures
        r == hex_byte(t@),
{
    if t.len() != 2 {
        return None;
    }
    if t[0] == '+' {
        return hex_digit_exec(t[1]);
    }
    match (hex_digit_exec(t[0]), hex_digit_exec(t[1])) {
        (Some(h), Some(l)) => Some(16 * h + l),
        _ => None,
    }
}

/// Reads a response line whose upper-cased form is `upper` (as
/// `str::to_uppercase` gives it): the adapter's error words, then the bytes.
pub fn classify_response(clean: &str, upper: &str) -> (r: ObdResult<Vec<u8>>)
    ensures
        bytes_result(r) == classify_spec(clean@, upper@),
{
    let up = chars_of(upper);
    if contains_exec(&up, &chars_of("NO DATA")) {
        return Err(ObdError::NoData);
    }
    if contains_exec(&up, &chars_of("STOPPED")) {
        return Err(ObdError::Stopped);
    }
    if contains_exec(&up, &chars_of("BUS INIT")) {
        return Err(ObdError::BusInit);
    }
    if contains_exec(&up, &chars_of("ERROR")) {
        return Err(ObdError::DeviceError);
    }
    if has_char(&up, '?') {
        return Err(ObdError::DeviceError);
    }
    let cv = chars_of(clean);
    let toks = split_whitespace_exec(&cv);
    let ghost ts = tokens(clean@);
    let mut out: Vec<u8> = Vec::new();
    let mut i: usize = 0;
    while i < toks.len()
        invariant
            cv@ == clean@,
            toks@.len() == ts.len(),
            ts == tokens(clean@),
            classify_spec(clean@, upper@) == match hex_bytes(ts) {
                Some(b) => Ok(b),
                None => Err(ObdFault::Corrupted(clean@)),
            },
            forall|j: int| 0 <= j < toks@.len() ==> #[trigger] toks@[j]@ == ts[j],
            i <= toks@.len(),
            hex_bytes(ts.take(i as int)) == Some(out@),
        decreases toks@.len() - i,
    {
        let tok = &toks[i];
        assert(ts.take(i + 1).drop_last() =~= ts.take(i as int));
        assert(ts.take(i + 1).last() == tok@);
        if is_two_utf8_bytes(tok) {
            match hex_byte_exec(tok) {
                Some(b) => {
                    out.push(b);
                },
                None => {
                    proof {
                        assert(hex_bytes(ts.take(i + 1)) is None);
                        lemma_hex_bytes_none_extends(ts, i as int);
                    }
                    return Err(ObdError::Corrupted(string_of(&cv)));
                },
            }
        }
        i += 1;
    }
    assert(ts.take(toks@.len() as int) =~= ts);
    Ok(out)
}

proof fn lemma_hex_bytes_none_extends(ts: Seq<Seq<char>>, i: int)
    requires
        0 <= i < ts.len(),
        hex_bytes(ts.take(i + 1)) is None,
    ensures
        hex_bytes(ts) is None,
    decreases ts.len() - i,
{
    if i + 1 < ts.len() {
        let t2 = ts.take(i + 2);
        assert(t2.drop_last() =~= ts.take(i + 1));
        if i + 2 == ts.len() {
            assert(t2 =~= ts);
        } else {
            lemma_hex_bytes_none_extends(ts, i + 1);
        }
    } else {
        assert(ts.take(i + 1) =~= ts);
    }
}

/// The trimmed first data line of a raw ELM327 answer.
pub fn response_line(raw: &str) -> (r: Vec<char>)
    ensures
        r@ == response_text(raw@),
{
    let v = chars_of(raw);
    match find_line_exec(&v, None) {
        Some(l) => trim_exec(&l),
        None => Vec::new(),
    }
}

/// Parses an ELM327 answer: the adapter's error words (in any letter case)
/// become errors, otherwise the data line is read as hexadecimal bytes.
pub fn parse_response(raw: &str) -> (r: ObdResult<Vec<u8>>)
    ensures
        bytes_result(r) == parse_response_spec(raw@),
        all_ascii(raw@) ==> bytes_result(r) == classify_spec(
            response_text(raw@),
            upper_seq(response_text(raw@)),
        ),
{
    let clean = string_of(&response_line(raw));
    proof {
        if all_ascii(raw@) {
            lemma_find_line_ascii(raw@, 0, LineTest::DataWithoutPrompt);
            if let Some(l) = find_line(raw@, 0, LineTest::DataWithoutPrompt) {
                lemma_trim_ascii(l);
            }
        }
    }
    let upper = to_uppercase(clean.as_str());
    classify_response(clean.as_str(), upper.as_str())
}

// ---------------------------------------------------------------------------
// Decoded values
// ---------------------------------------------------------------------------

/// The exact value `num / den` of a decoded reading.
#[derive(Debug, Clone, Copy, PartialEq, Eq)]
pub struct Measure {
    pub num: i64,
    pub den: u64,
}

/// The text of the error for a frame shorter than expected.
pub open spec fn short_frame_text(min: nat, got: nat) -> Seq<char> {
    "esperaba "@ + dec_digits(min) + " bytes, recibí "@ + dec_digits(got)
}

pub open spec fn len_result(r: ObdResult<()>, bytes: Seq<u8>, min: nat) -> bool {
    match r {
        Ok(()) => bytes.len() >= min,
        Err(e) => bytes.len() < min && e@ == ObdFault::Corrupted(
            short_frame_text(min, bytes.len()),
        ),
    }
}

/// Checks that a frame holds at least `min` bytes.
pub fn check_len(bytes: &[u8], min: usize) -> (r: ObdResult<()>)
    ensures
        len_result(r, bytes@, min as nat),
{
    if bytes.len() < min {
        let mut msg = String::new();
        push_all(&mut msg, "esperaba ");
        push_decimal(&mut msg, min as u64);
        push_all(&mut msg, " bytes, recibí ");
        push_decimal(&mut msg, bytes.len() as u64);
        Err(ObdError::Corrupted(msg))
    } else {
        Ok(())
    }
}

/// The decoder's answer `r` is `num / den` when the frame holds at least
/// `min` bytes, and the short-frame error otherwise.
pub open spec fn decoded(r: ObdResult<Measure>, bytes: Seq<u8>, min: nat, num: int, den: int) -> bool {
    match r {
        Ok(m) => bytes.len() >= min && m.num == num && m.den == den,
        Err(e) => bytes.len() < min && e@ == ObdFault::Corrupted(
            short_frame_text(min, bytes.len()),
        ),
    }
}

} // verus!
