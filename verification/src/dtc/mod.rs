//! Diagnostic trouble codes: decoding of the mode 03 answer, the mode 04
//! acknowledgement and the descriptions of the codes the EJ205 commonly sets.

use crate::obd::parser::{bytes_result, hex_digit_value, parse_response, parse_response_spec};
use crate::obd::{ObdError, ObdFault, ObdResult};
use crate::text::{
    chars_of, contains, contains_exec, digit_char, hex_digits, hex_upper_char, owned,
    push_hex_upper,
    str_eq, to_uppercase, unicode_upper, all_ascii, upper_seq,
};
use vstd::prelude::*;

verus! {

/// Mode 03 request: read the stored trouble codes.
pub const READ_DTC_CMD: &'static str = "03";

/// Mode 04 request: clear the trouble codes and the check-engine light.
pub const CLEAR_DTC_CMD: &'static str = "04";

/// A trouble code with its description.
#[derive(Debug)]
pub struct FaultCode {
    pub code: String,
    pub description: String,
}

/// System letter of a code, from the two high bits of its first byte:
/// powertrain, chassis, body, network.
pub open spec fn dtc_system(a: u8) -> char {
    let k = (a >> 6u8) & 3u8;
    if k == 0 {
        'P'
    } else if k == 1 {
        'C'
    } else if k == 2 {
        'B'
    } else {
        'U'
    }
}

/// `{:02X}`: the digits, left-padded with `0` to at least two characters.
pub open spec fn pad2(d: Seq<char>) -> Seq<char> {
    if d.len() < 2 {
        Seq::new((2 - d.len()) as nat, |i: int| '0') + d
    } else {
        d
    }
}

/// The low 12 bits of a code: low nibble of `a`, then `b`.
pub open spec fn dtc_number(a: u8, b: u8) -> nat {
    ((((a & 0x0Fu8) as u16) << 8u16) | (b as u16)) as nat
}

/// The text of the code in the byte pair `(a, b)`: system letter, digit
/// `(a >> 4) & 3`, then the 12-bit number in upper-case hex, two digits at
/// least.
pub open spec fn dtc_code(a: u8, b: u8) -> Seq<char> {
    seq![dtc_system(a), digit_char(((a >> 4u8) & 3u8) as nat)] + pad2(hex_digits(dtc_number(a, b)))
}

/// Codes of the byte pairs from index `i` on, up to the first `00 00` pair
/// or the end of the frame.
pub open spec fn dtc_codes_from(bytes: Seq<u8>, i: int) -> Seq<Seq<char>>
    decreases bytes.len() - i,
{
    if i < 0 || i + 1 >= bytes.len() {
        Seq::empty()
    } else if bytes[i] == 0 && bytes[i + 1] == 0 {
        Seq::empty()
    } else {
        seq![dtc_code(bytes[i], bytes[i + 1])] + dtc_codes_from(bytes, i + 2)
    }
}

/// The codes of a mode 03 frame: pairs after the two header bytes.
pub open spec fn dtc_codes(bytes: Seq<u8>) -> Seq<Seq<char>> {
    dtc_codes_from(bytes, 2)
}

/// Description of a code: the known EJ205 codes, else a generic text.
pub open spec fn description_spec(code: Seq<char>) -> Seq<char> {
    if code == "P0300"@ {
        "Misfire detectado — múltiples cilindros"@
    } else if code == "P0301"@ {
        "Misfire cilindro 1"@
    } else if code == "P0302"@ {
        "Misfire cilindro 2"@
    } else if code == "P0303"@ {
        "Misfire cilindro 3"@
    } else if code == "P0304"@ {
        "Misfire cilindro 4"@
    } else if code == "P0325"@ {
        "Sensor de knock — circuito banco 1"@
    } else if code == "P0326"@ {
        "Sensor de knock — rango/performance banco 1"@
    } else if code == "P0327"@ {
        "Sensor de knock — entrada baja banco 1"@
    } else if code == "P0328"@ {
        "Sensor de knock — entrada alta banco 1"@
    } else if code == "P0335"@ {
        "Sensor de posición cigüeñal — circuito A"@
    } else if code == "P0340"@ {
        "Sensor de posición árbol de levas — circuito A"@
    } else if code == "P0500"@ {
        "Sensor de velocidad vehicular"@
    } else if code == "P0600"@ {
        "Comunicación serial — link ECU"@
    } else {
        "Código genérico — consultar manual EJ205"@
    }
}

/// The decoded list `codes` is exactly the codes of the frame, each with its
/// description.
pub open spec fn faults_match(codes: Seq<FaultCode>, expected: Seq<Seq<char>>) -> bool {
    &&& codes.len() == expected.len()
    &&& forall|i: int|
        0 <= i < codes.len() ==> {
            &&& (#[trigger] codes[i]).code@ == expected[i]
            &&& codes[i].description@ == description_spec(expected[i])
        }
}

/// Description of a trouble code.
pub fn generic_description(code: &str) -> (d: String)
    ensures
        d@ == description_spec(code@),
{
    let text = if str_eq(code, "P0300") {
        "Misfire detectado — múltiples cilindros"
    } else if str_eq(code, "P0301") {
        "Misfire cilindro 1"
    } else if str_eq(code, "P0302") {
        "Misfire cilindro 2"
    } else if str_eq(code, "P0303") {
        "Misfire cilindro 3"
    } else if str_eq(code, "P0304") {
        "Misfire cilindro 4"
    } else if str_eq(code, "P0325") {
        "Sensor de knock — circuito banco 1"
    } else if str_eq(code, "P0326") {
        "Sensor de knock — rango/performance banco 1"
    } else if str_eq(code, "P0327") {
        "Sensor de knock — entrada baja banco 1"
    } else if str_eq(code, "P0328") {
        "Sensor de knock — entrada alta banco 1"
    } else if str_eq(code, "P0335") {
        "Sensor de posición cigüeñal — circuito A"
    } else if str_eq(code, "P0340") {
        "Sensor de posición árbol de levas — circuito A"
    } else if str_eq(code, "P0500") {
        "Sensor de velocidad vehicular"
    } else if str_eq(code, "P0600") {
        "Comunicación serial — link ECU"
    } else {
        "Código genérico — consultar manual EJ205"
    };
    owned(text)
}

/// The text of the code in the byte pair `(a, b)`.
pub fn format_dtc(a: u8, b: u8) -> (s: String)
    ensures
        s@ == dtc_code(a, b),
{
    let mut s = String::new();
    let sys = (a >> 6) & 0x03;
    s.push(
        if sys == 0 {
            'P'
        } else if sys == 1 {
            'C'
        } else if sys == 2 {
            'B'
        } else {
            'U'
        },
    );
    let digit = (a >> 4) & 0x03;
    assert(digit < 4) by (bit_vector)
        requires
            digit == (a >> 4u8) & 3u8,
    ;
    s.push((digit + 48) as char);
    let n = (((a & 0x0F) as u16) << 8) | (b as u16);
    if n < 16 {
        s.push('0');
    }
    let ghost before = s@;
    push_hex_upper(&mut s, n as u64);
    proof {
        reveal_with_fuel(hex_digits, 2);
        if n < 16 {
            assert(hex_digits(n as nat).len() == 1);
        } else {
            assert(hex_digits(n as nat).len() >= 2);
        }
        assert(s@ =~= dtc_code(a, b));
    }
    s
}

/// The trouble codes of a mode 03 frame: two header bytes, then one byte
/// pair per code, up to a `00 00` pair or the end of the frame.
pub fn decode_dtc_bytes(bytes: &[u8]) -> (codes: Vec<FaultCode>)
    ensures
        faults_match(codes@, dtc_codes(bytes@)),
{
    let n = bytes.len();
    let ghost all = dtc_codes(bytes@);
    let mut codes: Vec<FaultCode> = Vec::new();
    let mut i: usize = 2;
    while i < n && i + 1 < n && !(bytes[i] == 0 && bytes[i + 1] == 0)
        invariant
            n == bytes@.len(),
            2 <= i,
            all == dtc_codes(bytes@),
            codes@.len() + dtc_codes_from(bytes@, i as int).len() == all.len(),
            faults_match(codes@, all.take(codes@.len() as int)),
            forall|k: int|
                0 <= k < dtc_codes_from(bytes@, i as int).len() ==> #[trigger] dtc_codes_from(
                    bytes@,
                    i as int,
                )[k] == all[codes@.len() + k],
        decreases n - i,
    {
        let a = bytes[i];
        let b = bytes[i + 1];
        let ghost rest = dtc_codes_from(bytes@, i + 2);
        let ghost here = dtc_codes_from(bytes@, i as int);
        assert(here == seq![dtc_code(a, b)] + rest);
        let code = format_dtc(a, b);
        let description = generic_description(code.as_str());
        assert(all[codes@.len() as int] == here[0]);
        codes.push(FaultCode { code, description });
        assert forall|k: int| 0 <= k < rest.len() implies #[trigger] rest[k] == all[codes@.len()
            + k] by {
            assert(here[k + 1] == rest[k]);
        }
        assert(faults_match(codes@, all.take(codes@.len() as int)));
        i += 2;
    }
    assert(dtc_codes_from(bytes@, i as int).len() == 0);
    assert(all.take(codes@.len() as int) =~= all);
    codes
}

/// Whether an upper-cased mode 04 answer acknowledges the clearing.
pub fn is_clear_ack_upper(upper: &str) -> (b: bool)
    ensures
        b == (contains(upper@, "44"@) || contains(upper@, "OK"@)),
{
    let up = chars_of(upper);
    contains_exec(&up, &chars_of("44")) || contains_exec(&up, &chars_of("OK"))
}

/// Whether a mode 04 answer acknowledges the clearing (`44` or `OK`, any
/// letter case).
pub fn is_clear_ack(raw: &str) -> (b: bool)
    ensures
        b == (contains(unicode_upper(raw@), "44"@) || contains(unicode_upper(raw@), "OK"@)),
        all_ascii(raw@) ==> b == (contains(upper_seq(raw@), "44"@) || contains(
            upper_seq(raw@),
            "OK"@,
        )),
{
    let upper = to_uppercase(raw);
    is_clear_ack_upper(upper.as_str())
}

/// The codes a mode 03 answer reports, or the error its parsing gives.
pub open spec fn dtc_response_spec(raw: Seq<char>) -> Result<Seq<Seq<char>>, ObdFault> {
    match parse_response_spec(raw) {
        Ok(b) => Ok(dtc_codes(b)),
        Err(e) => Err(e),
    }
}

/// The trouble codes in a mode 03 answer.
pub fn dtcs_from_response(raw: &str) -> (r: ObdResult<Vec<FaultCode>>)
    ensures
        match (r, dtc_response_spec(raw@)) {
            (Ok(codes), Ok(expected)) => faults_match(codes@, expected),
            (Err(e), Err(f)) => e@ == f,
            _ => false,
        },
{
    let bytes = match parse_response(raw) {
        Ok(b) => b,
        Err(e) => return Err(e),
    };
    Ok(decode_dtc_bytes(bytes.as_slice()))
}

/// The outcome of a mode 04 request from its answer.
pub fn clear_result(raw: &str) -> (r: ObdResult<()>)
    ensures
        r is Ok <==> (contains(unicode_upper(raw@), "44"@) || contains(
            unicode_upper(raw@),
            "OK"@,
        )),
        r matches Err(e) ==> e@ == ObdFault::DeviceError,
{
    if is_clear_ack(raw) {
        Ok(())
    } else {
        Err(ObdError::DeviceError)
    }
}

/// The number a hexadecimal text stands for, read back digit by digit
/// (`None` for an empty text or one with a character that is no hex digit).
pub open spec fn hex_text_value(s: Seq<char>) -> Option<nat>
    decreases s.len(),
{
    if s.len() == 0 {
        None
    } else if s.len() == 1 {
        match hex_digit_value(s[0]) {
            Some(d) => Some(d as nat),
            None => None,
        }
    } else {
        match (hex_text_value(s.drop_last()), hex_digit_value(s.last())) {
            (Some(h), Some(d)) => Some((h * 16 + d) as nat),
            _ => None,
        }
    }
}

/// The code text `c` reads as the byte pair `(a, b)` of a mode 03 frame:
/// the system letter from the two high bits of `a` (`P` below `0x40`, `C`
/// below `0x80`, `B` below `0xC0`, else `U`), the digit `(a / 16) % 4`,
/// then upper-case hexadecimal digits that read back as `(a % 16) * 256 +
/// b`.
pub open spec fn code_reads_as(c: Seq<char>, a: u8, b: u8) -> bool {
    &&& c.len() >= 4
    &&& c[0] == (if a < 0x40 {
        'P'
    } else if a < 0x80 {
        'C'
    } else if a < 0xC0 {
        'B'
    } else {
        'U'
    })
    &&& c[1] as u32 == 48 + (a / 16) % 4
    &&& forall|j: int| 2 <= j < c.len() ==> !('a' <= #[trigger] c[j] <= 'f')
    &&& hex_text_value(c.subrange(2, c.len() as int)) == Some(((a % 16) * 256 + b) as nat)
}

proof fn lemma_hex_digits_read_back(n: nat)
    ensures
        hex_digits(n).len() >= 1,
        hex_text_value(hex_digits(n)) == Some(n),
        forall|j: int| 0 <= j < hex_digits(n).len() ==> !('a' <= #[trigger] hex_digits(n)[j] <= 'f'),
    decreases n,
{
    if n >= 16 {
        lemma_hex_digits_read_back(n / 16);
        let h = hex_digits(n);
        let p = hex_digits(n / 16);
        assert(h == p.push(hex_upper_char(n % 16)));
        assert(h.drop_last() =~= p);
        assert(hex_digit_value(hex_upper_char(n % 16)) == Some((n % 16) as u8));
        assert forall|j: int| 0 <= j < h.len() implies !('a' <= #[trigger] h[j] <= 'f') by {
            if j < p.len() {
                assert(h[j] == p[j]);
            }
        }
    } else {
        assert(hex_digit_value(hex_upper_char(n)) == Some(n as u8));
    }
}

proof fn lemma_dtc_code_reads(a: u8, b: u8)
    ensures
        code_reads_as(dtc_code(a, b), a, b),
{
    let c = dtc_code(a, b);
    let n = dtc_number(a, b);
    let w: u16 = (((a & 0x0Fu8) as u16) << 8u16) | (b as u16);
    assert(w == (a % 16) * 256 + b) by (bit_vector)
        requires
            w == (((a & 0x0Fu8) as u16) << 8u16) | (b as u16),
    ;
    let k: u8 = (a >> 6u8) & 3u8;
    assert((k == 0 <==> a < 0x40) && (k == 1 <==> 0x40 <= a < 0x80) && (k == 2 <==> 0x80 <= a
        < 0xC0)) by (bit_vector)
        requires
            k == (a >> 6u8) & 3u8,
    ;
    let d: u8 = (a >> 4u8) & 3u8;
    assert(d == (a / 16) % 4) by (bit_vector)
        requires
            d == (a >> 4u8) & 3u8,
    ;
    lemma_hex_digits_read_back(n);
    let h = hex_digits(n);
    let t = pad2(h);
    assert(c.subrange(2, c.len() as int) =~= t);
    if h.len() < 2 {
        assert(n < 16) by {
            reveal_with_fuel(hex_digits, 2);
            if n >= 16 {
                lemma_hex_digits_read_back(n / 16);
            }
        }
        assert(t =~= seq!['0', h[0]]);
        assert(t.drop_last() =~= seq!['0']);
        assert(hex_digit_value('0') == Some(0u8));
        assert(hex_text_value(seq!['0']) == Some(0nat));
        assert(t.last() == h[0]);
        assert(h.len() == 1);
        assert(hex_text_value(h) == match hex_digit_value(h[0]) {
            Some(v) => Some(v as nat),
            None => None,
        });
        assert(hex_digit_value(h[0]) == Some(n as u8));
    }
    assert(c.len() >= 4);
    assert(c[0] == dtc_system(a));
    assert(c[0] == (if a < 0x40 { 'P' } else if a < 0x80 { 'C' } else if a < 0xC0 { 'B' } else { 'U' }));
    assert(c[1] == digit_char(d as nat));
    assert(c[1] as u32 == 48 + (a / 16) % 4);
    assert(hex_text_value(t) == Some(n));
    assert(n == (a % 16) * 256 + b);
    assert forall|j: int| 2 <= j < c.len() implies !('a' <= #[trigger] c[j] <= 'f') by {
        assert(c[j] == t[j - 2]);
        if h.len() < 2 && j == 2 {
        } else if h.len() < 2 {
            assert(t[j - 2] == h[j - 3]);
        } else {
            assert(t[j - 2] == h[j - 2]);
        }
    }
}

/// The byte pair at `i + 2 k` is present, is not the `00 00` end mark, and
/// its code is `c`.
spec fn pair_code(bytes: Seq<u8>, i: int, k: int, c: Seq<char>) -> bool {
    &&& i + 2 * k + 1 < bytes.len()
    &&& !(bytes[i + 2 * k] == 0 && bytes[i + 2 * k + 1] == 0)
    &&& c == dtc_code(bytes[i + 2 * k], bytes[i + 2 * k + 1])
}

proof fn lemma_dtc_codes_from_pairs(bytes: Seq<u8>, i: int)
    requires
        i >= 0,
    ensures
        forall|k: int|
            0 <= k < dtc_codes_from(bytes, i).len() ==> pair_code(
                bytes,
                i,
                k,
                #[trigger] dtc_codes_from(bytes, i)[k],
            ),
        i + 2 * dtc_codes_from(bytes, i).len() + 1 < bytes.len() ==> bytes[i + 2
            * dtc_codes_from(bytes, i).len() as int] == 0 && bytes[i + 2 * dtc_codes_from(
            bytes,
            i,
        ).len() as int + 1] == 0,
    decreases bytes.len() - i,
{
    if i + 1 < bytes.len() && !(bytes[i] == 0 && bytes[i + 1] == 0) {
        lemma_dtc_codes_from_pairs(bytes, i + 2);
        let all = dtc_codes_from(bytes, i);
        let rest = dtc_codes_from(bytes, i + 2);
        assert(all == seq![dtc_code(bytes[i], bytes[i + 1])] + rest);
        assert forall|k: int| 0 <= k < all.len() implies pair_code(bytes, i, k, #[trigger] all[k])
            by {
            if k > 0 {
                assert(all[k] == rest[k - 1]);
                assert(pair_code(bytes, i + 2, k - 1, rest[k - 1]));
                assert(i + 2 + 2 * (k - 1) == i + 2 * k);
            }
        }
        assert(i + 2 * all.len() == i + 2 + 2 * rest.len());
    }
}

/// Pair `k` of a mode 03 frame (after the two header bytes) is present, is
/// not the `00 00` end mark, and the code text `c` reads as it.
pub open spec fn code_of_pair(bytes: Seq<u8>, k: int, c: Seq<char>) -> bool {
    &&& 2 * k + 3 < bytes.len()
    &&& !(bytes[2 + 2 * k] == 0 && bytes[3 + 2 * k] == 0)
    &&& code_reads_as(c, bytes[2 + 2 * k], bytes[3 + 2 * k])
}

/// What the decoded codes of a mode 03 frame are: one code per byte pair
/// after the two header bytes, in order, each reading back as its pair, up to
/// the first `00 00` pair or the end of the frame. Every pair before that
/// one gives a code, so a pair `00 xx` with `xx != 00` gives the code
/// `P00xx`.
pub proof fn law_dtc_codes_read_back(bytes: Seq<u8>)
    ensures
        forall|k: int|
            0 <= k < dtc_codes(bytes).len() ==> code_of_pair(
                bytes,
                k,
                #[trigger] dtc_codes(bytes)[k],
            ),
        2 * dtc_codes(bytes).len() + 3 < bytes.len() ==> bytes[2 + 2 * dtc_codes(bytes).len() as int]
            == 0 && bytes[3 + 2 * dtc_codes(bytes).len() as int] == 0,
{
    lemma_dtc_codes_from_pairs(bytes, 2);
    let codes = dtc_codes(bytes);
    assert forall|k: int| 0 <= k < codes.len() implies code_of_pair(bytes, k, #[trigger] codes[k])
        by {
        assert(pair_code(bytes, 2, k, codes[k]));
        lemma_dtc_code_reads(bytes[2 + 2 * k], bytes[3 + 2 * k]);
    }
}

/// Every decoded code has the J2012 shape: a system letter `P`, `C`, `B` or
/// `U`, a digit `0`-`3`, then two or three upper-case hex digits; and a frame
/// of `n` bytes holds at most `(n - 2) / 2` codes.
pub proof fn law_dtc_code_shape(bytes: Seq<u8>, i: int)
    requires
        i >= 2,
    ensures
        dtc_codes_from(bytes, i).len() <= if i < bytes.len() {
            (bytes.len() - i) / 2
        } else {
            0
        },
        forall|k: int|
            0 <= k < dtc_codes_from(bytes, i).len() ==> {
                let c = #[trigger] dtc_codes_from(bytes, i)[k];
                &&& 4 <= c.len() <= 5
                &&& c[0] == 'P' || c[0] == 'C' || c[0] == 'B' || c[0] == 'U'
                &&& '0' <= c[1] <= '3'
            },
    decreases bytes.len() - i,
{
    if i + 1 < bytes.len() && !(bytes[i] == 0 && bytes[i + 1] == 0) {
        law_dtc_code_shape(bytes, i + 2);
        let a = bytes[i];
        let b = bytes[i + 1];
        let n = dtc_number(a, b);
        let w: u16 = (((a & 0x0Fu8) as u16) << 8u16) | (b as u16);
        assert(w < 4096) by (bit_vector)
            requires
                w == (((a & 0x0Fu8) as u16) << 8u16) | (b as u16),
        ;
        let d8: u8 = (a >> 4u8) & 3u8;
        assert(d8 < 4) by (bit_vector)
            requires
                d8 == (a >> 4u8) & 3u8,
        ;
        reveal_with_fuel(hex_digits, 4);
        assert(hex_digits(n).len() <= 3) by {
            if n >= 16 {
                assert(n / 16 < 256);
                if n / 16 >= 16 {
                    assert(n / 16 / 16 < 16);
                }
            }
        }
        let rest = dtc_codes_from(bytes, i + 2);
        let all = dtc_codes_from(bytes, i);
        assert(all == seq![dtc_code(a, b)] + rest);
        assert forall|k: int| 0 <= k < all.len() implies {
            let c = #[trigger] all[k];
            &&& 4 <= c.len() <= 5
            &&& c[0] == 'P' || c[0] == 'C' || c[0] == 'B' || c[0] == 'U'
            &&& '0' <= c[1] <= '3'
        } by {
            if k > 0 {
                assert(all[k] == rest[k - 1]);
            }
        }
    }
}

} // verus!
