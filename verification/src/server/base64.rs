//! Standard Base64 encoding (RFC 4648, section 4, with `=` padding).

use vstd::prelude::*;

verus! {

/// The character of the standard Base64 alphabet for the value `v < 64`.
pub open spec fn b64_symbol(v: u32) -> char {
    if v < 26 {
        ((v + 65) as u32) as char
    } else if v < 52 {
        ((v - 26 + 97) as u32) as char
    } else if v < 62 {
        ((v - 52 + 48) as u32) as char
    } else if v == 62 {
        '+'
    } else {
        '/'
    }
}

/// Byte `i` of `s`, or 0 past the end (the zero fill of a short last group).
pub open spec fn byte_or_zero(s: Seq<u8>, i: int) -> u32 {
    if 0 <= i < s.len() {
        s[i] as u32
    } else {
        0
    }
}

/// The 24-bit value of the 3-byte group `g` of `s`.
pub open spec fn group_bits(s: Seq<u8>, g: int) -> u32 {
    (byte_or_zero(s, 3 * g) << 16u32) | (byte_or_zero(s, 3 * g + 1) << 8u32) | byte_or_zero(
        s,
        3 * g + 2,
    )
}

/// The 6-bit value `j` (`0..4`, most significant first) of group `g`.
pub open spec fn group_sextet(s: Seq<u8>, g: int, j: int) -> u32 {
    let n = group_bits(s, g);
    if j == 0 {
        (n >> 18u32) & 0x3F
    } else if j == 1 {
        (n >> 12u32) & 0x3F
    } else if j == 2 {
        (n >> 6u32) & 0x3F
    } else {
        n & 0x3F
    }
}

/// Output character `j` of group `g`: a symbol, or `=` where the group has
/// fewer than `j + 1` input bytes (only possible for `j >= 2`).
pub open spec fn b64_out_char(s: Seq<u8>, g: int, j: int) -> char {
    if j >= 2 && 3 * g + j - 1 >= s.len() {
        '='
    } else {
        b64_symbol(group_sextet(s, g, j))
    }
}

/// Number of output characters: 4 per started group of 3 bytes.
pub open spec fn b64_len(n: nat) -> nat {
    4 * ((n + 2) / 3)
}

/// The Base64 encoding of `s`.
pub open spec fn base64_spec(s: Seq<u8>) -> Seq<char> {
    Seq::new(b64_len(s.len()), |k: int| b64_out_char(s, k / 4, k % 4))
}

proof fn lemma_low_six_bits(x: u32)
    ensures
        x & 0x3F < 64,
{
    assert(x & 0x3F < 64) by (bit_vector);
}

fn b64_symbol_exec(v: u32) -> (c: char)
    requires
        v < 64,
    ensures
        c == b64_symbol(v),
{
    if v < 26 {
        ((v + 65) as u8) as char
    } else if v < 52 {
        ((v - 26 + 97) as u8) as char
    } else if v < 62 {
        ((v - 52 + 48) as u8) as char
    } else if v == 62 {
        '+'
    } else {
        '/'
    }
}

/// Base64 (RFC 4648) encoding of `input`.
pub fn base64_encode(input: &[u8]) -> (out: String)
    requires
        input@.len() + 3 <= usize::MAX,
    ensures
        out@ == base64_spec(input@),
{
    let n = input.len();
    let groups = (n + 2) / 3;
    let mut out = String::new();
    let mut g: usize = 0;
    while g < groups
        invariant
            n == input@.len(),
            n + 3 <= usize::MAX,
            groups == (n + 2) / 3,
            g <= groups,
            out@ == base64_spec(input@).take(4 * g),
        decreases groups - g,
    {
        let i = 3 * g;
        let b0 = input[i] as u32;
        let b1 = if i + 1 < n {
            input[i + 1] as u32
        } else {
            0
        };
        let b2 = if i + 2 < n {
            input[i + 2] as u32
        } else {
            0
        };
        let bits = (b0 << 16) | (b1 << 8) | b2;
        assert(bits == group_bits(input@, g as int));
        proof {
            lemma_low_six_bits(bits >> 18u32);
            lemma_low_six_bits(bits >> 12u32);
            lemma_low_six_bits(bits >> 6u32);
            lemma_low_six_bits(bits);
        }
        let c0 = b64_symbol_exec((bits >> 18) & 0x3F);
        let c1 = b64_symbol_exec((bits >> 12) & 0x3F);
        let c2 = if i + 1 < n {
            b64_symbol_exec((bits >> 6) & 0x3F)
        } else {
            '='
        };
        let c3 = if i + 2 < n {
            b64_symbol_exec(bits & 0x3F)
        } else {
            '='
        };
        out.push(c0);
        out.push(c1);
        out.push(c2);
        out.push(c3);
        proof {
            let spec = base64_spec(input@);
            assert(spec[4 * g] == c0);
            assert(spec[4 * g + 1] == c1);
            assert(spec[4 * g + 2] == c2);
            assert(spec[4 * g + 3] == c3);
            assert(out@ =~= spec.take(4 * (g + 1)));
        }
        g += 1;
    }
    assert(base64_spec(input@).take(4 * groups) =~= base64_spec(input@));
    out
}

/// Every output character is a symbol of the alphabet or `=`, and `=` only
/// occurs in the last group.
pub proof fn law_base64_shape(s: Seq<u8>)
    ensures
        base64_spec(s).len() == 4 * ((s.len() + 2) / 3),
        forall|k: int|
            0 <= k < base64_spec(s).len() - 4 ==> base64_spec(s)[k] != '=',
{
    assert forall|k: int| 0 <= k < base64_spec(s).len() - 4 implies base64_spec(s)[k] != '=' by {
        let g = k / 4;
        assert(3 * g + 3 <= s.len());
    }
}

/// Value of a Base64 symbol (`=` and other characters count as 0).
pub open spec fn b64_value(c: char) -> u32 {
    if 'A' <= c <= 'Z' {
        ((c as u32) - 65) as u32
    } else if 'a' <= c <= 'z' {
        ((c as u32) - 71) as u32
    } else if '0' <= c <= '9' {
        ((c as u32) + 4) as u32
    } else if c == '+' {
        62
    } else if c == '/' {
        63
    } else {
        0
    }
}

/// The 24-bit value of the 4-character group `g` of `t`.
pub open spec fn quad_bits(t: Seq<char>, g: int) -> u32 {
    (b64_value(t[4 * g]) << 18u32) | (b64_value(t[4 * g + 1]) << 12u32) | (b64_value(t[4 * g + 2])
        << 6u32) | b64_value(t[4 * g + 3])
}

/// Byte `j` (`0..3`, most significant first) of a 24-bit group value.
pub open spec fn quad_byte(n: u32, j: int) -> u8 {
    if j == 0 {
        (n >> 16u32) as u8
    } else if j == 1 {
        (n >> 8u32) as u8
    } else {
        n as u8
    }
}

/// Number of `=` characters ending `t` (at most two).
pub open spec fn pad_count(t: Seq<char>) -> int {
    if t.len() >= 2 && t[t.len() - 1] == '=' && t[t.len() - 2] == '=' {
        2
    } else if t.len() >= 1 && t[t.len() - 1] == '=' {
        1
    } else {
        0
    }
}

/// Base64 decoding of a padded text (RFC 4648, section 4).
pub open spec fn base64_decode(t: Seq<char>) -> Seq<u8> {
    Seq::new((3 * (t.len() / 4) - pad_count(t)) as nat, |k: int| quad_byte(quad_bits(t, k / 3), k % 3))
}

proof fn lemma_symbol_value(v: u32)
    requires
        v < 64,
    ensures
        b64_value(b64_symbol(v)) == v,
        b64_symbol(v) != '=',
{
}

proof fn lemma_group_bytes(b0: u32, b1: u32, b2: u32)
    requires
        b0 < 256,
        b1 < 256,
        b2 < 256,
    ensures
        ({
            let n = (b0 << 16u32) | (b1 << 8u32) | b2;
            &&& ((((n >> 18u32) & 0x3F) << 18u32) | (((n >> 12u32) & 0x3F) << 12u32) | (((n
                >> 6u32) & 0x3F) << 6u32) | (n & 0x3F)) == n
            &&& quad_byte(n, 0) == b0
            &&& quad_byte(n, 1) == b1
            &&& quad_byte(n, 2) == b2
            &&& (b1 == 0 && b2 == 0 ==> (n >> 6u32) & 0x3F == 0)
            &&& (b2 == 0 ==> n & 0x3F == 0)
            &&& (n >> 18u32) & 0x3F < 64
            &&& (n >> 12u32) & 0x3F < 64
            &&& (n >> 6u32) & 0x3F < 64
            &&& n & 0x3F < 64
        }),
{
    let n = (b0 << 16u32) | (b1 << 8u32) | b2;
    assert(((((n >> 18u32) & 0x3F) << 18u32) | (((n >> 12u32) & 0x3F) << 12u32) | (((n >> 6u32)
        & 0x3F) << 6u32) | (n & 0x3F)) == n) by (bit_vector)
        requires
            b0 < 256,
            b1 < 256,
            b2 < 256,
            n == (b0 << 16u32) | (b1 << 8u32) | b2,
    ;
    assert((n >> 16u32) as u8 == b0 && (n >> 8u32) as u8 == b1 && n as u8 == b2) by (bit_vector)
        requires
            b0 < 256,
            b1 < 256,
            b2 < 256,
            n == (b0 << 16u32) | (b1 << 8u32) | b2,
    ;
    assert((b1 == 0 && b2 == 0 ==> (n >> 6u32) & 0x3F == 0) && (b2 == 0 ==> n & 0x3F == 0))
        by (bit_vector)
        requires
            n == (b0 << 16u32) | (b1 << 8u32) | b2,
    ;
    assert((n >> 18u32) & 0x3F < 64 && (n >> 12u32) & 0x3F < 64 && (n >> 6u32) & 0x3F < 64 && n
        & 0x3F < 64) by (bit_vector);
}

/// Base64 is lossless: decoding the encoding of any byte sequence gives the
/// bytes back.
pub proof fn law_base64_roundtrip(s: Seq<u8>)
    ensures
        base64_decode(base64_spec(s)) == s,
{
    let t = base64_spec(s);
    let n = s.len() as int;
    let groups = (n + 2) / 3;
    assert(t.len() == 4 * groups);
    // padding
    if n % 3 == 1 {
        assert(t[4 * groups - 1] == '=');
        assert(t[4 * groups - 2] == '=');
        assert(pad_count(t) == 2);
    } else if n % 3 == 2 {
        assert(t[4 * groups - 1] == '=');
        let g = groups - 1;
        let b0 = byte_or_zero(s, 3 * g);
        let b1 = byte_or_zero(s, 3 * g + 1);
        let b2 = byte_or_zero(s, 3 * g + 2);
        lemma_group_bytes(b0, b1, b2);
        lemma_symbol_value(group_sextet(s, g, 2));
        assert(t[4 * groups - 2] != '=');
        assert(pad_count(t) == 1);
    } else if n > 0 {
        let g = groups - 1;
        let b0 = byte_or_zero(s, 3 * g);
        let b1 = byte_or_zero(s, 3 * g + 1);
        let b2 = byte_or_zero(s, 3 * g + 2);
        lemma_group_bytes(b0, b1, b2);
        lemma_symbol_value(group_sextet(s, g, 3));
        assert(t[4 * groups - 1] != '=');
        assert(pad_count(t) == 0);
    } else {
        assert(pad_count(t) == 0);
    }
    let d = base64_decode(t);
    assert(d.len() == n);
    assert forall|k: int| 0 <= k < n implies d[k] == s[k] by {
        let g = k / 3;
        let j = k % 3;
        let b0 = byte_or_zero(s, 3 * g);
        let b1 = byte_or_zero(s, 3 * g + 1);
        let b2 = byte_or_zero(s, 3 * g + 2);
        lemma_group_bytes(b0, b1, b2);
        assert(group_bits(s, g) == (b0 << 16u32) | (b1 << 8u32) | b2);
        lemma_symbol_value(group_sextet(s, g, 0));
        lemma_symbol_value(group_sextet(s, g, 1));
        lemma_symbol_value(group_sextet(s, g, 2));
        lemma_symbol_value(group_sextet(s, g, 3));
        assert(g < groups);
        assert(t[4 * g] == b64_out_char(s, g, 0));
        assert(t[4 * g + 1] == b64_out_char(s, g, 1));
        assert(t[4 * g + 2] == b64_out_char(s, g, 2));
        assert(t[4 * g + 3] == b64_out_char(s, g, 3));
        assert(b64_value(t[4 * g + 2]) == group_sextet(s, g, 2));
        assert(b64_value(t[4 * g + 3]) == group_sextet(s, g, 3));
        assert(quad_bits(t, g) == group_bits(s, g));
        assert(3 * g + j == k);
    }
    assert(d =~= s);
}

} // verus!
