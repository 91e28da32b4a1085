//! SHA-1 (FIPS 180-4), used only for the WebSocket opening handshake.
//!
//! The specification follows the standard: the message is padded, split
//! into 64-byte blocks, each block is expanded into an 80-word schedule and
//! folded into the five-word state by 80 rounds.

use vstd::prelude::*;
use vstd::wrapping::u32_specs::wrapping_add;

verus! {

/// The five-word SHA-1 state `(H0, H1, H2, H3, H4)`.
pub type Sha1State = (u32, u32, u32, u32, u32);

pub open spec fn sha1_initial_state() -> Sha1State {
    (0x67452301u32, 0xEFCDAB89u32, 0x98BADCFEu32, 0x10325476u32, 0xC3D2E1F0u32)
}

/// Circular left shift of a 32-bit word by `n` bits, `0 < n < 32`.
pub open spec fn rotl(x: u32, n: u32) -> u32 {
    (x << n) | (x >> ((32 - n) as u32))
}

/// Number of zero bytes between the `0x80` marker and the 8-byte length, so
/// that the padded length is a multiple of 64.
pub open spec fn pad_zero_count(len: nat) -> nat {
    ((119 - (len % 64) as int) % 64) as nat
}

/// Message length in bits, modulo 2^64.
pub open spec fn bit_length(len: nat) -> u64 {
    ((len * 8) % 0x1_0000_0000_0000_0000) as u64
}

/// Big-endian bytes of a 64-bit word.
pub open spec fn be_bytes_u64(x: u64) -> Seq<u8> {
    seq![
        (x >> 56u64) as u8,
        (x >> 48u64) as u8,
        (x >> 40u64) as u8,
        (x >> 32u64) as u8,
        (x >> 24u64) as u8,
        (x >> 16u64) as u8,
        (x >> 8u64) as u8,
        x as u8,
    ]
}

/// The padded message: `msg ++ 0x80 ++ 0x00* ++ bit length (big endian)`.
pub open spec fn sha1_pad(msg: Seq<u8>) -> Seq<u8> {
    msg + seq![0x80u8] + Seq::new(pad_zero_count(msg.len()), |i: int| 0u8) + be_bytes_u64(
        bit_length(msg.len()),
    )
}

/// Big-endian 32-bit word of four bytes.
pub open spec fn be_word(b0: u8, b1: u8, b2: u8, b3: u8) -> u32 {
    ((b0 as u32) << 24u32) | ((b1 as u32) << 16u32) | ((b2 as u32) << 8u32) | (b3 as u32)
}

/// Word `t` (`t < 16`) of the block starting at byte `base` of `m`.
pub open spec fn block_word(m: Seq<u8>, base: int, t: int) -> u32 {
    be_word(m[base + 4 * t], m[base + 4 * t + 1], m[base + 4 * t + 2], m[base + 4 * t + 3])
}

/// Message schedule `W_t` of the block starting at `base`.
pub open spec fn schedule(m: Seq<u8>, base: int, t: nat) -> u32
    decreases t,
{
    if t < 16 {
        block_word(m, base, t as int)
    } else {
        rotl(
            schedule(m, base, (t - 3) as nat) ^ schedule(m, base, (t - 8) as nat) ^ schedule(
                m,
                base,
                (t - 14) as nat,
            ) ^ schedule(m, base, (t - 16) as nat),
            1,
        )
    }
}

/// Round function `f_t` and constant `K_t`.
pub open spec fn round_fk(t: int, b: u32, c: u32, d: u32) -> (u32, u32) {
    if t <= 19 {
        ((b & c) | ((!b) & d), 0x5A827999u32)
    } else if t <= 39 {
        (b ^ c ^ d, 0x6ED9EBA1u32)
    } else if t <= 59 {
        ((b & c) | (b & d) | (c & d), 0x8F1BBCDCu32)
    } else {
        (b ^ c ^ d, 0xCA62C1D6u32)
    }
}

/// One SHA-1 round on the working variables `(a, b, c, d, e)`.
pub open spec fn sha1_round(v: Sha1State, t: int, wt: u32) -> Sha1State {
    let (a, b, c, d, e) = v;
    let (f, k) = round_fk(t, b, c, d);
    let temp = wrapping_add(wrapping_add(wrapping_add(wrapping_add(rotl(a, 5), f), e), k), wt);
    (temp, a, rotl(b, 30), c, d)
}

/// The working variables after the first `t` rounds of the block at `base`.
pub open spec fn sha1_rounds(m: Seq<u8>, base: int, v: Sha1State, t: nat) -> Sha1State
    decreases t,
{
    if t == 0 {
        v
    } else {
        sha1_round(
            sha1_rounds(m, base, v, (t - 1) as nat),
            t - 1,
            schedule(m, base, (t - 1) as nat),
        )
    }
}

/// The state after processing the block at `base`.
pub open spec fn sha1_compress(h: Sha1State, m: Seq<u8>, base: int) -> Sha1State {
    let (a, b, c, d, e) = sha1_rounds(m, base, h, 80);
    (
        wrapping_add(h.0, a),
        wrapping_add(h.1, b),
        wrapping_add(h.2, c),
        wrapping_add(h.3, d),
        wrapping_add(h.4, e),
    )
}

/// The state after processing the first `n` blocks of `m`.
pub open spec fn sha1_blocks(m: Seq<u8>, n: nat) -> Sha1State
    decreases n,
{
    if n == 0 {
        sha1_initial_state()
    } else {
        sha1_compress(sha1_blocks(m, (n - 1) as nat), m, 64 * (n - 1))
    }
}

pub open spec fn state_word(h: Sha1State, i: int) -> u32 {
    if i == 0 {
        h.0
    } else if i == 1 {
        h.1
    } else if i == 2 {
        h.2
    } else if i == 3 {
        h.3
    } else {
        h.4
    }
}

/// Byte `j` (`0..4`, most significant first) of a 32-bit word.
pub open spec fn word_byte(x: u32, j: int) -> u8 {
    if j == 0 {
        (x >> 24u32) as u8
    } else if j == 1 {
        (x >> 16u32) as u8
    } else if j == 2 {
        (x >> 8u32) as u8
    } else {
        x as u8
    }
}

/// The 20-byte digest: the state words, big endian.
pub open spec fn state_digest(h: Sha1State) -> Seq<u8> {
    Seq::new(20, |k: int| word_byte(state_word(h, k / 4), k % 4))
}

/// SHA-1 of `msg`.
pub open spec fn sha1_spec(msg: Seq<u8>) -> Seq<u8> {
    let p = sha1_pad(msg);
    state_digest(sha1_blocks(p, p.len() / 64))
}

/// The padded message is a whole number of 64-byte blocks, longer than `msg`.
pub proof fn lemma_pad_length(msg: Seq<u8>)
    ensures
        sha1_pad(msg).len() % 64 == 0,
        sha1_pad(msg).len() == msg.len() + 9 + pad_zero_count(msg.len()),
        msg.len() + 9 <= sha1_pad(msg).len() <= msg.len() + 72,
        sha1_pad(msg).subrange(0, msg.len() as int) == msg,
{
    let n = msg.len();
    let r = n % 64;
    assert(n == 64 * (n / 64) + r);
    let z = pad_zero_count(n);
    assert(z == (119 - r) % 64);
    assert((n + 9 + z) % 64 == 0) by {
        if r <= 55 {
            assert(z == 55 - r);
            assert(n + 9 + z == 64 * (n / 64) + 64);
        } else {
            assert(z == 119 - r);
            assert(n + 9 + z == 64 * (n / 64) + 128);
        }
    }
    assert(sha1_pad(msg).subrange(0, n as int) =~= msg);
}

fn rotl_exec(x: u32, n: u32) -> (r: u32)
    requires
        0 < n < 32,
    ensures
        r == rotl(x, n),
{
    (x << n) | (x >> (32 - n))
}

/// SHA-1 digest of `msg`.
pub fn sha1(msg: &[u8]) -> (out: [u8; 20])
    requires
        msg@.len() + 72 <= usize::MAX,
    ensures
        out@ == sha1_spec(msg@),
{
    proof {
        lemma_pad_length(msg@);
    }
    let ghost padded_spec = sha1_pad(msg@);
    let len = msg.len();
    let bit_len = (len as u64).wrapping_mul(8);
    assert(bit_len == bit_length(msg@.len())) by {
        assert(len as u64 as nat == len as nat);
    }
    let mut padded: Vec<u8> = vstd::slice::slice_to_vec(msg);
    padded.push(0x80);
    let zeros = (119 - len % 64) % 64;
    assert(zeros as nat == pad_zero_count(len as nat));
    let mut z: usize = 0;
    while z < zeros
        invariant
            z <= zeros,
            zeros as nat == pad_zero_count(msg@.len()),
            len == msg@.len(),
            msg@.len() + 72 <= usize::MAX,
            padded@ == msg@ + seq![0x80u8] + Seq::new(z as nat, |i: int| 0u8),
        decreases zeros - z,
    {
        padded.push(0);
        z += 1;
        assert(padded@ =~= msg@ + seq![0x80u8] + Seq::new(z as nat, |i: int| 0u8));
    }
    padded.push((bit_len >> 56) as u8);
    padded.push((bit_len >> 48) as u8);
    padded.push((bit_len >> 40) as u8);
    padded.push((bit_len >> 32) as u8);
    padded.push((bit_len >> 24) as u8);
    padded.push((bit_len >> 16) as u8);
    padded.push((bit_len >> 8) as u8);
    padded.push(bit_len as u8);
    assert(padded@ =~= padded_spec);

    let plen = padded.len();
    let nblocks = plen / 64;
    let mut h: [u32; 5] = [0x67452301, 0xEFCDAB89, 0x98BADCFE, 0x10325476, 0xC3D2E1F0];
    let mut blk: usize = 0;
    while blk < nblocks
        invariant
            padded@ == padded_spec,
            padded_spec.len() % 64 == 0,
            nblocks == padded_spec.len() / 64,
            plen == padded_spec.len(),
            blk <= nblocks,
            (h[0], h[1], h[2], h[3], h[4]) == sha1_blocks(padded_spec, blk as nat),
        decreases nblocks - blk,
    {
        let base = blk * 64;
        let mut w: [u32; 80] = [0u32; 80];
        let mut i: usize = 0;
        while i < 16
            invariant
                padded@ == padded_spec,
                base + 64 <= padded@.len(),
                base == blk * 64,
                i <= 16,
                forall|j: int| 0 <= j < i ==> #[trigger] w@[j] == schedule(padded_spec, base as int, j as nat),
            decreases 16 - i,
        {
            let p = base + i * 4;
            w[i] = ((padded[p] as u32) << 24) | ((padded[p + 1] as u32) << 16) | ((padded[p + 2] as u32) << 8)
                | (padded[p + 3] as u32);
            i += 1;
        }
        while i < 80
            invariant
                16 <= i <= 80,
                forall|j: int| 0 <= j < i ==> #[trigger] w@[j] == schedule(padded_spec, base as int, j as nat),
            decreases 80 - i,
        {
            assert(w@[i - 3] == schedule(padded_spec, base as int, (i - 3) as nat));
            assert(w@[i - 8] == schedule(padded_spec, base as int, (i - 8) as nat));
            assert(w@[i - 14] == schedule(padded_spec, base as int, (i - 14) as nat));
            assert(w@[i - 16] == schedule(padded_spec, base as int, (i - 16) as nat));
            w[i] = rotl_exec(w[i - 3] ^ w[i - 8] ^ w[i - 14] ^ w[i - 16], 1);
            i += 1;
        }

        let ghost h_in: Sha1State = (h[0], h[1], h[2], h[3], h[4]);
        let (mut a, mut b, mut c, mut d, mut e) = (h[0], h[1], h[2], h[3], h[4]);
        let mut t: usize = 0;
        while t < 80
            invariant
                t <= 80,
                forall|j: int| 0 <= j < 80 ==> #[trigger] w@[j] == schedule(padded_spec, base as int, j as nat),
                (a, b, c, d, e) == sha1_rounds(padded_spec, base as int, h_in, t as nat),
            decreases 80 - t,
        {
            let (f, k) = if t <= 19 {
                ((b & c) | ((!b) & d), 0x5A827999u32)
            } else if t <= 39 {
                (b ^ c ^ d, 0x6ED9EBA1u32)
            } else if t <= 59 {
                ((b & c) | (b & d) | (c & d), 0x8F1BBCDCu32)
            } else {
                (b ^ c ^ d, 0xCA62C1D6u32)
            };
            assert(w@[t as int] == schedule(padded_spec, base as int, t as nat));
            let temp = rotl_exec(a, 5).wrapping_add(f).wrapping_add(e).wrapping_add(k).wrapping_add(
                w[t],
            );
            e = d;
            d = c;
            c = rotl_exec(b, 30);
            b = a;
            a = temp;
            t += 1;
        }
        h[0] = h[0].wrapping_add(a);
        h[1] = h[1].wrapping_add(b);
        h[2] = h[2].wrapping_add(c);
        h[3] = h[3].wrapping_add(d);
        h[4] = h[4].wrapping_add(e);
        blk += 1;
    }

    let ghost hs = sha1_blocks(padded_spec, nblocks as nat);
    let mut out: [u8; 20] = [0u8; 20];
    let mut i: usize = 0;
    while i < 5
        invariant
            i <= 5,
            (h[0], h[1], h[2], h[3], h[4]) == hs,
            forall|k: int| 0 <= k < 4 * i ==> #[trigger] out@[k] == state_digest(hs)[k],
        decreases 5 - i,
    {
        let word = h[i];
        assert(word == state_word(hs, i as int));
        out[4 * i] = (word >> 24) as u8;
        out[4 * i + 1] = (word >> 16) as u8;
        out[4 * i + 2] = (word >> 8) as u8;
        out[4 * i + 3] = word as u8;
        i += 1;
    }
    assert(out@ =~= state_digest(hs));
    out
}

} // verus!
