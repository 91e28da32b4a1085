//! WebSocket (RFC 6455) pieces of the dashboard server: the origin check of
//! the upgrade request, the opening handshake and server text frames.

use crate::server::base64::{base64_encode, base64_spec};
use crate::server::sha1::{be_bytes_u64, sha1, sha1_spec};
use crate::text::{
    chars_of, find_line, find_line_exec, lemma_find_line_passes, line_passes, lower_seq, owned,
    push_all, starts_with, string_of, sub_vec, trim, trim_exec, vec_eq, LineTest,
};
use vstd::prelude::*;
use vstd::utf8::encode_utf8;

verus! {

// ---------------------------------------------------------------------------
// Request headers
// ---------------------------------------------------------------------------

/// The text after the header name of the first line whose lower-cased form
/// starts with `name`, trimmed; `None` if no line has that header.
pub open spec fn header_value(req: Seq<char>, name: Seq<char>) -> Option<Seq<char>> {
    match find_line(req, 0, LineTest::Header(name)) {
        Some(l) => Some(trim(l.skip(name.len() as int))),
        None => None,
    }
}

/// The origins allowed to open the WebSocket: a request without `Origin`
/// header (native client, local debugging tool), `null` (Android WebView on
/// a `file:` or `data:` page), and the page served from the loopback
/// address or from `localhost` on the default port.
pub open spec fn origin_allowed_spec(req: Seq<char>) -> bool {
    match header_value(req, "origin:"@) {
        None => true,
        Some(v) => v == "null"@ || v == "http://127.0.0.1"@ || v == "http://localhost"@,
    }
}

/// The value of the first header line named `name` (lower case, with its
/// colon), trimmed.
fn header_value_exec(req: &str, name: &str) -> (r: Option<Vec<char>>)
    ensures
        match r {
            Some(v) => header_value(req@, name@) == Some(v@),
            None => header_value(req@, name@) is None,
        },
{
    let v = chars_of(req);
    let nm = chars_of(name);
    match find_line_exec(&v, Some(&nm)) {
        None => None,
        Some(line) => {
            proof {
                lemma_find_line_passes(req@, 0, LineTest::Header(name@));
                assert(line_passes(LineTest::Header(name@), line@));
                assert(starts_with(lower_seq(line@), name@));
            }
            let rest = sub_vec(&line, nm.len(), line.len());
            assert(rest@ == line@.skip(name@.len() as int));
            Some(trim_exec(&rest))
        },
    }
}

/// Whether the WebSocket upgrade request `req` comes from an allowed origin.
pub fn ws_origin_allowed(req: &str) -> (b: bool)
    ensures
        b == origin_allowed_spec(req@),
{
    match header_value_exec(req, "origin:") {
        None => true,
        Some(value) => {
            vec_eq(&value, &chars_of("null")) || vec_eq(&value, &chars_of("http://127.0.0.1"))
                || vec_eq(&value, &chars_of("http://localhost"))
        },
    }
}

/// The `Sec-WebSocket-Key` header of an upgrade request (any letter case).
pub fn extract_ws_key(req: &str) -> (r: Option<String>)
    ensures
        match r {
            Some(k) => header_value(req@, "sec-websocket-key:"@) == Some(k@),
            None => header_value(req@, "sec-websocket-key:"@) is None,
        },
{
    match header_value_exec(req, "sec-websocket-key:") {
        Some(v) => Some(string_of(&v)),
        None => None,
    }
}

// ---------------------------------------------------------------------------
// Opening handshake
// ---------------------------------------------------------------------------

/// The GUID appended to the client key (RFC 6455, section 1.3).
pub open spec fn ws_guid() -> Seq<char> {
    "258EAFA5-E914-47DA-95CA-C5AB0DC85B11"@
}

/// `Sec-WebSocket-Accept` for a client key: Base64 of the SHA-1 of the
/// UTF-8 bytes of the key followed by the GUID.
pub open spec fn accept_key_spec(key: Seq<char>) -> Seq<char> {
    base64_spec(sha1_spec(encode_utf8(key + ws_guid())))
}

pub proof fn lemma_encode_utf8_concat(a: Seq<char>, b: Seq<char>)
    ensures
        encode_utf8(a + b) == encode_utf8(a) + encode_utf8(b),
    decreases a.len(),
{
    if a.len() == 0 {
        assert(a + b =~= b);
    } else {
        assert((a + b).drop_first() =~= a.drop_first() + b);
        assert((a + b)[0] == a[0]);
        lemma_encode_utf8_concat(a.drop_first(), b);
    }
}

/// The accept key of the opening handshake for the client key `key`.
pub fn ws_accept_key(key: &str) -> (r: String)
    requires
        encode_utf8(key@).len() + 108 <= usize::MAX,
    ensures
        r@ == accept_key_spec(key@),
{
    let mut input = owned(key);
    push_all(&mut input, "258EAFA5-E914-47DA-95CA-C5AB0DC85B11");
    proof {
        reveal_strlit("258EAFA5-E914-47DA-95CA-C5AB0DC85B11");
        lemma_encode_utf8_concat(key@, ws_guid());
        vstd::utf8::is_ascii_chars_encode_utf8(ws_guid());
        assert(encode_utf8(ws_guid()).len() == 36);
    }
    let bytes = input.as_str().as_bytes();
    let hash = sha1(bytes);
    base64_encode(hash.as_slice())
}

/// Answer to a WebSocket upgrade request.
pub enum WsHandshake {
    /// The origin is not allowed: `403 Forbidden`, connection to be closed.
    Rejected(String),
    /// `101 Switching Protocols` with the accept key; frames may follow.
    Accepted(String),
}

pub open spec fn forbidden_text() -> Seq<char> {
    "HTTP/1.1 403 Forbidden\r\nContent-Length: 0\r\n\r\n"@
}

pub open spec fn switching_text(accept: Seq<char>) -> Seq<char> {
    "HTTP/1.1 101 Switching Protocols\r\nUpgrade: websocket\r\nConnection: Upgrade\r\nSec-WebSocket-Accept: "@
        + accept + "\r\n\r\n"@
}

/// The client key of a request: its `Sec-WebSocket-Key` value, or empty.
pub open spec fn ws_key_spec(req: Seq<char>) -> Seq<char> {
    match header_value(req, "sec-websocket-key:"@) {
        Some(k) => k,
        None => Seq::empty(),
    }
}

/// A header value is no longer than the request.
pub proof fn lemma_header_value_len(req: Seq<char>, name: Seq<char>)
    ensures
        header_value(req, name) matches Some(v) ==> v.len() <= req.len(),
{
    lemma_find_line_passes(req, 0, LineTest::Header(name));
    if let Some(l) = find_line(req, 0, LineTest::Header(name)) {
        crate::text::lemma_trim_shape(l.skip(name.len() as int));
    }
}

/// UTF-8 takes at most four bytes per character.
pub proof fn lemma_encode_utf8_len_bound(s: Seq<char>)
    ensures
        encode_utf8(s).len() <= 4 * s.len(),
    decreases s.len(),
{
    if s.len() > 0 {
        lemma_encode_utf8_len_bound(s.drop_first());
        vstd::utf8::char_is_scalar(s[0]);
    }
}

/// The server's answer to the upgrade request `req`.
pub fn ws_handshake(req: &str) -> (r: WsHandshake)
    requires
        4 * req@.len() + 108 <= usize::MAX,
    ensures
        match r {
            WsHandshake::Rejected(t) => !origin_allowed_spec(req@) && t@ == forbidden_text(),
            WsHandshake::Accepted(t) => origin_allowed_spec(req@) && t@ == switching_text(
                accept_key_spec(ws_key_spec(req@)),
            ),
        },
{
    if !ws_origin_allowed(req) {
        return WsHandshake::Rejected(owned("HTTP/1.1 403 Forbidden\r\nContent-Length: 0\r\n\r\n"));
    }
    let key = match extract_ws_key(req) {
        Some(k) => k,
        None => String::new(),
    };
    proof {
        lemma_header_value_len(req@, "sec-websocket-key:"@);
        lemma_encode_utf8_len_bound(key@);
    }
    let accept = ws_accept_key(key.as_str());
    let mut t = owned(
        "HTTP/1.1 101 Switching Protocols\r\nUpgrade: websocket\r\nConnection: Upgrade\r\nSec-WebSocket-Accept: ",
    );
    push_all(&mut t, accept.as_str());
    push_all(&mut t, "\r\n\r\n");
    WsHandshake::Accepted(t)
}

// ---------------------------------------------------------------------------
// Frames
// ---------------------------------------------------------------------------

/// Header of a final, unmasked text frame whose payload is `len` bytes:
/// the length in 7 bits, or 126 and 16 bits, or 127 and 64 bits.
pub open spec fn frame_header(len: u64) -> Seq<u8> {
    if len < 126 {
        seq![0x81u8, len as u8]
    } else if len < 65536 {
        seq![0x81u8, 126u8, (len >> 8u64) as u8, (len & 0xFFu64) as u8]
    } else {
        seq![0x81u8, 127u8] + be_bytes_u64(len)
    }
}

/// The frame carrying `payload`.
pub open spec fn ws_frame(payload: Seq<u8>) -> Seq<u8> {
    frame_header(payload.len() as u64) + payload
}

/// A server text frame (FIN set, opcode 1, no mask) carrying `payload`.
pub fn ws_text_frame(payload: &[u8]) -> (frame: Vec<u8>)
    requires
        payload@.len() + 10 <= usize::MAX,
    ensures
        frame@ == ws_frame(payload@),
{
    let len = payload.len();
    let n = len as u64;
    let mut frame: Vec<u8> = Vec::new();
    frame.push(0x81);
    if n < 126 {
        frame.push(n as u8);
    } else if n < 65536 {
        frame.push(126);
        frame.push((n >> 8) as u8);
        frame.push((n & 0xFF) as u8);
    } else {
        frame.push(127);
        frame.push((n >> 56) as u8);
        frame.push((n >> 48) as u8);
        frame.push((n >> 40) as u8);
        frame.push((n >> 32) as u8);
        frame.push((n >> 24) as u8);
        frame.push((n >> 16) as u8);
        frame.push((n >> 8) as u8);
        frame.push(n as u8);
    }
    assert(frame@ =~= frame_header(n));
    let ghost head = frame@;
    let mut i: usize = 0;
    while i < len
        invariant
            len == payload@.len(),
            i <= len,
            frame@ == head + payload@.subrange(0, i as int),
        decreases len - i,
    {
        frame.push(payload[i]);
        i += 1;
        assert(frame@ =~= head + payload@.subrange(0, i as int));
    }
    assert(payload@.subrange(0, len as int) =~= payload@);
    frame
}

/// Big-endian value of eight bytes.
pub open spec fn be_value_u64(b: Seq<u8>) -> u64 {
    ((b[0] as u64) << 56u64) | ((b[1] as u64) << 48u64) | ((b[2] as u64) << 40u64) | ((
    b[3] as u64) << 32u64) | ((b[4] as u64) << 24u64) | ((b[5] as u64) << 16u64) | ((b[6] as u64)
        << 8u64) | (b[7] as u64)
}

/// What a receiver reads from the first bytes of an unmasked frame: the
/// header size and the payload length (RFC 6455, section 5.2).
pub open spec fn frame_length_field(f: Seq<u8>) -> Option<(int, int)> {
    if f.len() < 2 {
        None
    } else if f[1] < 126 {
        Some((2, f[1] as int))
    } else if f[1] == 126 {
        if f.len() < 4 {
            None
        } else {
            Some((4, 256 * f[2] + f[3]))
        }
    } else if f[1] == 127 {
        if f.len() < 10 {
            None
        } else {
            Some((10, be_value_u64(f.subrange(2, 10)) as int))
        }
    } else {
        None
    }
}

/// A frame is read back as it was written: a final text frame whose length
/// field, in the shortest of the three encodings, gives the payload length,
/// and whose payload follows the header.
pub proof fn law_frame_roundtrip(payload: Seq<u8>)
    requires
        payload.len() < 0x8000_0000_0000_0000,
    ensures
        ws_frame(payload)[0] == 0x81,
        frame_length_field(ws_frame(payload)) matches Some((h, len)) && len == payload.len()
            && ws_frame(payload).skip(h) == payload && (h == 2 <==> payload.len() < 126) && (h
            == 4 <==> 126 <= payload.len() < 65536),
{
    let x = payload.len() as u64;
    let f = ws_frame(payload);
    if x < 126 {
        assert(f.skip(2) =~= payload);
    } else if x < 65536 {
        let hi = (x >> 8u64) as u8;
        let lo = (x & 0xFFu64) as u8;
        assert(256 * (hi as int) + (lo as int) == x as int) by (bit_vector)
            requires
                x < 65536,
                hi == (x >> 8u64) as u8,
                lo == (x & 0xFFu64) as u8,
        ;
        assert(f.skip(4) =~= payload);
    } else {
        let b = be_bytes_u64(x);
        let b0 = (x >> 56u64) as u8;
        let b1 = (x >> 48u64) as u8;
        let b2 = (x >> 40u64) as u8;
        let b3 = (x >> 32u64) as u8;
        let b4 = (x >> 24u64) as u8;
        let b5 = (x >> 16u64) as u8;
        let b6 = (x >> 8u64) as u8;
        let b7 = x as u8;
        assert(((b0 as u64) << 56u64) | ((b1 as u64) << 48u64) | ((b2 as u64) << 40u64) | ((
        b3 as u64) << 32u64) | ((b4 as u64) << 24u64) | ((b5 as u64) << 16u64) | ((b6 as u64)
            << 8u64) | (b7 as u64) == x) by (bit_vector)
            requires
                b0 == (x >> 56u64) as u8,
                b1 == (x >> 48u64) as u8,
                b2 == (x >> 40u64) as u8,
                b3 == (x >> 32u64) as u8,
                b4 == (x >> 24u64) as u8,
                b5 == (x >> 16u64) as u8,
                b6 == (x >> 8u64) as u8,
                b7 == x as u8,
        ;
        assert(f.subrange(2, 10) =~= b);
        assert(f[1] == 127);
        assert(f.skip(10) =~= payload);
    }
}

} // verus!
