//! Helpers of the local dashboard server: request routing, the text of the
//! HTTP responses, query parameters, and the WebSocket handshake and
//! framing (in `ws`, with `sha1` and `base64`).

pub mod base64;
pub mod sha1;
pub mod ws;

use crate::text::{
    chars_of, contains, contains_exec, dec_digits, owned, push_all, push_decimal, sep_end,
    sep_end_exec, split_whitespace_exec, starts_with, starts_with_exec, string_of, sub_vec,
    tokens, lemma_sep_end_at, lemma_sep_end_bounds,
};
use vstd::prelude::*;
use vstd::utf8::encode_utf8;

verus! {

// ---------------------------------------------------------------------------
// Routing
// ---------------------------------------------------------------------------

/// What a request asks for.
#[derive(Debug, Clone, Copy, PartialEq, Eq, Structural)]
pub enum Route {
    /// A WebSocket upgrade: live readings.
    WebSocket,
    /// `GET /` or `GET /index.html`: the dashboard page.
    Ui,
    /// `GET /export...`: CSV of a recorded session.
    Export,
    /// `GET /dtc`: read the trouble codes.
    DtcRead,
    /// `POST /dtc/clear`: clear the trouble codes.
    DtcClear,
    /// Anything else: the status document.
    Status,
}

pub open spec fn route_spec(req: Seq<char>) -> Route {
    if contains(req, "Upgrade: websocket"@) {
        Route::WebSocket
    } else if starts_with(req, "GET / "@) || starts_with(req, "GET /index.html "@) {
        Route::Ui
    } else if starts_with(req, "GET /export"@) {
        Route::Export
    } else if starts_with(req, "GET /dtc "@) {
        Route::DtcRead
    } else if starts_with(req, "POST /dtc/clear "@) {
        Route::DtcClear
    } else {
        Route::Status
    }
}

/// The route of the request text `req`.
pub fn route(req: &str) -> (r: Route)
    ensures
        r == route_spec(req@),
{
    let v = chars_of(req);
    if contains_exec(&v, &chars_of("Upgrade: websocket")) {
        Route::WebSocket
    } else if starts_with_exec(&v, &chars_of("GET / ")) || starts_with_exec(
        &v,
        &chars_of("GET /index.html "),
    ) {
        Route::Ui
    } else if starts_with_exec(&v, &chars_of("GET /export")) {
        Route::Export
    } else if starts_with_exec(&v, &chars_of("GET /dtc ")) {
        Route::DtcRead
    } else if starts_with_exec(&v, &chars_of("POST /dtc/clear ")) {
        Route::DtcClear
    } else {
        Route::Status
    }
}

/// How requests are routed: a WebSocket upgrade wherever the upgrade header
/// appears; otherwise by the request line: `GET / ` and `GET /index.html `
/// serve the page, `GET /export` with or without a query exports a session
/// (the latest one when no session is given), `GET /dtc ` reads and
/// `POST /dtc/clear ` clears the trouble codes.
pub proof fn law_routes(rest: Seq<char>)
    ensures
        !contains("GET /export"@ + rest, "Upgrade: websocket"@) ==> route_spec("GET /export"@ + rest)
            == Route::Export,
        !contains("GET / "@ + rest, "Upgrade: websocket"@) ==> route_spec("GET / "@ + rest)
            == Route::Ui,
        !contains("GET /index.html "@ + rest, "Upgrade: websocket"@) ==> route_spec(
            "GET /index.html "@ + rest,
        ) == Route::Ui,
        !contains("GET /dtc "@ + rest, "Upgrade: websocket"@) ==> route_spec("GET /dtc "@ + rest)
            == Route::DtcRead,
        !contains("POST /dtc/clear "@ + rest, "Upgrade: websocket"@) ==> route_spec(
            "POST /dtc/clear "@ + rest,
        ) == Route::DtcClear,
        forall|req: Seq<char>|
            contains(req, "Upgrade: websocket"@) ==> #[trigger] route_spec(req) == Route::WebSocket,
{
    reveal_strlit("GET /export");
    reveal_strlit("GET / ");
    reveal_strlit("GET /index.html ");
    reveal_strlit("GET /dtc ");
    reveal_strlit("POST /dtc/clear ");
    let e = "GET /export"@ + rest;
    assert(e.subrange(0, 11) =~= "GET /export"@);
    assert(e[5] == 'e');
    assert(!starts_with(e, "GET / "@));
    assert(!starts_with(e, "GET /index.html "@));
    let u = "GET / "@ + rest;
    assert(u.subrange(0, 6) =~= "GET / "@);
    let x = "GET /index.html "@ + rest;
    assert(x.subrange(0, 16) =~= "GET /index.html "@);
    let d = "GET /dtc "@ + rest;
    assert(d.subrange(0, 9) =~= "GET /dtc "@);
    assert(d[5] == 'd');
    assert(!starts_with(d, "GET / "@));
    assert(!starts_with(d, "GET /index.html "@));
    assert(!starts_with(d, "GET /export"@));
    let c = "POST /dtc/clear "@ + rest;
    assert(c.subrange(0, 16) =~= "POST /dtc/clear "@);
    assert(c[0] == 'P');
    assert(!starts_with(c, "GET / "@));
    assert(!starts_with(c, "GET /index.html "@));
    assert(!starts_with(c, "GET /export"@));
    assert(!starts_with(c, "GET /dtc "@));
}

// ---------------------------------------------------------------------------
// Query parameters
// ---------------------------------------------------------------------------

/// The path of the request line: the second whitespace-separated token of
/// the first line.
pub open spec fn request_path(req: Seq<char>) -> Option<Seq<char>> {
    if req.len() == 0 {
        None
    } else {
        let l = req.subrange(0, sep_end(req, 0, '\n'));
        if tokens(l).len() >= 2 {
            Some(tokens(l)[1])
        } else {
            None
        }
    }
}

/// The text after the first `?` of a path.
pub open spec fn query_of(path: Seq<char>) -> Option<Seq<char>> {
    let q = sep_end(path, 0, '?');
    if q < path.len() {
        Some(path.skip(q + 1))
    } else {
        None
    }
}

/// The value of the first `&`-separated piece, from the piece starting at
/// `p` on, that reads `key=value`.
pub open spec fn find_param(q: Seq<char>, p: int, key: Seq<char>) -> Option<Seq<char>>
    decreases q.len() + 1 - p,
{
    if p < 0 || p > q.len() {
        None
    } else {
        let e = sep_end(q, p, '&');
        let piece = q.subrange(p, e);
        if starts_with(piece, key) && starts_with(piece.skip(key.len() as int), seq!['=']) {
            Some(piece.skip(key.len() as int + 1))
        } else {
            proof {
                lemma_sep_end_bounds(q, p, '&');
            }
            find_param(q, e + 1, key)
        }
    }
}

/// A query piece `key=value` (ended by `&` or by the end of the query)
/// gives `value`, whatever the pieces after it hold.
pub proof fn law_query_piece_value(q: Seq<char>, p: int, key: Seq<char>, value: Seq<char>)
    requires
        0 <= p,
        p + key.len() + 1 + value.len() <= q.len(),
        q.subrange(p, p + key.len() + 1 + value.len()) == key + seq!['='] + value,
        forall|j: int| 0 <= j < key.len() ==> key[j] != '&',
        forall|j: int| 0 <= j < value.len() ==> value[j] != '&',
        p + key.len() + 1 + value.len() < q.len() ==> q[p + key.len() + 1 + value.len()] == '&',
    ensures
        find_param(q, p, key) == Some(value),
{
    let n = key.len() as int;
    let end = p + n + 1 + value.len();
    let w = key + seq!['='] + value;
    assert forall|k: int| p <= k < end implies q[k] != '&' by {
        assert(q[k] == q.subrange(p, end)[k - p]);
        assert(w[k - p] == q[k]);
        if k - p < n {
            assert(w[k - p] == key[k - p]);
        } else if k - p == n {
            assert(w[k - p] == '=');
        } else {
            assert(w[k - p] == value[k - p - n - 1]);
        }
    }
    lemma_sep_end_at(q, p, end, '&');
    let piece = q.subrange(p, end);
    assert(piece =~= w);
    assert(piece.subrange(0, n) =~= key);
    assert(piece.skip(n).subrange(0, 1) =~= seq!['=']);
    assert(piece.skip(n + 1) =~= value);
}

/// A query piece that is not `key=...` (ended by `&`) is passed over: the
/// value of `key` is looked for in the pieces after it.
pub proof fn law_query_other_piece_skipped(q: Seq<char>, p: int, e: int, key: Seq<char>)
    requires
        0 <= p <= e < q.len(),
        q[e] == '&',
        forall|k: int| p <= k < e ==> q[k] != '&',
        !starts_with(q.subrange(p, e), key + seq!['=']),
    ensures
        find_param(q, p, key) == find_param(q, e + 1, key),
{
    lemma_sep_end_at(q, p, e, '&');
    let piece = q.subrange(p, e);
    if starts_with(piece, key) && starts_with(piece.skip(key.len() as int), seq!['=']) {
        assert(piece.subrange(0, key.len() as int + 1) =~= key + seq!['=']);
    }
}

/// The value of the query parameter `key` in the request line of `req`.
pub open spec fn query_param_spec(req: Seq<char>, key: Seq<char>) -> Option<Seq<char>> {
    match request_path(req) {
        Some(path) => match query_of(path) {
            Some(q) => find_param(q, 0, key),
            None => None,
        },
        None => None,
    }
}

/// The value of the query parameter `key` of the request `req`, e.g. the
/// session of `GET /export?session=20240101_120000`.
pub fn extract_query_param(req: &str, key: &str) -> (r: Option<String>)
    ensures
        match r {
            Some(v) => query_param_spec(req@, key@) == Some(v@),
            None => query_param_spec(req@, key@) is None,
        },
{
    let v = chars_of(req);
    let k = chars_of(key);
    if v.len() == 0 {
        return None;
    }
    let e = sep_end_exec(&v, 0, '\n');
    let line = sub_vec(&v, 0, e);
    let toks = split_whitespace_exec(&line);
    if toks.len() < 2 {
        return None;
    }
    let path = &toks[1];
    let qpos = sep_end_exec(path, 0, '?');
    if qpos >= path.len() {
        return None;
    }
    let q = sub_vec(path, qpos + 1, path.len());
    assert(q@ == path@.skip(qpos + 1));
    let n = q.len();
    let mut p: usize = 0;
    loop
        invariant
            n == q@.len(),
            p <= n,
            k@ == key@,
            query_of(path@) == Some(q@),
            request_path(req@) == Some(path@),
            find_param(q@, p as int, k@) == find_param(q@, 0, k@),
        decreases n - p,
    {
        let e = sep_end_exec(&q, p, '&');
        let piece = sub_vec(&q, p, e);
        if starts_with_exec(&piece, &k) {
            let rest = sub_vec(&piece, k.len(), piece.len());
            assert(rest@ == piece@.skip(k@.len() as int));
            if starts_with_exec(&rest, &chars_of("=")) {
                proof {
                    reveal_strlit("=");
                    assert("="@ =~= seq!['=']);
                }
                let value = sub_vec(&piece, k.len() + 1, piece.len());
                assert(value@ == piece@.skip(k@.len() as int + 1));
                return Some(string_of(&value));
            }
            proof {
                reveal_strlit("=");
                assert("="@ =~= seq!['=']);
            }
        }
        if e >= n {
            assert(find_param(q@, e + 1, k@) is None);
            return None;
        }
        p = e + 1;
    }
}

// ---------------------------------------------------------------------------
// Response text
// ---------------------------------------------------------------------------

/// Reason phrase of the status codes the server sends.
pub open spec fn reason_spec(status: u16) -> Seq<char> {
    if status == 200 {
        "OK"@
    } else if status == 403 {
        "Forbidden"@
    } else if status == 404 {
        "Not Found"@
    } else if status == 500 {
        "Internal Server Error"@
    } else if status == 502 {
        "Bad Gateway"@
    } else {
        "Unknown"@
    }
}

/// A JSON response: status line, content type, the UTF-8 byte length of the
/// body, then the body.
pub open spec fn json_response_spec(status: u16, body: Seq<char>) -> Seq<char> {
    "HTTP/1.1 "@ + dec_digits(status as nat) + " "@ + reason_spec(status)
        + "\r\nContent-Type: application/json\r\nContent-Length: "@ + dec_digits(
        encode_utf8(body).len(),
    ) + "\r\n\r\n"@ + body
}

fn reason(status: u16) -> (r: &'static str)
    ensures
        r@ == reason_spec(status),
{
    if status == 200 {
        "OK"
    } else if status == 403 {
        "Forbidden"
    } else if status == 404 {
        "Not Found"
    } else if status == 500 {
        "Internal Server Error"
    } else if status == 502 {
        "Bad Gateway"
    } else {
        "Unknown"
    }
}

/// The text of a JSON response with the given status and body.
pub fn json_response(status: u16, body: &str) -> (r: String)
    requires
        encode_utf8(body@).len() <= usize::MAX,
    ensures
        r@ == json_response_spec(status, body@),
{
    let mut r = owned("HTTP/1.1 ");
    push_decimal(&mut r, status as u64);
    push_all(&mut r, " ");
    push_all(&mut r, reason(status));
    push_all(&mut r, "\r\nContent-Type: application/json\r\nContent-Length: ");
    push_decimal(&mut r, body.len() as u64);
    push_all(&mut r, "\r\n\r\n");
    push_all(&mut r, body);
    r
}

/// The JSON error document `{"error":"<message>"}` (the message is not
/// escaped).
pub open spec fn error_body_spec(msg: Seq<char>) -> Seq<char> {
    "{\"error\":\""@ + msg + "\"}"@
}

pub fn error_body(msg: &str) -> (r: String)
    ensures
        r@ == error_body_spec(msg@),
{
    let mut r = owned("{\"error\":\"");
    push_all(&mut r, msg);
    push_all(&mut r, "\"}");
    r
}

pub proof fn lemma_error_body_bytes(msg: Seq<char>)
    ensures
        encode_utf8(error_body_spec(msg)).len() == encode_utf8(msg).len() + 12,
{
    reveal_strlit("{\"error\":\"");
    reveal_strlit("\"}");
    crate::server::ws::lemma_encode_utf8_concat("{\"error\":\""@ + msg, "\"}"@);
    crate::server::ws::lemma_encode_utf8_concat("{\"error\":\""@, msg);
    vstd::utf8::is_ascii_chars_encode_utf8("{\"error\":\""@);
    vstd::utf8::is_ascii_chars_encode_utf8("\"}"@);
}

/// A `502 Bad Gateway` / `500 Internal Server Error` style answer carrying
/// an error message.
pub fn error_response(status: u16, msg: &str) -> (r: String)
    requires
        encode_utf8(msg@).len() + 12 <= usize::MAX,
    ensures
        r@ == json_response_spec(status, error_body_spec(msg@)),
{
    proof {
        lemma_error_body_bytes(msg@);
    }
    let body = error_body(msg);
    json_response(status, body.as_str())
}

pub open spec fn status_body() -> Seq<char> {
    "{\"status\":\"tapiti running\",\"version\":\"0.1.0\"}"@
}

/// The answer to any request the server has no route for.
pub fn status_response() -> (r: String)
    ensures
        r@ == json_response_spec(200, status_body()),
{
    proof {
        reveal_strlit("{\"status\":\"tapiti running\",\"version\":\"0.1.0\"}");
        vstd::utf8::is_ascii_chars_encode_utf8(status_body());
    }
    json_response(200, "{\"status\":\"tapiti running\",\"version\":\"0.1.0\"}")
}

/// The dashboard page: status line, HTML content type, no caching, byte
/// length, page.
pub open spec fn ui_response_spec(html: Seq<char>) -> Seq<char> {
    "HTTP/1.1 200 OK\r\nContent-Type: text/html; charset=utf-8\r\nCache-Control: no-store\r\nContent-Length: "@
        + dec_digits(encode_utf8(html).len()) + "\r\n\r\n"@ + html
}

pub fn ui_response(html: &str) -> (r: String)
    requires
        encode_utf8(html@).len() <= usize::MAX,
    ensures
        r@ == ui_response_spec(html@),
{
    let mut r = owned(
        "HTTP/1.1 200 OK\r\nContent-Type: text/html; charset=utf-8\r\nCache-Control: no-store\r\nContent-Length: ",
    );
    push_decimal(&mut r, html.len() as u64);
    push_all(&mut r, "\r\n\r\n");
    push_all(&mut r, html);
    r
}

// ---------------------------------------------------------------------------
// Session export
// ---------------------------------------------------------------------------

pub open spec fn no_sessions_body() -> Seq<char> {
    "{\"error\":\"no sessions recorded\"}"@
}

/// The session to export when the request names none, from the store's
/// answer for the latest session: that session, or the response to send
/// instead (`404` when nothing was recorded, `500` with the store's error).
pub fn latest_session_outcome(latest: Result<Option<String>, String>) -> (r: Result<
    String,
    String,
>)
    requires
        latest matches Err(e) ==> encode_utf8(e@).len() + 12 <= usize::MAX,
    ensures
        match latest {
            Ok(Some(s)) => r matches Ok(t) && t@ == s@,
            Ok(None) => r matches Err(t) && t@ == json_response_spec(404, no_sessions_body()),
            Err(e) => r matches Err(t) && t@ == json_response_spec(500, error_body_spec(e@)),
        },
{
    match latest {
        Ok(Some(s)) => Ok(s),
        Ok(None) => {
            proof {
                reveal_strlit("{\"error\":\"no sessions recorded\"}");
                vstd::utf8::is_ascii_chars_encode_utf8(no_sessions_body());
            }
            Err(json_response(404, "{\"error\":\"no sessions recorded\"}"))
        },
        Err(e) => Err(error_response(500, e.as_str())),
    }
}

/// The CSV download of a session.
pub open spec fn csv_response_spec(session: Seq<char>, csv: Seq<char>) -> Seq<char> {
    "HTTP/1.1 200 OK\r\nContent-Type: text/csv; charset=utf-8\r\nContent-Disposition: attachment; filename=\"tapiti_"@
        + session + ".csv\"\r\nContent-Length: "@ + dec_digits(encode_utf8(csv).len())
        + "\r\n\r\n"@ + csv
}

/// The answer to an export request for `session`, from the store's export
/// (the CSV text, or its error).
pub fn export_response(session: &str, csv: Result<String, String>) -> (r: String)
    requires
        match csv {
            Ok(t) => encode_utf8(t@).len() <= usize::MAX,
            Err(e) => encode_utf8(e@).len() + 12 <= usize::MAX,
        },
    ensures
        match csv {
            Ok(t) => r@ == csv_response_spec(session@, t@),
            Err(e) => r@ == json_response_spec(500, error_body_spec(e@)),
        },
{
    match csv {
        Ok(t) => {
            let mut r = owned(
                "HTTP/1.1 200 OK\r\nContent-Type: text/csv; charset=utf-8\r\nContent-Disposition: attachment; filename=\"tapiti_",
            );
            push_all(&mut r, session);
            push_all(&mut r, ".csv\"\r\nContent-Length: ");
            push_decimal(&mut r, t.as_str().len() as u64);
            push_all(&mut r, "\r\n\r\n");
            push_all(&mut r, t.as_str());
            r
        },
        Err(e) => error_response(500, e.as_str()),
    }
}

// ---------------------------------------------------------------------------
// Trouble codes
// ---------------------------------------------------------------------------

/// The answer to `GET /dtc`: `200` with the codes as JSON, or `502` with
/// the error of the read.
pub fn dtc_read_response(codes: Result<String, String>) -> (r: String)
    requires
        match codes {
            Ok(t) => encode_utf8(t@).len() <= usize::MAX,
            Err(e) => encode_utf8(e@).len() + 12 <= usize::MAX,
        },
    ensures
        match codes {
            Ok(t) => r@ == json_response_spec(200, t@),
            Err(e) => r@ == json_response_spec(502, error_body_spec(e@)),
        },
{
    match codes {
        Ok(t) => json_response(200, t.as_str()),
        Err(e) => error_response(502, e.as_str()),
    }
}

pub open spec fn cleared_body() -> Seq<char> {
    "{\"cleared\":true}"@
}

/// The answer to `POST /dtc/clear`: `200 {"cleared":true}`, or `502` with
/// the error of the request.
pub fn dtc_clear_response(cleared: Result<(), String>) -> (r: String)
    requires
        cleared matches Err(e) ==> encode_utf8(e@).len() + 12 <= usize::MAX,
    ensures
        match cleared {
            Ok(()) => r@ == json_response_spec(200, cleared_body()),
            Err(e) => r@ == json_response_spec(502, error_body_spec(e@)),
        },
{
    match cleared {
        Ok(()) => {
            proof {
                reveal_strlit("{\"cleared\":true}");
                vstd::utf8::is_ascii_chars_encode_utf8(cleared_body());
            }
            json_response(200, "{\"cleared\":true}")
        },
        Err(e) => error_response(502, e.as_str()),
    }
}

} // verus!
