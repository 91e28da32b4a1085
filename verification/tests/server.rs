//! Server helpers — RFC 6455, Origin validation, query params, responses.

use tapiti::server::base64::base64_encode;
use tapiti::server::sha1::sha1;
use tapiti::server::ws::{
    extract_ws_key, ws_accept_key, ws_handshake, ws_origin_allowed, ws_text_frame, WsHandshake,
};
use tapiti::server::{
    dtc_clear_response, dtc_read_response, export_response, extract_query_param, json_response,
    latest_session_outcome, route, status_response, ui_response, Route,
};

// Vector de test oficial — RFC 6455 §1.3
// Input key:  "dGhlIHNhbXBsZSBub25jZQ=="
// Expected:   "s3pPLMBiTxaQ9kYGzzhZRbK+xOo="
#[test]
fn test_ws_accept_key_dado_key_rfc_ejemplo_cuando_se_calcula_entonces_valor_correcto() {
    let key = "dGhlIHNhbXBsZSBub25jZQ==";
    let accept = ws_accept_key(key);
    assert_eq!(
        accept, "s3pPLMBiTxaQ9kYGzzhZRbK+xOo=",
        "El accept key no coincide con el vector de test RFC 6455"
    );
}

#[test]
fn test_sha1_dado_abc_cuando_se_hashea_entonces_a9993e36() {
    // SHA-1("abc") = a9993e364706816aba3e25717850c26c9cd0d89d
    let hash = sha1(b"abc");
    let hex: String = hash.iter().map(|b| format!("{:02x}", b)).collect();
    assert_eq!(hex, "a9993e364706816aba3e25717850c26c9cd0d89d");
}

#[test]
fn test_sha1_dado_string_vacio_cuando_se_hashea_entonces_da39a3ee() {
    // SHA-1("") = da39a3ee5e6b4b0d3255bfef95601890afd80709
    let hash = sha1(b"");
    let hex: String = hash.iter().map(|b| format!("{:02x}", b)).collect();
    assert_eq!(hex, "da39a3ee5e6b4b0d3255bfef95601890afd80709");
}

#[test]
fn test_base64_encode_dado_man_cuando_se_codifica_entonces_tw_a_n() {
    // base64("Man") = "TWFu"
    assert_eq!(base64_encode(b"Man"), "TWFu");
}

#[test]
fn test_base64_encode_dado_un_byte_cuando_se_codifica_entonces_padding_correcto() {
    // base64("M") = "TQ=="
    assert_eq!(base64_encode(b"M"), "TQ==");
}

#[test]
fn test_base64_encode_dado_dos_bytes_cuando_se_codifica_entonces_un_padding() {
    // base64("Ma") = "TWE="
    assert_eq!(base64_encode(b"Ma"), "TWE=");
}

// ── ws_origin_allowed ────────────────────────────────────────────────────

#[test]
fn test_origin_dado_sin_header_cuando_upgrade_ws_entonces_permitido() {
    let req = "GET / HTTP/1.1\r\nUpgrade: websocket\r\n\r\n";
    assert!(ws_origin_allowed(req));
}

#[test]
fn test_origin_dado_null_cuando_webview_android_entonces_permitido() {
    let req = "GET / HTTP/1.1\r\nOrigin: null\r\nUpgrade: websocket\r\n\r\n";
    assert!(ws_origin_allowed(req));
}

#[test]
fn test_origin_dado_loopback_cuando_webview_con_url_entonces_permitido() {
    let req = "GET / HTTP/1.1\r\nOrigin: http://127.0.0.1\r\nUpgrade: websocket\r\n\r\n";
    assert!(ws_origin_allowed(req));
}

#[test]
fn test_origin_dado_localhost_cuando_desarrollo_local_entonces_permitido() {
    let req = "GET / HTTP/1.1\r\nOrigin: http://localhost\r\nUpgrade: websocket\r\n\r\n";
    assert!(ws_origin_allowed(req));
}

#[test]
fn test_origin_dado_externo_cuando_otra_pagina_entonces_rechazado() {
    let req = "GET / HTTP/1.1\r\nOrigin: http://evil.com\r\nUpgrade: websocket\r\n\r\n";
    assert!(!ws_origin_allowed(req));
}

#[test]
fn test_origin_dado_loopback_con_puerto_cuando_no_es_raiz_entonces_rechazado() {
    // http://127.0.0.1:8080 es distinto de http://127.0.0.1 — rechazar
    let req = "GET / HTTP/1.1\r\nOrigin: http://127.0.0.1:8080\r\nUpgrade: websocket\r\n\r\n";
    assert!(!ws_origin_allowed(req));
}

#[test]
fn test_origin_case_insensitive_cuando_origin_en_mayusculas_entonces_permitido() {
    let req = "GET / HTTP/1.1\r\nORIGIN: null\r\nUpgrade: websocket\r\n\r\n";
    assert!(ws_origin_allowed(req));
}

// ── extract_query_param ──────────────────────────────────────────────────

#[test]
fn test_query_param_dado_session_cuando_presente_entonces_retorna_valor() {
    let req = "GET /export?session=20240101_120000 HTTP/1.1\r\n\r\n";
    assert_eq!(
        extract_query_param(req, "session"),
        Some("20240101_120000".to_string())
    );
}

#[test]
fn test_query_param_dado_multiples_cuando_busca_segundo_entonces_retorna_correcto() {
    let req = "GET /export?foo=bar&session=20240202_090000 HTTP/1.1\r\n\r\n";
    assert_eq!(
        extract_query_param(req, "session"),
        Some("20240202_090000".to_string())
    );
}

#[test]
fn test_query_param_dado_sin_query_cuando_busca_param_entonces_none() {
    let req = "GET /export HTTP/1.1\r\n\r\n";
    assert_eq!(extract_query_param(req, "session"), None);
}

// ── Further cases ────────────────────────────────────────────────────────

#[test]
fn test_query_param_key_prefix_and_empty_value() {
    let req = "GET /export?sessionx=1&session= HTTP/1.1\r\n\r\n";
    assert_eq!(extract_query_param(req, "session"), Some(String::new()));
    assert_eq!(extract_query_param("", "session"), None);
    assert_eq!(extract_query_param("GET\r\n", "session"), None);
}

#[test]
fn test_sha1_two_block_message() {
    // FIPS 180 example: 56-byte message spanning two blocks
    let hash = sha1(b"abcdbcdecdefdefgefghfghighijhijkijkljklmklmnlmnomnopnopq");
    let hex: String = hash.iter().map(|b| format!("{:02x}", b)).collect();
    assert_eq!(hex, "84983e441c3bd26ebaae4aa1f95129e5e54670f1");
}

#[test]
fn test_base64_encode_empty_and_longer() {
    assert_eq!(base64_encode(b""), "");
    assert_eq!(base64_encode(b"foobar"), "Zm9vYmFy");
    assert_eq!(base64_encode(&[0xfb, 0xff]), "+/8=");
}

#[test]
fn test_extract_ws_key_any_case_and_missing() {
    let req = "GET / HTTP/1.1\r\nsec-WEBSOCKET-key:   abc==  \r\n\r\n";
    assert_eq!(extract_ws_key(req), Some("abc==".to_string()));
    assert_eq!(extract_ws_key("GET / HTTP/1.1\r\n\r\n"), None);
}

#[test]
fn test_ws_handshake_accepts_and_rejects() {
    let req = "GET / HTTP/1.1\r\nUpgrade: websocket\r\nSec-WebSocket-Key: dGhlIHNhbXBsZSBub25jZQ==\r\n\r\n";
    match ws_handshake(req) {
        WsHandshake::Accepted(t) => assert_eq!(
            t,
            "HTTP/1.1 101 Switching Protocols\r\nUpgrade: websocket\r\nConnection: Upgrade\r\nSec-WebSocket-Accept: s3pPLMBiTxaQ9kYGzzhZRbK+xOo=\r\n\r\n"
        ),
        WsHandshake::Rejected(_) => panic!("rejected"),
    }
    let evil = "GET / HTTP/1.1\r\nOrigin: http://evil.com\r\nUpgrade: websocket\r\n\r\n";
    match ws_handshake(evil) {
        WsHandshake::Rejected(t) => {
            assert_eq!(t, "HTTP/1.1 403 Forbidden\r\nContent-Length: 0\r\n\r\n")
        }
        WsHandshake::Accepted(_) => panic!("accepted"),
    }
}

#[test]
fn test_ws_text_frame_length_encodings() {
    assert_eq!(ws_text_frame(b"hi"), vec![0x81, 2, b'h', b'i']);
    let medium = vec![7u8; 300];
    let f = ws_text_frame(&medium);
    assert_eq!(&f[..4], &[0x81, 126, 0x01, 0x2C]);
    assert_eq!(f.len(), 304);
    let large = vec![1u8; 70000];
    let f = ws_text_frame(&large);
    assert_eq!(&f[..10], &[0x81, 127, 0, 0, 0, 0, 0, 0x01, 0x11, 0x70]);
    assert_eq!(f.len(), 70010);
}

#[test]
fn test_route_by_request_line() {
    assert_eq!(route("GET / HTTP/1.1\r\nUpgrade: websocket\r\n\r\n"), Route::WebSocket);
    assert_eq!(route("GET / HTTP/1.1\r\n\r\n"), Route::Ui);
    assert_eq!(route("GET /index.html HTTP/1.1\r\n\r\n"), Route::Ui);
    assert_eq!(route("GET /export?session=1 HTTP/1.1\r\n\r\n"), Route::Export);
    assert_eq!(route("GET /dtc HTTP/1.1\r\n\r\n"), Route::DtcRead);
    assert_eq!(route("POST /dtc/clear HTTP/1.1\r\n\r\n"), Route::DtcClear);
    assert_eq!(route("GET /other HTTP/1.1\r\n\r\n"), Route::Status);
}

#[test]
fn test_json_response_status_reason_and_byte_length() {
    assert_eq!(
        json_response(404, "{}"),
        "HTTP/1.1 404 Not Found\r\nContent-Type: application/json\r\nContent-Length: 2\r\n\r\n{}"
    );
    // "é" is two bytes in UTF-8
    assert_eq!(
        json_response(299, "é"),
        "HTTP/1.1 299 Unknown\r\nContent-Type: application/json\r\nContent-Length: 2\r\n\r\né"
    );
    assert_eq!(
        status_response(),
        "HTTP/1.1 200 OK\r\nContent-Type: application/json\r\nContent-Length: 45\r\n\r\n{\"status\":\"tapiti running\",\"version\":\"0.1.0\"}"
    );
}

#[test]
fn test_export_and_dtc_responses() {
    assert_eq!(
        latest_session_outcome(Ok(None)).unwrap_err(),
        "HTTP/1.1 404 Not Found\r\nContent-Type: application/json\r\nContent-Length: 32\r\n\r\n{\"error\":\"no sessions recorded\"}"
    );
    assert_eq!(latest_session_outcome(Ok(Some("s1".to_string()))).unwrap(), "s1");
    assert_eq!(
        latest_session_outcome(Err("db".to_string())).unwrap_err(),
        "HTTP/1.1 500 Internal Server Error\r\nContent-Type: application/json\r\nContent-Length: 14\r\n\r\n{\"error\":\"db\"}"
    );
    assert_eq!(
        export_response("s1", Ok("a\n".to_string())),
        "HTTP/1.1 200 OK\r\nContent-Type: text/csv; charset=utf-8\r\nContent-Disposition: attachment; filename=\"tapiti_s1.csv\"\r\nContent-Length: 2\r\n\r\na\n"
    );
    assert_eq!(
        dtc_read_response(Err("x".to_string())),
        "HTTP/1.1 502 Bad Gateway\r\nContent-Type: application/json\r\nContent-Length: 13\r\n\r\n{\"error\":\"x\"}"
    );
    assert_eq!(
        dtc_clear_response(Ok(())),
        "HTTP/1.1 200 OK\r\nContent-Type: application/json\r\nContent-Length: 16\r\n\r\n{\"cleared\":true}"
    );
    assert_eq!(
        ui_response("<p>"),
        "HTTP/1.1 200 OK\r\nContent-Type: text/html; charset=utf-8\r\nCache-Control: no-store\r\nContent-Length: 3\r\n\r\n<p>"
    );
}
