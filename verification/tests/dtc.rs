//! Trouble code decoding and the mode 04 acknowledgement.

use tapiti::dtc::{
    clear_result, decode_dtc_bytes, dtcs_from_response, generic_description, is_clear_ack,
};
use tapiti::obd::ObdError;

#[test]
fn test_decode_dtc_bytes_single_known_code() {
    let bytes = vec![0x43, 0x01, 0x03, 0x25, 0x00, 0x00];
    let codes = decode_dtc_bytes(&bytes);
    assert_eq!(codes.len(), 1);
    assert_eq!(codes[0].code, "P0325");
    assert_eq!(codes[0].description, "Sensor de knock — circuito banco 1");
}

#[test]
fn test_decode_dtc_bytes_multiple_prefixes() {
    // C1234 y U301 (el formateo actual usa {:02X} para la parte final)
    let bytes = vec![0x43, 0x02, 0x52, 0x34, 0xF0, 0x01];
    let codes = decode_dtc_bytes(&bytes);
    assert_eq!(codes.len(), 2);
    assert_eq!(codes[0].code, "C1234");
    assert_eq!(codes[1].code, "U301");
}

#[test]
fn test_decode_dtc_bytes_stops_on_zero_pair() {
    let bytes = vec![0x43, 0x01, 0x03, 0x00, 0x00, 0x00, 0x03, 0x25];
    let codes = decode_dtc_bytes(&bytes);
    assert_eq!(codes.len(), 1);
    assert_eq!(codes[0].code, "P0300");
}

#[test]
fn test_is_clear_ack_accepts_ok_and_44() {
    assert!(is_clear_ack("44\r\n>"));
    assert!(is_clear_ack("ok\r\n>"));
    assert!(!is_clear_ack("NO DATA\r\n>"));
}

#[test]
fn test_generic_description_unknown_fallback() {
    let desc = generic_description("P9999");
    assert_eq!(desc, "Código genérico — consultar manual EJ205");
}

#[test]
fn test_decode_dtc_bytes_body_code_and_odd_trailing_byte() {
    // 0x80 → B, digit 0, number 0x0123; the lone trailing byte is ignored
    let codes = decode_dtc_bytes(&[0x43, 0x01, 0x81, 0x23, 0x07]);
    assert_eq!(codes.len(), 1);
    assert_eq!(codes[0].code, "B0123");
    assert_eq!(codes[0].description, "Código genérico — consultar manual EJ205");
    assert!(decode_dtc_bytes(&[0x43]).is_empty());
}

#[test]
fn test_generic_description_known_codes() {
    assert_eq!(generic_description("P0300"), "Misfire detectado — múltiples cilindros");
    assert_eq!(generic_description("P0600"), "Comunicación serial — link ECU");
    assert_eq!(generic_description("P0335"), "Sensor de posición cigüeñal — circuito A");
}

#[test]
fn test_dtcs_from_response_reads_codes_and_errors() {
    let codes = dtcs_from_response("43 01 03 01 00 00\r\n>").unwrap();
    assert_eq!(codes.len(), 1);
    assert_eq!(codes[0].code, "P0301");
    assert_eq!(codes[0].description, "Misfire cilindro 1");
    assert!(matches!(dtcs_from_response("NO DATA\r\n>"), Err(ObdError::NoData)));
}

#[test]
fn test_clear_result_ack_and_refusal() {
    assert!(clear_result("44\r\n>").is_ok());
    assert!(matches!(clear_result("?\r\n>"), Err(ObdError::DeviceError)));
}
