use shared::cstr::{c_string_length, cstr_to_str, decoded_or_empty, endpoint_url, str_from_chars};
use shared::ESP_IP;

#[test]
fn reads_text_before_the_terminator() {
    assert_eq!(cstr_to_str(b"radar\0junk"), "radar");
}

#[test]
fn reads_everything_without_a_terminator() {
    assert_eq!(cstr_to_str(b"image"), "image");
}

#[test]
fn empty_and_leading_nul_read_as_empty() {
    assert_eq!(cstr_to_str(b""), "");
    assert_eq!(cstr_to_str(b"\0abc"), "");
}

#[test]
fn invalid_utf8_reads_as_empty() {
    assert_eq!(cstr_to_str(&[0x61, 0xff, 0x62, 0x00]), "");
    // an invalid byte after the terminator does not matter
    assert_eq!(cstr_to_str(&[0x61, 0x62, 0x00, 0xff]), "ab");
    // a truncated multi-byte character is invalid
    assert_eq!(cstr_to_str(&[0xc3, 0x00, 0xa9]), "");
}

#[test]
fn multibyte_text_is_decoded() {
    assert_eq!(cstr_to_str("h\u{e9}llo \u{1f4e1}\0rest".as_bytes()), "h\u{e9}llo \u{1f4e1}");
}

#[test]
fn round_trip_of_written_text() {
    for text in ["", "ws_input", "d\u{e9}j\u{e0} vu", "\u{1f600}"] {
        let mut bytes = text.as_bytes().to_vec();
        bytes.push(0);
        bytes.extend_from_slice(b"\x01\x02trailing");
        assert_eq!(cstr_to_str(&bytes), text);
    }
}

#[test]
fn text_read_never_holds_nul() {
    let inputs: [&[u8]; 4] = [b"a\0b\0c", b"\0", b"abc", &[0xe2, 0x82, 0xac, 0, 0]];
    for bytes in inputs {
        assert!(!cstr_to_str(bytes).contains('\0'));
    }
}

#[test]
fn length_stops_at_first_nul() {
    assert_eq!(c_string_length(b"abc\0def\0"), 3);
    assert_eq!(c_string_length(b"abc"), 3);
    assert_eq!(c_string_length(b"\0"), 0);
    assert_eq!(c_string_length(b""), 0);
}

#[test]
fn decoded_or_empty_keeps_a_decoding() {
    assert_eq!(decoded_or_empty(Some("text")), "text");
    assert_eq!(decoded_or_empty(None), "");
}

#[test]
fn chars_are_read_as_bytes() {
    // "caf\u{e9}" with the two bytes of \u{e9} (0xc3 0xa9) held as signed chars
    let field: [i8; 8] = [0x63, 0x61, 0x66, -61, -87, 0, 0x41, 0x42];
    assert_eq!(str_from_chars(&field), "caf\u{e9}");
    let unterminated: [i8; 3] = [0x6f, 0x6b, 0x21];
    assert_eq!(str_from_chars(&unterminated), "ok!");
    let invalid: [i8; 2] = [-1, 0];
    assert_eq!(str_from_chars(&invalid), "");
}

#[test]
fn endpoint_url_joins_host_and_path() {
    assert_eq!(endpoint_url(ESP_IP, b"radar_data\0"), "ws://192.168.4.1/radar_data");
    assert_eq!(endpoint_url("10.0.0.2", b"\0"), "ws://10.0.0.2/");
}
