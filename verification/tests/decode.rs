use sensor_ingest::json::{parse_log, parse_reading};
use sensor_ingest::reply::{build_error_body, ok_response, reply_for_decode, reply_for_insert, DecodeError};
use sensor_ingest::service::{decode_log, decode_reading, route, Endpoint, MAX_BODY_BYTES};

#[test]
fn reading_simple_body_decodes() {
    let r = decode_reading(b"{\"temp\": 21.5, \"humidity\": 40.25, \"sensor\": \"alpha\"}").unwrap();
    assert_eq!(r.sensor, "alpha");
    assert_eq!(r.temp, "21.5");
    assert_eq!(r.humidity, "40.25");
}

#[test]
fn reading_fields_in_any_order() {
    let r = decode_reading(b"{\"sensor\":\"s\",\"humidity\":1,\"temp\":2}").unwrap();
    assert_eq!(r.sensor, "s");
    assert_eq!(r.temp, "2");
    assert_eq!(r.humidity, "1");
    let r = decode_reading(b"  { \"humidity\" : 1 , \"sensor\" : \"s\" , \"temp\" : 2 }  ").unwrap();
    assert_eq!(r.temp, "2");
    assert_eq!(r.humidity, "1");
}

#[test]
fn log_simple_body_decodes() {
    let l = decode_log(b"{\"message\": \"it broke\", \"sensor\": \"beta\"}").unwrap();
    assert_eq!(l.sensor, "beta");
    assert_eq!(l.message, "it broke");
    let l = decode_log(b"{\"sensor\":\"b\",\"message\":\"m\"}").unwrap();
    assert_eq!(l.sensor, "b");
    assert_eq!(l.message, "m");
}

#[test]
fn string_escapes_are_decoded() {
    let l = decode_log(b"{\"message\":\"a\\\"b\\\\c\\nd\\te\\/f\\bg\\fh\\ri\",\"sensor\":\"s\"}")
        .unwrap();
    assert_eq!(l.message, "a\"b\\c\nd\te/f\u{0008}g\u{000C}h\ri");
}

#[test]
fn empty_strings_are_accepted() {
    let l = decode_log(b"{\"message\":\"\",\"sensor\":\"\"}").unwrap();
    assert_eq!(l.message, "");
    assert_eq!(l.sensor, "");
}

#[test]
fn number_forms_are_kept_as_text() {
    for (body, temp) in [
        (&b"{\"temp\":0,\"humidity\":1,\"sensor\":\"s\"}"[..], "0"),
        (b"{\"temp\":-0.5,\"humidity\":1,\"sensor\":\"s\"}", "-0.5"),
        (b"{\"temp\":1e5,\"humidity\":1,\"sensor\":\"s\"}", "1e5"),
        (b"{\"temp\":2E+3,\"humidity\":1,\"sensor\":\"s\"}", "2E+3"),
        (b"{\"temp\":12.75e-2,\"humidity\":1,\"sensor\":\"s\"}", "12.75e-2"),
        (b"{\"temp\":-7,\"humidity\":1,\"sensor\":\"s\"}", "-7"),
    ] {
        let r = decode_reading(body).unwrap();
        assert_eq!(r.temp, temp);
    }
}

#[test]
fn bad_numbers_are_rejected() {
    for body in [
        &b"{\"temp\":01,\"humidity\":1,\"sensor\":\"s\"}"[..],
        b"{\"temp\":1.,\"humidity\":1,\"sensor\":\"s\"}",
        b"{\"temp\":.5,\"humidity\":1,\"sensor\":\"s\"}",
        b"{\"temp\":+1,\"humidity\":1,\"sensor\":\"s\"}",
        b"{\"temp\":1e,\"humidity\":1,\"sensor\":\"s\"}",
        b"{\"temp\":--1,\"humidity\":1,\"sensor\":\"s\"}",
        b"{\"temp\":\"21\",\"humidity\":1,\"sensor\":\"s\"}",
    ] {
        assert_eq!(decode_reading(body).unwrap_err(), DecodeError::MalformedBody);
    }
}

#[test]
fn missing_field_is_malformed() {
    assert_eq!(decode_reading(b"{\"sensor\":\"a\"}").unwrap_err(), DecodeError::MalformedBody);
    assert_eq!(decode_reading(b"{\"temp\":1,\"humidity\":2}").unwrap_err(), DecodeError::MalformedBody);
    assert_eq!(decode_log(b"{\"sensor\":\"a\"}").unwrap_err(), DecodeError::MalformedBody);
}

#[test]
fn duplicate_or_unknown_field_is_malformed() {
    assert_eq!(decode_reading(b"{\"temp\":1,\"temp\":2,\"sensor\":\"s\"}").unwrap_err(), DecodeError::MalformedBody);
    assert_eq!(decode_reading(b"{\"temp\":1,\"humidity\":2,\"extra\":3}").unwrap_err(), DecodeError::MalformedBody);
    assert_eq!(decode_log(b"{\"message\":\"m\",\"sensor\":\"s\",\"extra\":1}").unwrap_err(), DecodeError::MalformedBody);
}

#[test]
fn garbage_bodies_are_malformed() {
    for body in [
        &b""[..],
        b"   ",
        b"[]",
        b"null",
        b"{\"temp\":1,\"humidity\":2,\"sensor\":\"s\"} x",
        b"{\"temp\":1,\"humidity\":2,\"sensor\":\"s\"",
        b"{\"temp\":1 \"humidity\":2 \"sensor\":\"s\"}",
    ] {
        assert_eq!(decode_reading(body).unwrap_err(), DecodeError::MalformedBody);
    }
}

#[test]
fn invalid_utf8_is_malformed() {
    let mut body = b"{\"message\":\"".to_vec();
    body.push(0xFF);
    body.extend_from_slice(b"\",\"sensor\":\"s\"}");
    assert_eq!(decode_log(&body).unwrap_err(), DecodeError::MalformedBody);
}

#[test]
fn oversized_body_is_too_large() {
    let body = vec![b' '; MAX_BODY_BYTES + 1];
    assert_eq!(decode_reading(&body).unwrap_err(), DecodeError::PayloadTooLarge);
    assert_eq!(decode_log(&body).unwrap_err(), DecodeError::PayloadTooLarge);
    // At exactly the limit the size check passes and the parse decides.
    let body = vec![b' '; MAX_BODY_BYTES];
    assert_eq!(decode_reading(&body).unwrap_err(), DecodeError::MalformedBody);
}

#[test]
fn parser_rejects_unescaped_controls() {
    assert!(parse_log("{\"message\":\"a\nb\",\"sensor\":\"s\"}").is_none());
    assert!(parse_reading("{\"temp\":1,\"humidity\":2,\"sensor\":\"a\tb\"}").is_none());
}

#[test]
fn error_body_is_escaped_json() {
    assert_eq!(build_error_body("plain"), "{\"message\":\"plain\"}");
    assert_eq!(
        build_error_body("a\"b\\c\nd\re\tf"),
        "{\"message\":\"a\\\"b\\\\c\\nd\\re\\tf\"}"
    );
    assert_eq!(build_error_body("x\u{0001}y"), "{\"message\":\"x y\"}");
}

#[test]
fn decode_failures_map_to_client_errors() {
    let r = reply_for_decode(DecodeError::PayloadTooLarge);
    assert_eq!(r.status, 413);
    assert_eq!(r.body, "{\"message\":\"request body exceeds the 16384 byte limit\"}");
    let r = reply_for_decode(DecodeError::MalformedBody);
    assert_eq!(r.status, 400);
    assert_eq!(
        r.body,
        "{\"message\":\"request body is not a valid payload for this endpoint\"}"
    );
}

#[test]
fn insert_outcomes_map_to_replies() {
    let r = ok_response();
    assert_eq!(r.status, 200);
    assert_eq!(r.body, "");
    let r = reply_for_insert(Ok(1));
    assert_eq!(r.status, 200);
    assert_eq!(r.body, "");
    let r = reply_for_insert(Err(String::from("disk I/O error")));
    assert_eq!(r.status, 500);
    assert_eq!(r.body, "{\"message\":\"disk I/O error\"}");
}

#[test]
fn route_matches_only_the_two_endpoints() {
    assert_eq!(route("POST", "/temperature"), Some(Endpoint::Temperature));
    assert_eq!(route("POST", "/log"), Some(Endpoint::Log));
    assert_eq!(route("GET", "/temperature"), None);
    assert_eq!(route("POST", "/temp"), None);
    assert_eq!(route("POST", "/"), None);
    assert_eq!(route("PUT", "/log"), None);
}

#[test]
fn multibyte_text_is_decoded_in_place() {
    // Multibyte characters before a numeric field shift byte offsets away
    // from character offsets; the decoded fields must still be exact.
    let body = "{\"sensor\":\"s\u{00e9}nsor \u{6e29}\u{5ea6}\",\"temp\":-12.5,\"humidity\":0e0}".as_bytes();
    let r = decode_reading(body).unwrap();
    assert_eq!(r.sensor, "s\u{00e9}nsor \u{6e29}\u{5ea6}");
    assert_eq!(r.temp, "-12.5");
    assert_eq!(r.humidity, "0e0");
}

#[test]
fn unicode_escapes_are_decoded() {
    let l = decode_log(b"{\"message\":\"\\u0041\\u00e9\\u6e29\",\"sensor\":\"s\"}").unwrap();
    assert_eq!(l.message, "A\u{e9}\u{6e29}");
    // A control character is expressible through its escape.
    let l = decode_log(b"{\"message\":\"a\\u0001b\",\"sensor\":\"s\"}").unwrap();
    assert_eq!(l.message, "a\u{1}b");
    // A surrogate pair denotes one character above the basic plane.
    let l = decode_log(b"{\"message\":\"\\uD83D\\uDE00\",\"sensor\":\"s\"}").unwrap();
    assert_eq!(l.message, "\u{1F600}");
    let l = decode_log(b"{\"message\":\"x\\ud83d\\ude00y\",\"sensor\":\"s\"}").unwrap();
    assert_eq!(l.message, "x\u{1F600}y");
}

#[test]
fn bad_unicode_escapes_are_malformed() {
    for body in [
        &b"{\"message\":\"\\uD83D\",\"sensor\":\"s\"}"[..],
        b"{\"message\":\"\\uDE00\",\"sensor\":\"s\"}",
        b"{\"message\":\"\\uD83D\\u0041\",\"sensor\":\"s\"}",
        b"{\"message\":\"\\u00g1\",\"sensor\":\"s\"}",
        b"{\"message\":\"\\u00\",\"sensor\":\"s\"}",
        b"{\"message\":\"\\u\",\"sensor\":\"s\"}",
    ] {
        assert_eq!(decode_log(body).unwrap_err(), DecodeError::MalformedBody);
    }
}
