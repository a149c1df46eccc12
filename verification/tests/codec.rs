use fb2s::utils::{decode, decode_with_lossy, encode, DecodeError};

#[test]
fn test_encode_decode() {
    let orig = String::from("Some Message content");
    let encoded: String = encode(orig.clone());
    match decode(encoded) {
        Ok(decoded) => assert_eq!(orig, decoded),
        Err(e) => panic!("decode failed: {}", e.message()),
    }
}

#[test]
fn encode_gives_url_safe_base64_with_padding() {
    assert_eq!(encode(String::from("Some Message content")), "U29tZSBNZXNzYWdlIGNvbnRlbnQ=");
    assert_eq!(encode(String::from("")), "");
    assert_eq!(encode(String::from("f")), "Zg==");
    assert_eq!(encode(String::from("fo")), "Zm8=");
    assert_eq!(encode(String::from("foo")), "Zm9v");
    // the bytes ef af bf use the URL-safe digits
    assert_eq!(encode(String::from("\u{fbff}")), "76-_");
    assert_eq!(encode(String::from("Фантастика")), "0KTQsNC90YLQsNGB0YLQuNC60LA=");
}

#[test]
fn decode_round_trips_cyrillic() {
    let name = String::from("Альтернативная история");
    let back = decode(encode(name.clone()));
    assert!(matches!(back, Ok(ref s) if *s == name));
    assert_eq!(decode_with_lossy(encode(name.clone())), name);
}

#[test]
fn decode_reports_base64_errors() {
    match decode(String::from("a*b=")) {
        Err(DecodeError::Base64(m)) => assert_eq!(m, "Invalid symbol 42, offset 1."),
        _ => panic!("expected a base64 error"),
    }
    match decode(String::from("abc")) {
        Err(DecodeError::Base64(_)) => {}
        _ => panic!("expected a base64 error"),
    }
    assert_eq!(decode_with_lossy(String::from("a*b=")), "Invalid symbol 42, offset 1.");
}

#[test]
fn decode_reports_utf8_errors() {
    // "_w==" is the single byte 0xff, which is not UTF-8
    match decode(String::from("_w==")) {
        Err(DecodeError::Utf8(m)) => {
            assert_eq!(m, "invalid utf-8 sequence of 1 bytes from index 0")
        }
        _ => panic!("expected a UTF-8 error"),
    }
}

#[test]
fn encode_gives_back_a_decoded_segment() {
    for text in ["0KTQsNC90YLQsNGB0YLQuNC60LA=", "Zg==", "", "76-_"] {
        let d = decode(String::from(text)).ok().unwrap();
        assert_eq!(encode(d), text);
    }
}
