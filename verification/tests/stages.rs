use base64::DecodeError;
use basic_auth::auth::{AuthFailure, BasicAuth, BasicAuthError};

#[test]
fn payload_is_decoded_from_base64() {
    let auth = BasicAuth::from_base64_encoded("YWxpY2U6czNjcjN0").unwrap();
    assert_eq!(auth.username, "alice");
    assert_eq!(auth.password, "s3cr3t");
}

#[test]
fn payload_that_is_plain_text_is_not_taken_as_credentials() {
    // "foo:bar" is not base64: the colon is outside the alphabet.
    let error = BasicAuth::from_base64_encoded("foo:bar").unwrap_err();
    assert!(matches!(error, BasicAuthError::InvalidBase64Encoding(DecodeError::InvalidByte(3, b':'))));
}

#[test]
fn payload_with_whitespace_is_not_base64() {
    let error = BasicAuth::from_base64_encoded("Zm9v OmJhcg=").unwrap_err();
    assert!(matches!(error, BasicAuthError::InvalidBase64Encoding(DecodeError::InvalidByte(4, b' '))));
    // With a length that no base64 text has, the decoder reports the length.
    let error = BasicAuth::from_base64_encoded("Zm9v OmJhcg==").unwrap_err();
    assert!(matches!(error, BasicAuthError::InvalidBase64Encoding(DecodeError::InvalidLength)));
}

#[test]
fn empty_payload_holds_no_colon() {
    let error = BasicAuth::from_base64_encoded("").unwrap_err();
    assert!(matches!(error, BasicAuthError::InvalidHeaderFormat));
}

#[test]
fn decoder_error_is_handed_on() {
    for detail in [DecodeError::InvalidLength, DecodeError::InvalidByte(7, b'?'), DecodeError::InvalidLastSymbol(3, b'R')] {
        match BasicAuth::from_decoded(Err(detail.clone())) {
            Err(BasicAuthError::InvalidBase64Encoding(carried)) => assert_eq!(carried, detail),
            other => panic!("unexpected result {:?}", other),
        }
    }
}

#[test]
fn decoded_bytes_have_to_be_utf8() {
    let auth = BasicAuth::from_decoded(Ok(b"foo:bar".to_vec())).unwrap();
    assert_eq!(auth.username, "foo");
    assert_eq!(auth.password, "bar");
    let auth = BasicAuth::from_decoded(Ok("j\u{fc}rgen:\u{1f512}".as_bytes().to_vec())).unwrap();
    assert_eq!(auth.username, "j\u{fc}rgen");
    assert_eq!(auth.password, "\u{1f512}");
    let error = BasicAuth::from_decoded(Ok(vec![b'f', 0x80, b':'])).unwrap_err();
    assert!(matches!(error, BasicAuthError::InvalidUtf8Encoding(_)));
    let error = BasicAuth::from_decoded(Ok(Vec::new())).unwrap_err();
    assert!(matches!(error, BasicAuthError::InvalidHeaderFormat));
}

#[test]
fn utf8_error_is_handed_on() {
    let detail = String::from_utf8(vec![b'a', b'b', 0xc3]).unwrap_err();
    match BasicAuth::from_decoded_text(Err(detail.clone())) {
        Err(BasicAuthError::InvalidUtf8Encoding(carried)) => {
            assert_eq!(carried, detail);
            assert_eq!(carried.utf8_error().valid_up_to(), 2);
        }
        other => panic!("unexpected result {:?}", other),
    }
}

#[test]
fn decoded_text_is_split() {
    let auth = BasicAuth::from_decoded_text(Ok(" foo :bar: ".to_string())).unwrap();
    assert_eq!(auth.username, "foo");
    assert_eq!(auth.password, "bar:");
}

#[test]
fn credentials_split_at_the_first_colon() {
    let cases = [
        ("foo:bar", "foo", "bar"),
        (":", "", ""),
        (":bar", "", "bar"),
        ("foo:", "foo", ""),
        ("a:b:c", "a", "b:c"),
        ("::", "", ":"),
        (" a : b ", "a", "b"),
        ("\u{a0}a\u{2009}b\u{3000}:\tp q\r\n", "a\u{2009}b", "p q"),
        ("\u{feff}a:b\u{200d}", "\u{feff}a", "b\u{200d}"),
    ];
    for (text, username, password) in cases {
        let auth = BasicAuth::from_credentials(text).unwrap();
        assert_eq!(auth.username, username, "{:?}", text);
        assert_eq!(auth.password, password, "{:?}", text);
    }
}

#[test]
fn credentials_without_colon_are_refused() {
    for text in ["", "foo", " ", "foo bar", "foo\u{a789}bar"] {
        let error = BasicAuth::from_credentials(text).unwrap_err();
        assert!(matches!(error, BasicAuthError::InvalidHeaderFormat));
    }
}

#[test]
fn credentials_agree_with_the_standard_library() {
    let pieces = ["", " ", "a", ":", "\t", "\u{2003}", "b c", "::", "\u{200b}", "\r\n", "\u{e9}"];
    for first in pieces {
        for second in pieces {
            for third in pieces {
                let text = format!("{}{}{}", first, second, third);
                let mut parts = text.splitn(2, ':');
                let username = parts.next().map(|part| part.trim().to_string());
                let password = parts.next().map(|part| part.trim().to_string());
                match BasicAuth::from_credentials(&text) {
                    Ok(auth) => {
                        assert_eq!(Some(auth.username), username, "{:?}", text);
                        assert_eq!(Some(auth.password), password, "{:?}", text);
                    }
                    Err(error) => {
                        assert_eq!(error.kind(), AuthFailure::InvalidHeaderFormat);
                        assert_eq!(password, None, "{:?}", text);
                    }
                }
            }
        }
    }
}
