use graviex::response::{accept_response, parse_timestamp, RequestError};

#[test]
fn success_status_gives_the_body() {
    assert_eq!(accept_response(200, "[]".to_string()), Ok("[]".to_string()));
    assert_eq!(accept_response(201, String::new()), Ok(String::new()));
    assert_eq!(accept_response(299, "x".to_string()), Ok("x".to_string()));
}

#[test]
fn other_status_is_an_error_with_the_body() {
    for code in [199, 300, 301, 401, 404, 500, 0, -1, i32::MAX, i32::MIN] {
        assert_eq!(
            accept_response(code, "{\"error\":1}".to_string()),
            Err(RequestError::Status { code, body: "{\"error\":1}".to_string() })
        );
    }
}

#[test]
fn timestamp_is_a_decimal_number() {
    assert_eq!(parse_timestamp("1626125887"), Ok(1626125887));
    assert_eq!(parse_timestamp("0"), Ok(0));
    assert_eq!(parse_timestamp("007"), Ok(7));
    assert_eq!(parse_timestamp("+15"), Ok(15));
    assert_eq!(parse_timestamp(&usize::MAX.to_string()), Ok(usize::MAX));
}

#[test]
fn timestamp_agrees_with_the_standard_parser() {
    for text in ["", "+", "-1", "12a", "1 2", " 12", "12\n", "++1", "1+", "1.5", "\u{663}", "18446744073709551616", "99999999999999999999999", "42", "+0"] {
        let expected = text.parse::<usize>().ok();
        assert_eq!(parse_timestamp(text).ok(), expected, "{:?}", text);
    }
}

#[test]
fn malformed_timestamp_carries_the_body() {
    for text in ["", "+", "-1", "12a", "{\"error\":\"x\"}", "99999999999999999999999999999999999999999"] {
        assert_eq!(parse_timestamp(text), Err(RequestError::Malformed(text.to_string())));
    }
}

#[test]
fn transport_error_keeps_its_text() {
    let error = RequestError::Transport("timed out".to_string());
    assert_eq!(error, RequestError::Transport("timed out".to_string()));
    assert_ne!(error, RequestError::Malformed("timed out".to_string()));
}
