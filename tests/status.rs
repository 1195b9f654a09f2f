use range_fetch::{parse_status_bytes, parse_status_line, FetchError};

#[test]
fn test_parse_status_line_valid_codes() {
    assert_eq!(parse_status_line("HTTP/1.1 200 OK\r\n").unwrap(), 200);
    assert_eq!(
        parse_status_line("HTTP/1.0 206 Partial Content").unwrap(),
        206
    );
    assert_eq!(parse_status_line("HTTP/2 404 Not Found").unwrap(), 404);
    assert_eq!(
        parse_status_line("HTTP/1.1 500 Internal Server Error").unwrap(),
        500
    );
    assert_eq!(
        parse_status_line(" HTTP/1.1 302 Found Redirect \r\n").unwrap(),
        302
    );
}

#[test]
fn test_parse_status_line_invalid_format() {
    assert!(parse_status_line("HTTP/1.1 OK").is_err());
    assert!(parse_status_line("HTTP/1.1 20X OK").is_err());
    assert!(parse_status_line(" 200 OK").is_err());
    assert!(parse_status_line("HTTP/1.1").is_err());
    assert!(parse_status_line("").is_err());
    assert!(parse_status_line("\r\n").is_err());
}

#[test]
fn status_error_kinds() {
    assert_eq!(parse_status_line("HTTP/1.1 OK"), Err(FetchError::InvalidStatusCode));
    assert_eq!(parse_status_line("HTTP/1.1 20X OK"), Err(FetchError::InvalidStatusCode));
    assert_eq!(parse_status_line(" 200 OK"), Err(FetchError::MalformedStatusLine));
    assert_eq!(parse_status_line("HTTP/1.1"), Err(FetchError::MalformedStatusLine));
    assert_eq!(parse_status_line(""), Err(FetchError::MalformedStatusLine));
    assert_eq!(parse_status_line("\r\n"), Err(FetchError::MalformedStatusLine));
    assert_eq!(parse_status_line("FTP/1.1 200 OK"), Err(FetchError::MalformedStatusLine));
}

#[test]
fn status_code_bounds() {
    assert_eq!(parse_status_line("HTTP/1.1 0"), Ok(0));
    assert_eq!(parse_status_line("HTTP/1.1 65535 Max"), Ok(65535));
    assert_eq!(parse_status_line("HTTP/1.1 65536 Over"), Err(FetchError::InvalidStatusCode));
    assert_eq!(parse_status_line("HTTP/1.1 99999999999 Over"), Err(FetchError::InvalidStatusCode));
    assert_eq!(parse_status_line("HTTP/1.1 +204 Plus"), Ok(204));
    assert_eq!(parse_status_line("HTTP/1.1 + Plus"), Err(FetchError::InvalidStatusCode));
    assert_eq!(parse_status_line("HTTP/1.1 -1 Minus"), Err(FetchError::InvalidStatusCode));
    assert_eq!(parse_status_line("HTTP/1.1  200 Double"), Err(FetchError::InvalidStatusCode));
    assert_eq!(parse_status_line("\t HTTP/1.1 007\t\r\n"), Ok(7));
    assert_eq!(parse_status_bytes(b"HTTP/1.1 206 Partial Content\r\n"), Ok(206));
}

#[test]
fn unicode_whitespace_is_trimmed() {
    assert_eq!(parse_status_line("HTTP/1.1 200\u{a0}"), Ok(200));
    assert_eq!(parse_status_line("\u{3000}HTTP/1.1 204\u{85}"), Ok(204));
    assert_eq!(parse_status_line("\u{2028}\u{200a}HTTP/2 301 Moved\u{202f}\u{205f}\u{1680}\u{2000}\u{2029}"), Ok(301));
    assert_eq!(parse_status_line("\u{a0}\u{3000}"), Err(FetchError::MalformedStatusLine));
    assert_eq!(parse_status_line("HTTP/1.1\u{a0}200"), Err(FetchError::MalformedStatusLine));
    // U+200B is not whitespace.
    assert_eq!(parse_status_line("HTTP/1.1 200\u{200b}"), Err(FetchError::InvalidStatusCode));
    for line in ["HTTP/1.1 200 OK", "HTTP/1.1 20X OK", " 200 OK", "", "HTTP/1.1 65536"] {
        assert_eq!(parse_status_line(&format!(" \t\r\n{}\n\r\t ", line)), parse_status_line(line));
    }
}
