use range_fetch::{build_request, FetchError, HttpClient, IoKind, ResponseReader};
use std::time::Duration;

/// Feeds scripted reads to a response reader as a transport would: an empty
/// read or the end of the script is a clean close.
fn read_response(reads: Vec<Result<Vec<u8>, IoKind>>) -> Result<(u16, Vec<u8>), FetchError> {
    let mut reader = ResponseReader::new();
    let mut queue = reads.into_iter();
    loop {
        match queue.next() {
            Some(Ok(data)) if !data.is_empty() => {
                if let Some(e) = reader.on_data(&data) {
                    return Err(e);
                }
            }
            Some(Ok(_)) | None => return reader.on_end(None).unwrap(),
            Some(Err(kind)) => {
                if let Some(r) = reader.on_end(Some(kind)) {
                    return r;
                }
            }
        }
    }
}

#[test]
fn test_fetch_success_206_partial_content() {
    let response_body = b"some partial data".to_vec();
    let response_headers = format!(
        "HTTP/1.1 206 Partial Content\r\n\
         Content-Length: {}\r\n\
         Content-Range: bytes 100-116/1000\r\n\
         \r\n",
        response_body.len()
    );
    let start_byte = 100;
    let target_host = "mock.server:8080";
    let request_str = build_request(target_host, start_byte);
    let result = read_response(vec![
        Ok(response_headers.into_bytes()),
        Ok(response_body.clone()),
    ]);
    assert!(result.is_ok());
    let (status, body) = result.unwrap();
    assert_eq!(status, 206);
    assert_eq!(body, response_body);
    assert!(request_str.starts_with("GET / HTTP/1.1\r\n"));
    assert!(request_str.contains(&format!("\r\nHost: {}\r\n", target_host)));
    assert!(request_str.contains(&format!("\r\nRange: bytes={}-\r\n", start_byte)));
    assert!(request_str.contains("\r\nConnection: close\r\n"));
    assert!(request_str.ends_with("\r\n\r\n"));
}

#[test]
fn test_fetch_success_200_ok() {
    let response_body = b"complete file data".to_vec();
    let response_headers = format!(
        "HTTP/1.1 200 OK\r\n\
         Content-Length: {}\r\n\
         \r\n",
        response_body.len()
    );
    let start_byte = 0;
    let target_host = "mock.server:8080";
    let result = read_response(vec![
        Ok(response_headers.into_bytes()),
        Ok(response_body.clone()),
    ]);
    assert!(result.is_ok());
    let (status, body) = result.unwrap();
    assert_eq!(status, 200);
    assert_eq!(body, response_body);
    let request_str = build_request(target_host, start_byte);
    assert!(request_str.contains(&format!("\r\nRange: bytes={}-\r\n", start_byte)));
}

#[test]
fn test_fetch_error_404_not_found() {
    let response_body = b"Not Found Error Page".to_vec();
    let response_headers = format!(
        "HTTP/1.1 404 Not Found\r\n\
         Content-Type: text/plain\r\n\
         Content-Length: {}\r\n\
         \r\n",
        response_body.len()
    );
    let result = read_response(vec![
        Ok(response_headers.into_bytes()),
        Ok(response_body.clone()),
    ]);
    assert!(result.is_ok());
    let (status, body) = result.unwrap();
    assert_eq!(status, 404);
    assert_eq!(body, response_body);
}

#[test]
fn test_fetch_simulated_timeout_during_body_read() {
    let response_part1 = b"first chunk".to_vec();
    let response_headers = "HTTP/1.1 206 Partial Content\r\n\
         Content-Length: 1000\r\n\
         \r\n"
        .to_string();
    let result = read_response(vec![
        Ok(response_headers.into_bytes()),
        Ok(response_part1.clone()),
        Err(IoKind::TimedOut),
    ]);
    assert!(result.is_ok());
    let (status, body) = result.unwrap();
    assert_eq!(status, 206);
    assert_eq!(body, response_part1);
}

#[test]
fn test_fetch_simulated_unexpected_eof_during_body_read() {
    let response_part1 = b"partial data before EOF".to_vec();
    let response_headers = "HTTP/1.1 206 Partial Content\r\n\
         Content-Length: 1000\r\n\
         \r\n"
        .to_string();
    let result = read_response(vec![
        Ok(response_headers.into_bytes()),
        Ok(response_part1.clone()),
        Err(IoKind::UnexpectedEof),
    ]);
    assert!(result.is_ok());
    let (status, body) = result.unwrap();
    assert_eq!(status, 206);
    assert_eq!(body, response_part1);
}

#[test]
fn test_fetch_premature_eof_before_status_line() {
    let result = read_response(vec![Ok(Vec::new())]);
    assert!(result.is_err());
    let error_msg = result.err().unwrap().message();
    assert!(error_msg.contains("Connection closed before status line received"));
}

#[test]
fn test_fetch_premature_eof_during_headers() {
    let response_partial = "HTTP/1.1 206 OK\r\nContent-Type: text/p";
    let result = read_response(vec![Ok(response_partial.as_bytes().to_vec())]);
    assert!(result.is_err());
    let error_msg = result.err().unwrap().message();
    assert!(error_msg.contains("Connection closed during header reading"));
}

#[test]
fn response_split_across_reads_byte_by_byte() {
    let whole = b"HTTP/1.1 206 Partial Content\r\nX-A: b\r\n\r\nhello\r\nworld".to_vec();
    let reads = whole.iter().map(|b| Ok(vec![*b])).collect();
    assert_eq!(read_response(reads), Ok((206, b"hello\r\nworld".to_vec())));
}

#[test]
fn response_interruption_is_ignored() {
    let result = read_response(vec![
        Ok(b"HTTP/1.1 200 OK\r\n".to_vec()),
        Err(IoKind::Interrupted),
        Ok(b"\r\nab".to_vec()),
        Err(IoKind::Interrupted),
        Ok(b"c".to_vec()),
    ]);
    assert_eq!(result, Ok((200, b"abc".to_vec())));
}

#[test]
fn response_errors_by_phase() {
    // A timeout before the body is a connection failure, not a partial body.
    assert_eq!(
        read_response(vec![Ok(b"HTTP/1.1 206 OK\r\nA: b".to_vec()), Err(IoKind::TimedOut)]),
        Err(FetchError::Io(IoKind::TimedOut))
    );
    // Other failures inside the body abort the attempt.
    assert_eq!(
        read_response(vec![Ok(b"HTTP/1.1 206 OK\r\n\r\nab".to_vec()), Err(IoKind::ConnectionReset)]),
        Err(FetchError::Io(IoKind::ConnectionReset))
    );
    // A malformed status line fails as soon as it is complete.
    assert_eq!(
        read_response(vec![Ok(b"HTTP/1.1 2x0 OK\r\n".to_vec())]),
        Err(FetchError::InvalidStatusCode)
    );
    assert_eq!(
        read_response(vec![Ok(b"ICY 200 OK\r\n\r\nbody".to_vec())]),
        Err(FetchError::MalformedStatusLine)
    );
    // A status line cut off by the close is still parsed.
    assert_eq!(
        read_response(vec![Ok(b"HTTP/1.1 200".to_vec())]),
        Err(FetchError::ClosedDuringHeaders)
    );
    assert_eq!(
        read_response(vec![Ok(b"garbage".to_vec())]),
        Err(FetchError::MalformedStatusLine)
    );
    // A bare line feed does not end the header block.
    assert_eq!(
        read_response(vec![Ok(b"HTTP/1.1 200 OK\r\n\nbody".to_vec())]),
        Err(FetchError::ClosedDuringHeaders)
    );
}

#[test]
fn request_is_exact() {
    assert_eq!(
        build_request("example.org:80", 1234567),
        "GET / HTTP/1.1\r\nHost: example.org:80\r\nRange: bytes=1234567-\r\nConnection: close\r\nUser-Agent: RustStdNetClient/1.0\r\n\r\n"
    );
    let client = HttpClient::new(
        "mock.server".to_string(),
        8080,
        Duration::from_secs(5),
        Duration::from_secs(15),
    );
    assert_eq!(client.target(), "mock.server:8080");
    assert_eq!(client.request(0), build_request("mock.server:8080", 0));
    assert_eq!(client.connect_timeout(), Duration::from_secs(5));
    assert_eq!(client.read_write_timeout(), Duration::from_secs(15));
    let low = HttpClient::new("h".to_string(), 0, Duration::from_secs(1), Duration::from_secs(1));
    assert_eq!(low.target(), "h:0");
}

#[test]
fn io_error_message_names_the_kind() {
    assert_eq!(
        FetchError::Io(IoKind::ConnectionReset).message(),
        "I/O error on the connection: connection reset"
    );
    assert_eq!(IoKind::TimedOut.name(), "timed out");
}
