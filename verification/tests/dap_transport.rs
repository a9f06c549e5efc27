use std::io::{BufRead, BufReader, Cursor, Read};

use qnx_gdb_dap::dap::transport::{check_content_length, frame_header};
use qnx_gdb_dap::dap::{DapReader, DapWriter, FramingError, HeaderState, HeaderStep, VERSION};
use serde_json::Value;

#[derive(Debug)]
enum ReadFailure {
    Framing(FramingError),
    Io(std::io::Error),
    Json(serde_json::Error),
}

/// Reads one framed message the way the adapter's reader does: header lines
/// through `HeaderState`, the limit through `check_content_length`, then the body.
fn read_message<R: BufRead>(reader: &mut DapReader<R>) -> Result<Option<Value>, ReadFailure> {
    let mut state = HeaderState::new();
    let length = loop {
        let mut line = String::new();
        let read = reader.inner_mut().read_line(&mut line).map_err(ReadFailure::Io)?;
        if read == 0 {
            return match state.end_of_input() {
                Ok(None) => Ok(None),
                Ok(Some(_)) => unreachable!(),
                Err(error) => Err(ReadFailure::Framing(error)),
            };
        }
        match state.accept_line(&line) {
            HeaderStep::Continue => {}
            HeaderStep::Complete(length) => break length,
            HeaderStep::Failed(error) => return Err(ReadFailure::Framing(error)),
        }
    };
    check_content_length(length, reader.max_content_length()).map_err(ReadFailure::Framing)?;
    let mut body = vec![0_u8; length];
    reader.inner_mut().read_exact(&mut body).map_err(ReadFailure::Io)?;
    serde_json::from_slice(&body).map(Some).map_err(ReadFailure::Json)
}

fn framed_message(body: &[u8]) -> Vec<u8> {
    let mut output = frame_header(body.len()).into_bytes();
    output.extend_from_slice(body);
    output
}

fn reader_over(input: Vec<u8>) -> DapReader<BufReader<Cursor<Vec<u8>>>> {
    DapReader::new(BufReader::new(Cursor::new(input)))
}

#[test]
fn version_is_not_empty() {
    assert!(!VERSION.is_empty());
}

#[test]
fn reads_one_message() {
    let body = br#"{"seq":1,"type":"request","command":"initialize"}"#;

    let mut reader = reader_over(framed_message(body));

    let message = read_message(&mut reader)
        .expect("message should be valid")
        .expect("message should be present");

    assert_eq!(message["seq"], 1);
    assert_eq!(message["type"], "request");
    assert_eq!(message["command"], "initialize");
}

#[test]
fn reads_multiple_messages() {
    let first = br#"{"seq":1,"type":"request","command":"initialize"}"#;
    let second = br#"{"seq":2,"type":"request","command":"launch"}"#;

    let mut input = framed_message(first);
    input.extend(framed_message(second));

    let mut reader = reader_over(input);

    let first_message = read_message(&mut reader)
        .expect("first message should be valid")
        .expect("first message should be present");
    let second_message = read_message(&mut reader)
        .expect("second message should be valid")
        .expect("second message should be present");
    let end = read_message(&mut reader).expect("EOF should not be an error");

    assert_eq!(first_message["seq"], 1);
    assert_eq!(second_message["seq"], 2);
    assert!(end.is_none());
}

#[test]
fn accepts_case_insensitive_content_length_header() {
    let body = br#"{"seq":1}"#;
    let mut input = format!("content-length: {}\r\n\r\n", body.len()).into_bytes();
    input.extend_from_slice(body);

    let mut reader = reader_over(input);

    let message = read_message(&mut reader)
        .expect("message should be valid")
        .expect("message should be present");

    assert_eq!(message["seq"], 1);
}

#[test]
fn ignores_unknown_headers() {
    let body = br#"{"seq":1}"#;
    let mut input = format!(
        "Content-Type: application/vscode-jsonrpc; charset=utf-8\r\n\
         Content-Length: {}\r\n\
         X-Debug-Header: test\r\n\
         \r\n",
        body.len()
    )
    .into_bytes();
    input.extend_from_slice(body);

    let mut reader = reader_over(input);

    let message = read_message(&mut reader)
        .expect("message should be valid")
        .expect("message should be present");

    assert_eq!(message["seq"], 1);
}

#[test]
fn rejects_missing_content_length() {
    let mut reader = reader_over(b"Content-Type: application/json\r\n\r\n{}".to_vec());

    let error = read_message(&mut reader).expect_err("missing Content-Length should fail");

    assert!(matches!(error, ReadFailure::Framing(FramingError::MissingContentLength)));
}

#[test]
fn rejects_duplicate_content_length() {
    let mut reader = reader_over(b"Content-Length: 2\r\nContent-Length: 2\r\n\r\n{}".to_vec());

    let error = read_message(&mut reader).expect_err("duplicate Content-Length should fail");

    assert!(matches!(error, ReadFailure::Framing(FramingError::DuplicateContentLength)));
}

#[test]
fn rejects_invalid_content_length() {
    let mut reader = reader_over(b"Content-Length: invalid\r\n\r\n{}".to_vec());

    let error = read_message(&mut reader).expect_err("invalid Content-Length should fail");

    assert!(matches!(error, ReadFailure::Framing(FramingError::InvalidContentLength { .. })));
}

#[test]
fn rejects_message_larger_than_configured_limit() {
    let input = b"Content-Length: 11\r\n\r\n{\"seq\":123}".to_vec();
    let mut reader = DapReader::with_max_content_length(BufReader::new(Cursor::new(input)), 10);

    let error = read_message(&mut reader).expect_err("oversized message should fail");

    assert!(matches!(
        error,
        ReadFailure::Framing(FramingError::MessageTooLarge { content_length: 11, maximum: 10 })
    ));
}

#[test]
fn rejects_truncated_body() {
    let mut reader = reader_over(b"Content-Length: 20\r\n\r\n{}".to_vec());

    let error = read_message(&mut reader).expect_err("truncated body should fail");

    assert!(matches!(error, ReadFailure::Io(_)));
}

#[test]
fn rejects_truncated_headers() {
    let mut reader = reader_over(b"Content-Length: 10\r\n".to_vec());

    let error = read_message(&mut reader).expect_err("truncated headers should fail");

    assert!(matches!(error, ReadFailure::Framing(FramingError::UnexpectedEndOfHeaders)));
}

fn test_message(seq: u64, command: &str) -> Value {
    let mut map = serde_json::Map::new();
    map.insert("seq".to_owned(), Value::from(seq));
    map.insert("type".to_owned(), Value::from("request"));
    map.insert("command".to_owned(), Value::from(command));
    Value::Object(map)
}

#[test]
fn writes_framed_message() {
    let message = test_message(1, "initialize");
    let body = serde_json::to_vec(&message).expect("message should serialize");

    let output = framed_message(&body);

    let mut expected = format!("Content-Length: {}\r\n\r\n", body.len()).into_bytes();
    expected.extend(body);
    assert_eq!(output, expected);
}

#[test]
fn writer_output_can_be_read_back() {
    let sent = test_message(42, "continue");
    let body = serde_json::to_vec(&sent).expect("message should be written");

    let mut writer = DapWriter::new(Vec::new());
    writer.inner_mut().extend(framed_message(&body));

    let mut reader = reader_over(writer.into_inner());

    let decoded = read_message(&mut reader)
        .expect("message should be valid")
        .expect("message should be present");

    assert_eq!(decoded, sent);
}

#[test]
fn frame_header_has_length_and_blank_line() {
    assert_eq!(frame_header(0), "Content-Length: 0\r\n\r\n");
    assert_eq!(frame_header(1234), "Content-Length: 1234\r\n\r\n");
}

#[test]
fn header_lines_of_frame_read_back() {
    let mut state = HeaderState::new();
    assert_eq!(state.accept_line("Content-Length: 57\r\n"), HeaderStep::Continue);
    assert_eq!(state.accept_line("\r\n"), HeaderStep::Complete(57));
}

#[test]
fn header_value_may_have_plus_sign_and_spaces() {
    let mut state = HeaderState::new();
    assert_eq!(state.accept_line("  Content-LENGTH :  +12  \n"), HeaderStep::Continue);
    assert_eq!(state.accept_line("\n"), HeaderStep::Complete(12));
}

#[test]
fn rejects_header_without_colon() {
    let mut state = HeaderState::new();
    assert_eq!(
        state.accept_line("Content-Length 3\r\n"),
        HeaderStep::Failed(FramingError::MalformedHeader("Content-Length 3".to_owned()))
    );
}

#[test]
fn invalid_content_length_keeps_trimmed_value() {
    let mut state = HeaderState::new();
    assert_eq!(
        state.accept_line("Content-Length:  12a \r\n"),
        HeaderStep::Failed(FramingError::InvalidContentLength { value: "12a".to_owned() })
    );
}

#[test]
fn end_of_input_before_any_header_is_no_message() {
    let state = HeaderState::new();
    assert_eq!(state.end_of_input(), Ok(None));
}

#[test]
fn content_length_limit_is_inclusive() {
    assert_eq!(check_content_length(10, 10), Ok(()));
    assert_eq!(
        check_content_length(11, 10),
        Err(FramingError::MessageTooLarge { content_length: 11, maximum: 10 })
    );
}
