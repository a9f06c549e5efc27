use qnx_gdb_dap::{
    parse_record, MiAsyncRecord, MiListItem, MiParseError, MiRecord, MiResult, MiResultRecord,
    MiValue,
};

#[test]
fn parses_prompt() {
    assert_eq!(parse_record("(gdb)").expect("prompt should parse"), MiRecord::Prompt);
}

#[test]
fn parses_empty_line() {
    assert_eq!(parse_record("").expect("empty line should parse"), MiRecord::Empty);
}

#[test]
fn parses_done_result() {
    assert_eq!(
        parse_record("12^done").expect("result should parse"),
        MiRecord::Result(MiResultRecord {
            token: Some(12),
            class: "done".to_owned(),
            results: Vec::new(),
        })
    );
}

#[test]
fn parses_error_result() {
    assert_eq!(
        parse_record(r#"7^error,msg="No registers.\n""#).expect("error result should parse"),
        MiRecord::Result(MiResultRecord {
            token: Some(7),
            class: "error".to_owned(),
            results: vec![MiResult::new("msg", MiValue::Const("No registers.\n".to_owned()))],
        })
    );
}

#[test]
fn parses_connected_result_without_token() {
    assert_eq!(
        parse_record("^connected").expect("connected result should parse"),
        MiRecord::Result(MiResultRecord {
            token: None,
            class: "connected".to_owned(),
            results: Vec::new(),
        })
    );
}

#[test]
fn parses_exec_async_record() {
    assert_eq!(
        parse_record(r#"*stopped,reason="breakpoint-hit",thread-id="1""#)
            .expect("async record should parse"),
        MiRecord::ExecAsync(MiAsyncRecord {
            token: None,
            class: "stopped".to_owned(),
            results: vec![
                MiResult::new("reason", MiValue::Const("breakpoint-hit".to_owned())),
                MiResult::new("thread-id", MiValue::Const("1".to_owned())),
            ],
        })
    );
}

#[test]
fn parses_console_stream() {
    assert_eq!(
        parse_record(r#"~"GNU gdb 6.8 qnx-nto\n""#).expect("console stream should parse"),
        MiRecord::ConsoleStream("GNU gdb 6.8 qnx-nto\n".to_owned())
    );
}

#[test]
fn parses_log_stream() {
    assert_eq!(
        parse_record(r#"&"No registers.\n""#).expect("log stream should parse"),
        MiRecord::LogStream("No registers.\n".to_owned())
    );
}

#[test]
fn parses_target_stream() {
    assert_eq!(
        parse_record(r#"@"hello from target\n""#).expect("target stream should parse"),
        MiRecord::TargetStream("hello from target\n".to_owned())
    );
}

#[test]
fn parses_tuple() {
    assert_eq!(
        parse_record(r#"1^done,bkpt={number="1",type="breakpoint",enabled="y"}"#)
            .expect("tuple should parse"),
        MiRecord::Result(MiResultRecord {
            token: Some(1),
            class: "done".to_owned(),
            results: vec![MiResult::new(
                "bkpt",
                MiValue::Tuple(vec![
                    MiResult::new("number", MiValue::Const("1".to_owned())),
                    MiResult::new("type", MiValue::Const("breakpoint".to_owned())),
                    MiResult::new("enabled", MiValue::Const("y".to_owned())),
                ]),
            )],
        })
    );
}

#[test]
fn parses_list_of_values() {
    assert_eq!(
        parse_record(r#"1^done,values=["one","two","three"]"#).expect("list should parse"),
        MiRecord::Result(MiResultRecord {
            token: Some(1),
            class: "done".to_owned(),
            results: vec![MiResult::new(
                "values",
                MiValue::List(vec![
                    MiListItem::Value(MiValue::Const("one".to_owned())),
                    MiListItem::Value(MiValue::Const("two".to_owned())),
                    MiListItem::Value(MiValue::Const("three".to_owned())),
                ]),
            )],
        })
    );
}

#[test]
fn parses_list_of_results() {
    assert_eq!(
        parse_record(r#"1^done,stack=[frame={level="0"},frame={level="1"}]"#)
            .expect("result list should parse"),
        MiRecord::Result(MiResultRecord {
            token: Some(1),
            class: "done".to_owned(),
            results: vec![MiResult::new(
                "stack",
                MiValue::List(vec![
                    MiListItem::Result(MiResult::new(
                        "frame",
                        MiValue::Tuple(vec![MiResult::new("level", MiValue::Const("0".to_owned()))]),
                    )),
                    MiListItem::Result(MiResult::new(
                        "frame",
                        MiValue::Tuple(vec![MiResult::new("level", MiValue::Const("1".to_owned()))]),
                    )),
                ]),
            )],
        })
    );
}

#[test]
fn parses_octal_escape() {
    assert_eq!(
        parse_record(r#"~"\101\102\103""#).expect("octal escapes should parse"),
        MiRecord::ConsoleStream("ABC".to_owned())
    );
}

#[test]
fn rejects_unknown_prefix() {
    let error = parse_record("%invalid").expect_err("unknown prefix should fail");
    assert!(matches!(error, MiParseError::UnknownRecordPrefix('%')));
}

#[test]
fn rejects_unterminated_string() {
    let error = parse_record(r#"~"unfinished"#).expect_err("unterminated string should fail");
    assert!(matches!(error, MiParseError::UnterminatedString));
}

#[test]
fn parses_prompt_with_trailing_space() {
    assert_eq!(parse_record("(gdb) ").expect("prompt should parse"), MiRecord::Prompt);
}

#[test]
fn parses_status_and_notify_records_with_tokens() {
    assert_eq!(
        parse_record("5+download,section=\".text\"").expect("status record should parse"),
        MiRecord::StatusAsync(MiAsyncRecord {
            token: Some(5),
            class: "download".to_owned(),
            results: vec![MiResult::new("section", MiValue::Const(".text".to_owned()))],
        })
    );
    assert_eq!(
        parse_record("=thread-created,id=\"1\"").expect("notify record should parse"),
        MiRecord::NotifyAsync(MiAsyncRecord {
            token: None,
            class: "thread-created".to_owned(),
            results: vec![MiResult::new("id", MiValue::Const("1".to_owned()))],
        })
    );
}

#[test]
fn parses_bare_constants_and_empty_containers() {
    assert_eq!(
        parse_record("^done,a=abc,b={},c=[]").expect("record should parse"),
        MiRecord::Result(MiResultRecord {
            token: None,
            class: "done".to_owned(),
            results: vec![
                MiResult::new("a", MiValue::Const("abc".to_owned())),
                MiResult::new("b", MiValue::Tuple(Vec::new())),
                MiResult::new("c", MiValue::List(Vec::new())),
            ],
        })
    );
}

#[test]
fn decodes_all_simple_escapes() {
    assert_eq!(
        parse_record(r#"~"\a\b\t\n\v\f\r\"\\\q""#).expect("escapes should parse"),
        MiRecord::ConsoleStream("\u{7}\u{8}\t\n\u{b}\u{c}\r\"\\q".to_owned())
    );
}

#[test]
fn octal_escape_stops_after_three_digits() {
    assert_eq!(
        parse_record(r#"~"\1011\7x""#).expect("octal escapes should parse"),
        MiRecord::ConsoleStream("A1\u{7}x".to_owned())
    );
}

#[test]
fn rejects_octal_escape_above_a_byte() {
    let error = parse_record(r#"~"\777""#).expect_err("escape should fail");
    assert_eq!(error, MiParseError::InvalidOctalEscape { value: "777".to_owned() });
}

#[test]
fn rejects_token_overflow() {
    let error = parse_record("18446744073709551616^done").expect_err("token should fail");
    assert_eq!(error, MiParseError::InvalidToken { value: "18446744073709551616".to_owned() });
    assert_eq!(
        parse_record("18446744073709551615^done").expect("largest token should parse"),
        MiRecord::Result(MiResultRecord {
            token: Some(u64::MAX),
            class: "done".to_owned(),
            results: Vec::new(),
        })
    );
}

#[test]
fn rejects_missing_prefix() {
    assert_eq!(parse_record("42").expect_err("prefix missing"), MiParseError::MissingRecordPrefix);
}

#[test]
fn reports_byte_positions() {
    assert_eq!(
        parse_record("^done,é=1").expect_err("identifier expected"),
        MiParseError::ExpectedIdentifier { position: 6 }
    );
    assert_eq!(
        parse_record("~\"é\"x").expect_err("trailing input"),
        MiParseError::TrailingInput("x".to_owned())
    );
    assert_eq!(
        parse_record("^done,a={é=1}").expect_err("identifier expected"),
        MiParseError::ExpectedIdentifier { position: 9 }
    );
    assert_eq!(
        parse_record("^done,a={b=\"1\";").expect_err("bad separator"),
        MiParseError::UnexpectedCharacter { expected: ',', actual: ';', position: 14 }
    );
    assert_eq!(
        parse_record("^done,a={b=1;").expect_err("unterminated tuple"),
        MiParseError::UnexpectedEndOfInput
    );
    assert_eq!(
        parse_record("^done,a=,").expect_err("value expected"),
        MiParseError::ExpectedValue { position: 8 }
    );
}

#[test]
fn reports_unterminated_escape_and_end_of_input() {
    assert_eq!(parse_record("~\"abc\\").expect_err("escape"), MiParseError::UnterminatedEscape);
    assert_eq!(parse_record("^done,a=").expect_err("end"), MiParseError::UnexpectedEndOfInput);
    assert_eq!(parse_record("^done,a={b=1").expect_err("end"), MiParseError::UnexpectedEndOfInput);
}

#[test]
fn list_items_mixing_values_and_results() {
    assert_eq!(
        parse_record("^done,x=[a=1,\"v\",{}]").expect("list should parse"),
        MiRecord::Result(MiResultRecord {
            token: None,
            class: "done".to_owned(),
            results: vec![MiResult::new(
                "x",
                MiValue::List(vec![
                    MiListItem::Result(MiResult::new("a", MiValue::Const("1".to_owned()))),
                    MiListItem::Value(MiValue::Const("v".to_owned())),
                    MiListItem::Value(MiValue::Tuple(Vec::new())),
                ]),
            )],
        })
    );
}
