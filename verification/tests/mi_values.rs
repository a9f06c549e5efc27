use qnx_gdb_dap::gdb_mi::value::find_result;
use qnx_gdb_dap::{parse_record, MiCommand, MiListItem, MiRecord, MiResult, MiValue, REFERENCE_GDB_VERSION};

#[test]
fn reference_version_mentions_qnx() {
    assert!(REFERENCE_GDB_VERSION.contains("qnx-nto"));
}

fn text(value: &str) -> MiValue {
    MiValue::Const(value.to_owned())
}

#[test]
fn displays_values_as_mi_text() {
    let value = MiValue::Tuple(vec![
        MiResult::new("number", text("1")),
        MiResult::new(
            "frames",
            MiValue::List(vec![
                MiListItem::Value(text("a\"b")),
                MiListItem::Result(MiResult::new("level", text("0"))),
            ]),
        ),
        MiResult::new("empty", MiValue::List(Vec::new())),
    ]);

    assert_eq!(
        value.to_display_string(),
        r#"{number="1",frames=["a\"b",level="0"],empty=[]}"#
    );
    assert_eq!(MiValue::Tuple(Vec::new()).to_display_string(), "{}");
    assert_eq!(text("line\n").to_display_string(), "\"line\\n\"");
}

#[test]
fn accessors_select_the_variant() {
    let constant = text("y");
    assert_eq!(constant.as_const(), Some("y"));
    assert!(constant.as_tuple().is_none());
    assert!(constant.as_list().is_none());

    let tuple = MiValue::Tuple(vec![MiResult::new("a", text("1"))]);
    assert_eq!(tuple.as_tuple().map(|results| results.len()), Some(1));
    assert!(tuple.as_const().is_none());

    let list = MiValue::List(vec![MiListItem::Value(text("x"))]);
    assert_eq!(list.as_list().map(|items| items.len()), Some(1));
}

#[test]
fn find_result_returns_first_match() {
    let results = vec![
        MiResult::new("a", text("1")),
        MiResult::new("b", text("2")),
        MiResult::new("a", text("3")),
    ];

    assert_eq!(find_result(&results, "a"), Some(&text("1")));
    assert_eq!(find_result(&results, "b"), Some(&text("2")));
    assert_eq!(find_result(&results, "c"), None);
}

#[test]
fn quoted_argument_reads_back_as_c_string() {
    let argument = "path \"with\" quotes\\, tab\t, bell\u{7}, newline\n, é";
    let encoded = MiCommand::new("x").string_argument(argument).encode().expect("command should encode");
    let quoted = encoded.strip_prefix("-x ").expect("argument follows the operation");

    let record = parse_record(&format!("~{quoted}")).expect("quoted text should parse");

    assert_eq!(record, MiRecord::ConsoleStream(argument.to_owned()));
}

#[test]
fn quoted_argument_reads_back_as_target_and_log_streams() {
    let argument = "a \"b\"\\\n\u{1}";
    let encoded = MiCommand::new("x").string_argument(argument).encode().expect("command should encode");
    let quoted = encoded.strip_prefix("-x ").expect("argument follows the operation");

    assert_eq!(
        parse_record(&format!("@{quoted}")).expect("target text should parse"),
        MiRecord::TargetStream(argument.to_owned())
    );
    assert_eq!(
        parse_record(&format!("&{quoted}")).expect("log text should parse"),
        MiRecord::LogStream(argument.to_owned())
    );
}
