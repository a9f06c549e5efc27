use qnx_gdb_dap::gdb_mi::breakpoint::GdbBreakpoint;
use qnx_gdb_dap::gdb_mi::breakpoint_update::UpdateAction;
use qnx_gdb_dap::gdb_mi::deployment::GdbDeployment;
use qnx_gdb_dap::gdb_mi::path_key::path_key_text;
use qnx_gdb_dap::gdb_mi::process::{
    is_exit_result, is_gdb_file, parse_output_line, result_step, GdbChannel, GdbCommandResult,
    GdbEvent, ResultStep, StartupStep,
};
use qnx_gdb_dap::gdb_mi::session::{
    parse_breakpoint_result, require_result_class, validate_config, validate_remote_program,
    FileStatus, GdbSessionConfig, GdbSessionError, GdbSessionState,
};
use qnx_gdb_dap::gdb_mi::session_core::{
    breakpoint_location, insert_outcome, BreakpointTable, ConnectStage, GdbSessionCore,
};
use qnx_gdb_dap::{MiRecord, MiResult, MiResultRecord, MiValue};

const REGULAR_FILE: FileStatus = FileStatus { exists: true, is_file: true };

fn result(token: Option<u64>, class: &str, results: Vec<MiResult>) -> MiResultRecord {
    MiResultRecord { token, class: class.to_owned(), results }
}

fn text(value: &str) -> MiValue {
    MiValue::Const(value.to_owned())
}

#[test]
fn rejects_empty_target() {
    let config = GdbSessionConfig::new(
        "/tmp/ntoarm-gdb",
        "/tmp/application",
        "",
        GdbDeployment::Existing { remote_program: "".to_owned() },
    );

    let error = validate_config(&config, REGULAR_FILE, REGULAR_FILE)
        .expect_err("empty target should fail");

    assert!(matches!(error, GdbSessionError::EmptyTarget));
}

#[test]
fn rejects_target_with_whitespace() {
    let config = GdbSessionConfig::new(
        "/tmp/ntoarm-gdb",
        "/tmp/application",
        "192.168.1.20:8000 invalid",
        GdbDeployment::Existing { remote_program: "".to_owned() },
    );

    let error = validate_config(&config, REGULAR_FILE, REGULAR_FILE)
        .expect_err("target containing whitespace should fail");

    assert!(matches!(error, GdbSessionError::InvalidTarget { .. }));
}

#[test]
fn accepts_done_result() {
    let result = result(Some(1), "done", Vec::new());

    require_result_class("test", &result, &["done"]).expect("done should be accepted");
}

#[test]
fn accepts_connected_result() {
    let result = result(Some(1), "connected", Vec::new());

    require_result_class("target-select", &result, &["connected", "done"])
        .expect("connected should be accepted");
}

#[test]
fn extracts_gdb_error_message() {
    let result = result(Some(1), "error", vec![MiResult::new("msg", text("Connection refused."))]);

    let error = require_result_class("target-select", &result, &["connected", "done"])
        .expect_err("error result should fail");

    assert!(matches!(
        error,
        GdbSessionError::GdbCommand {
            operation: "target-select",
            message,
        } if message == "Connection refused."
    ));
}

#[test]
fn parses_inserted_breakpoint() {
    let result = result(
        Some(4),
        "done",
        vec![MiResult::new(
            "bkpt",
            MiValue::Tuple(vec![
                MiResult::new("number", text("3")),
                MiResult::new("type", text("breakpoint")),
                MiResult::new("disp", text("keep")),
                MiResult::new("enabled", text("y")),
                MiResult::new("addr", text("0x00012340")),
                MiResult::new("func", text("main")),
                MiResult::new("file", text("main.cpp")),
                MiResult::new("fullname", text("/home/user/project/main.cpp")),
                MiResult::new("line", text("42")),
            ]),
        )],
    );

    let breakpoint = parse_breakpoint_result("/home/user/project/main.cpp", 42, &result)
        .expect("breakpoint should parse");

    assert_eq!(breakpoint.number, Some(3));
    assert_eq!(breakpoint.line, 42);
    assert!(breakpoint.verified);
    assert_eq!(breakpoint.function.as_deref(), Some("main"));
    assert_eq!(breakpoint.resolved_file.as_deref(), Some("/home/user/project/main.cpp"));
    assert_eq!(breakpoint.address.as_deref(), Some("0x00012340"));
    assert_eq!(breakpoint.message, None);
}

#[test]
fn parses_pending_breakpoint() {
    let result = result(
        Some(4),
        "done",
        vec![MiResult::new(
            "bkpt",
            MiValue::Tuple(vec![
                MiResult::new("number", text("5")),
                MiResult::new("pending", text("/home/user/project/main.cpp:100")),
            ]),
        )],
    );

    let breakpoint = parse_breakpoint_result("/home/user/project/main.cpp", 100, &result)
        .expect("pending breakpoint should parse");

    assert_eq!(breakpoint.number, Some(5));
    assert!(!breakpoint.verified);
    assert_eq!(
        breakpoint.message.as_deref(),
        Some("breakpoint is pending at /home/user/project/main.cpp:100")
    );
}

#[test]
fn reports_breakpoint_insert_error() {
    let result = result(
        Some(4),
        "error",
        vec![MiResult::new("msg", text("No source file named missing.cpp."))],
    );

    let error = parse_breakpoint_result("missing.cpp", 42, &result)
        .expect_err("GDB error should be returned");

    assert!(matches!(
        error,
        GdbSessionError::GdbCommand {
            operation: "break-insert",
            message,
        } if message == "No source file named missing.cpp."
    ));
}

#[test]
fn rejects_breakpoint_result_without_bkpt() {
    let result = result(Some(4), "done", Vec::new());

    let error = parse_breakpoint_result("main.cpp", 42, &result)
        .expect_err("missing bkpt data should fail");

    assert!(matches!(error, GdbSessionError::MissingBreakpointData));
}

#[test]
fn rejects_empty_remote_program() {
    let error = validate_remote_program("").expect_err("empty remote path should fail");

    assert!(matches!(error, GdbSessionError::EmptyRemoteProgram));
}

#[test]
fn accepts_remote_program_with_spaces() {
    validate_remote_program("/dev/shmem/my application").expect("spaces should be accepted");
}

#[test]
fn rejects_remote_program_with_nul() {
    let error = validate_remote_program("/dev/shmem/a\0b").expect_err("NUL should fail");

    assert_eq!(
        error,
        GdbSessionError::InvalidRemoteProgram { remote_program: "/dev/shmem/a\0b".to_owned() }
    );
}

#[test]
fn reports_missing_and_non_regular_files() {
    let config = GdbSessionConfig::new(
        "/opt/ntoarm-gdb",
        "/home/user/app",
        "10.0.0.2:8000",
        GdbDeployment::upload("/dev/shmem/app"),
    );
    let missing = FileStatus { exists: false, is_file: false };
    let directory = FileStatus { exists: true, is_file: false };

    assert_eq!(
        validate_config(&config, missing, REGULAR_FILE),
        Err(GdbSessionError::PathDoesNotExist {
            description: "GDB executable",
            path: "/opt/ntoarm-gdb".to_owned(),
        })
    );
    assert_eq!(
        validate_config(&config, REGULAR_FILE, directory),
        Err(GdbSessionError::PathIsNotFile {
            description: "program executable",
            path: "/home/user/app".to_owned(),
        })
    );
    assert_eq!(validate_config(&config, REGULAR_FILE, REGULAR_FILE), Ok(()));
}

#[test]
fn unexpected_result_class_lists_accepted_classes() {
    let result = result(Some(2), "running", Vec::new());

    assert_eq!(
        require_result_class("gdb-version", &result, &["done"]),
        Err(GdbSessionError::UnexpectedResultClass {
            operation: "gdb-version",
            actual: "running".to_owned(),
            expected: vec!["done".to_owned()],
        })
    );
}

#[test]
fn error_result_without_message_has_placeholder_text() {
    let result = result(Some(2), "error", Vec::new());

    match require_result_class("break-delete", &result, &["done"]) {
        Err(GdbSessionError::GdbCommand { operation, message }) => {
            assert_eq!(operation, "break-delete");
            assert!(!message.is_empty());
        }
        other => panic!("unexpected outcome {other:?}"),
    }
}

#[test]
fn malformed_breakpoint_number_leaves_breakpoint_unverified() {
    let result = result(
        Some(4),
        "done",
        vec![MiResult::new("bkpt", MiValue::Tuple(vec![MiResult::new("number", text("x"))]))],
    );

    let breakpoint = parse_breakpoint_result("main.c", 7, &result).expect("breakpoint should parse");

    assert_eq!(breakpoint.number, None);
    assert!(!breakpoint.verified);
    assert_eq!(breakpoint.message.as_deref(), Some("GDB did not return a breakpoint number"));
}

#[test]
fn breakpoint_data_that_is_not_a_tuple_is_invalid() {
    let result = result(Some(4), "done", vec![MiResult::new("bkpt", text("1"))]);

    assert_eq!(
        parse_breakpoint_result("main.c", 7, &result),
        Err(GdbSessionError::InvalidBreakpointData)
    );
}

#[test]
fn breakpoint_location_is_file_and_line() {
    assert_eq!(breakpoint_location("/project/src/main.cpp", 42), "/project/src/main.cpp:42");
}

#[test]
fn insert_error_becomes_unverified_breakpoint() {
    let result = result(Some(4), "error", vec![MiResult::new("msg", text("No symbol table."))]);

    let breakpoint = insert_outcome("main.c", 9, &result).expect("GDB error is not fatal");

    assert_eq!(breakpoint, GdbBreakpoint::unverified("main.c", 9, "No symbol table."));
}

fn upload_config() -> GdbSessionConfig {
    GdbSessionConfig::new(
        "/opt/ntoarm-gdb",
        "/home/user/app",
        "10.0.0.2:8000",
        GdbDeployment::upload("/dev/shmem/app"),
    )
}

fn connected_core() -> GdbSessionCore {
    let mut core = GdbSessionCore::new(upload_config());
    let classes = ["done", "done", "connected", "done"];
    for (token, class) in classes.iter().enumerate() {
        core.connect_command(token as u64 + 1).expect("command should be built");
        core.accept_connect_result(&result(Some(token as u64 + 1), class, Vec::new()))
            .expect("stage should complete");
    }
    core
}

#[test]
fn connect_stages_send_the_initialization_commands_in_order() {
    let mut core = GdbSessionCore::new(upload_config());
    assert_eq!(core.state(), GdbSessionState::Ready);

    let expected = [
        "1-gdb-version",
        r#"2-file-exec-and-symbols "/home/user/app""#,
        "3-target-select qnx 10.0.0.2:8000",
        r#"4-interpreter-exec console "upload \"/home/user/app\" \"/dev/shmem/app\"""#,
    ];
    let classes = ["done", "done", "done", "done"];
    let states = [
        GdbSessionState::Ready,
        GdbSessionState::SymbolsLoaded,
        GdbSessionState::Connected,
        GdbSessionState::Deployed,
    ];

    for index in 0..4 {
        let token = index as u64 + 1;
        let command = core.connect_command(token).expect("command should be built");
        assert_eq!(command.encode().expect("command should encode"), expected[index]);
        core.accept_connect_result(&result(Some(token), classes[index], Vec::new()))
            .expect("stage should complete");
        assert_eq!(core.state(), states[index]);
    }

    assert_eq!(core.stage(), ConnectStage::Complete);
    let deployment = core.deployment_result();
    assert!(deployment.uploaded);
    assert_eq!(deployment.remote_program, "/dev/shmem/app");
}

#[test]
fn failed_stage_keeps_the_session_state() {
    let mut core = GdbSessionCore::new(upload_config());
    core.connect_command(1).expect("command should be built");
    core.accept_connect_result(&result(Some(1), "done", Vec::new())).expect("version");
    core.connect_command(2).expect("command should be built");

    let error = core
        .accept_connect_result(&result(Some(2), "error", vec![MiResult::new("msg", text("No such file."))]))
        .expect_err("error result should fail");

    assert_eq!(
        error,
        GdbSessionError::GdbCommand { operation: "file-exec-and-symbols", message: "No such file.".to_owned() }
    );
    assert_eq!(core.state(), GdbSessionState::Ready);
    assert_eq!(core.stage(), ConnectStage::LoadSymbols);
}

#[test]
fn breakpoint_update_requires_deployed_session() {
    let mut core = GdbSessionCore::new(upload_config());

    assert_eq!(
        core.begin_breakpoint_update("main.c"),
        Err(GdbSessionError::InvalidSessionState {
            operation: "set source breakpoints",
            actual: GdbSessionState::Ready,
            expected: vec![GdbSessionState::Deployed],
        })
    );
}

#[test]
fn breakpoints_of_a_source_are_replaced() {
    let mut core = connected_core();
    assert_eq!(core.state(), GdbSessionState::Deployed);

    assert_eq!(core.begin_breakpoint_update("main.c"), Ok(None));
    let first = vec![
        parse_breakpoint_result(
            "main.c",
            3,
            &result(
                Some(5),
                "done",
                vec![MiResult::new("bkpt", MiValue::Tuple(vec![MiResult::new("number", text("1"))]))],
            ),
        )
        .expect("breakpoint should parse"),
        GdbBreakpoint::unverified("main.c", 4, "No line 4."),
        parse_breakpoint_result(
            "main.c",
            9,
            &result(
                Some(6),
                "done",
                vec![MiResult::new("bkpt", MiValue::Tuple(vec![MiResult::new("number", text("2"))]))],
            ),
        )
        .expect("breakpoint should parse"),
    ];
    core.complete_breakpoint_update("main.c", &first);

    assert_eq!(core.begin_breakpoint_update("main.c"), Ok(Some(vec![1, 2])));
    assert_eq!(core.begin_breakpoint_update("other.c"), Ok(None));

    core.finish_breakpoint_removal("main.c", &result(Some(7), "done", Vec::new()))
        .expect("deletion should succeed");
    assert_eq!(core.begin_breakpoint_update("main.c"), Ok(None));
}

#[test]
fn failed_breakpoint_removal_keeps_numbers() {
    let mut core = connected_core();
    let installed = vec![parse_breakpoint_result(
        "a.c",
        1,
        &result(
            Some(5),
            "done",
            vec![MiResult::new("bkpt", MiValue::Tuple(vec![MiResult::new("number", text("8"))]))],
        ),
    )
    .expect("breakpoint should parse")];
    core.complete_breakpoint_update("a.c", &installed);

    assert!(core.finish_breakpoint_removal("a.c", &result(Some(6), "error", Vec::new())).is_err());
    assert_eq!(core.begin_breakpoint_update("a.c"), Ok(Some(vec![8])));
}

#[test]
fn breakpoint_table_maps_sources_to_numbers() {
    let mut table = BreakpointTable::new();
    assert_eq!(table.get("a.c"), None);

    table.insert("a.c", vec![1, 2]);
    table.insert("b.c", vec![3]);
    table.insert("a.c", vec![4]);

    assert_eq!(table.get("a.c"), Some(vec![4]));
    assert_eq!(table.get("b.c"), Some(vec![3]));

    table.remove("a.c");
    assert_eq!(table.get("a.c"), None);
    assert_eq!(table.get("b.c"), Some(vec![3]));
}

#[test]
fn shutdown_is_needed_until_terminated() {
    let mut core = GdbSessionCore::new(upload_config());
    assert!(core.needs_shutdown());
    core.mark_terminated();
    assert!(!core.needs_shutdown());
    assert_eq!(core.state(), GdbSessionState::Terminated);
}

#[test]
fn channel_collects_startup_output_until_prompt() {
    let mut channel = GdbChannel::new();
    assert!(!channel.is_synchronized());
    assert!(channel.begin_synchronization().is_ok());

    let banner = parse_output_line("~\"GNU gdb 6.8\\n\"\n").expect("banner should parse");
    assert_eq!(
        channel.startup_step(banner),
        StartupStep::Collect(MiRecord::ConsoleStream("GNU gdb 6.8\n".to_owned()))
    );
    assert_eq!(channel.startup_step(MiRecord::Empty), StartupStep::Skip);
    assert_eq!(channel.startup_step(MiRecord::Prompt), StartupStep::Ready);
    assert!(channel.is_synchronized());
    assert!(channel.begin_synchronization().is_err());
}

#[test]
fn channel_assigns_increasing_tokens_after_synchronization() {
    let mut channel = GdbChannel::new();
    assert!(channel.next_command_token().is_err());

    channel.startup_step(MiRecord::Prompt);
    assert_eq!(channel.next_command_token(), Ok(1));
    assert_eq!(channel.next_command_token(), Ok(2));
}

#[test]
fn result_step_matches_tokens() {
    let done = MiRecord::Result(result(Some(3), "done", Vec::new()));
    assert_eq!(result_step(done, 3), ResultStep::Finished(result(Some(3), "done", Vec::new())));

    let other = MiRecord::Result(result(Some(2), "done", Vec::new()));
    assert_eq!(
        result_step(other, 3),
        ResultStep::UnexpectedToken { actual: Some(2), class: "done".to_owned() }
    );

    let stream = MiRecord::LogStream("warning\n".to_owned());
    assert_eq!(
        result_step(stream, 3),
        ResultStep::Event(GdbEvent::Stream(MiRecord::LogStream("warning\n".to_owned())))
    );
    assert_eq!(result_step(MiRecord::Prompt, 3), ResultStep::Skip);
}

#[test]
fn output_line_ending_is_removed_before_parsing() {
    assert_eq!(
        parse_output_line("12^done\r\n"),
        Ok(MiRecord::Result(result(Some(12), "done", Vec::new())))
    );
}

#[test]
fn exit_result_is_recognised() {
    assert!(is_exit_result(&result(Some(9), "exit", Vec::new())));
    assert!(!is_exit_result(&result(Some(9), "done", Vec::new())));
}

#[test]
fn gdb_file_must_be_regular_file() {
    assert!(is_gdb_file(REGULAR_FILE));
    assert!(!is_gdb_file(FileStatus { exists: true, is_file: false }));
}

#[test]
fn command_result_reports_class_and_error_message() {
    let failed = GdbCommandResult {
        result: result(Some(3), "error", vec![MiResult::new("msg", text("No symbol table."))]),
        events: Vec::new(),
    };
    assert!(failed.is_class("error"));
    assert!(!failed.is_class("done"));
    assert_eq!(failed.error_message(), Some("No symbol table."));

    let done = GdbCommandResult {
        result: result(Some(3), "done", vec![MiResult::new("msg", text("ignored"))]),
        events: Vec::new(),
    };
    assert_eq!(done.error_message(), None);
}

fn numbered(number: &str) -> MiResultRecord {
    result(
        Some(1),
        "done",
        vec![MiResult::new("bkpt", MiValue::Tuple(vec![MiResult::new("number", text(number))]))],
    )
}

fn lines(values: &[u64]) -> Vec<qnx_gdb_dap::gdb_mi::breakpoint::SourceBreakpoint> {
    values.iter().map(|line| qnx_gdb_dap::gdb_mi::breakpoint::SourceBreakpoint::new(*line)).collect()
}

#[test]
fn replacement_deletes_previous_breakpoints_before_inserting() {
    let mut core = connected_core();

    let (mut first, action) = core.start_breakpoint_update("main.c", &lines(&[3, 4])).expect("deployed");
    assert_eq!(action, UpdateAction::Insert("main.c:3".to_owned()));
    let action = core.advance_breakpoint_update(&mut first, &numbered("1")).expect("inserted");
    assert_eq!(action, UpdateAction::Insert("main.c:4".to_owned()));
    let action = core
        .advance_breakpoint_update(&mut first, &result(Some(2), "error", vec![MiResult::new("msg", text("No line 4."))]))
        .expect("a GDB error gives an unverified breakpoint");
    assert_eq!(action, UpdateAction::Finished);
    let results = first.into_results();
    assert_eq!(results.len(), 2);
    assert_eq!(results[0].number, Some(1));
    assert_eq!(results[1], GdbBreakpoint::unverified("main.c", 4, "No line 4."));

    let (other, action) = core.start_breakpoint_update("other.c", &lines(&[]))
        .expect("deployed");
    assert_eq!(action, UpdateAction::Finished);
    assert!(other.into_results().is_empty());

    let (mut second, action) = core.start_breakpoint_update("main.c", &lines(&[9])).expect("deployed");
    assert_eq!(action, UpdateAction::Delete(vec![1]));
    let refused = core.advance_breakpoint_update(&mut second, &result(Some(3), "error", Vec::new()));
    assert!(matches!(refused, Err(GdbSessionError::GdbCommand { operation: "break-delete", .. })));

    let action = core.advance_breakpoint_update(&mut second, &result(Some(4), "done", Vec::new()))
        .expect("deletion answered done");
    assert_eq!(action, UpdateAction::Insert("main.c:9".to_owned()));
    let action = core.advance_breakpoint_update(&mut second, &numbered("7")).expect("inserted");
    assert_eq!(action, UpdateAction::Finished);

    let (_third, action) = core.start_breakpoint_update("main.c", &lines(&[])).expect("deployed");
    assert_eq!(action, UpdateAction::Delete(vec![7]));
}

#[test]
fn replacement_requires_deployed_session() {
    let mut core = GdbSessionCore::new(upload_config());

    assert!(matches!(
        core.start_breakpoint_update("main.c", &lines(&[1])),
        Err(GdbSessionError::InvalidSessionState { operation: "set source breakpoints", .. })
    ));
}

#[test]
fn path_keys_follow_path_components() {
    assert_eq!(path_key_text("/p/main.c"), "/p/main.c");
    assert_eq!(path_key_text("/p//main.c/"), "/p/main.c");
    assert_eq!(path_key_text("/p/./main.c"), "/p/main.c");
    assert_eq!(path_key_text("a/./b"), "a/b");
    assert_eq!(path_key_text("./a"), "./a");
    assert_eq!(path_key_text("a"), "a");
    assert_eq!(path_key_text("."), ".");
    assert_eq!(path_key_text("./"), ".");
    assert_eq!(path_key_text("/"), "/");
    assert_eq!(path_key_text("//"), "/");
    assert_eq!(path_key_text("/./"), "/");
    assert_eq!(path_key_text(""), "");
    assert_eq!(path_key_text("a/../b"), "a/../b");
}

#[test]
fn spellings_of_one_path_share_breakpoints() {
    let mut core = connected_core();

    let (mut first, action) = core.start_breakpoint_update("/p/main.c", &lines(&[3])).expect("deployed");
    assert_eq!(action, UpdateAction::Insert("/p/main.c:3".to_owned()));
    let action = core.advance_breakpoint_update(&mut first, &numbered("5")).expect("inserted");
    assert_eq!(action, UpdateAction::Finished);

    let (_second, action) = core.start_breakpoint_update("/p//main.c/", &lines(&[4])).expect("deployed");
    assert_eq!(action, UpdateAction::Delete(vec![5]));
    assert_eq!(core.begin_breakpoint_update("/p/./main.c"), Ok(Some(vec![5])));
    assert_eq!(core.begin_breakpoint_update("p/main.c"), Ok(None));
}

#[test]
fn current_directory_prefix_names_another_entry() {
    let mut core = connected_core();
    core.complete_breakpoint_update("./a.c", &[GdbBreakpoint::unverified("./a.c", 1, "x")]);
    let installed = vec![parse_breakpoint_result(
        "./a.c",
        1,
        &result(
            Some(5),
            "done",
            vec![MiResult::new("bkpt", MiValue::Tuple(vec![MiResult::new("number", text("8"))]))],
        ),
    )
    .expect("breakpoint should parse")];
    core.complete_breakpoint_update("./a.c", &installed);

    assert_eq!(core.begin_breakpoint_update("a.c"), Ok(None));
    assert_eq!(core.begin_breakpoint_update("././a.c"), Ok(Some(vec![8])));
    core.finish_breakpoint_removal(".//a.c", &result(Some(6), "done", Vec::new()))
        .expect("deletion should succeed");
    assert_eq!(core.begin_breakpoint_update("./a.c"), Ok(None));
}
