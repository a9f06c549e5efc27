use qnx_gdb_dap::adapter::breakpoints::path_file_name;
use qnx_gdb_dap::adapter::machine::{
    event_message_count, poll_message_count, request_kind, unsupported_command_message,
};
use qnx_gdb_dap::adapter::messages::adapter_capabilities;
use qnx_gdb_dap::adapter::{
    AdapterCore, AdapterMessage, AdapterState, ArgumentsInput, BreakpointsStep, Capabilities,
    ConfigurationStep, DapBreakpoint, DapSource, DapSourceBreakpoint, DeploymentArguments,
    DisconnectArguments, DisconnectStep, GdbPoll, LaunchArguments, LaunchStep, MessageBody,
    RequestKind, SetBreakpointsArguments, StoppedEventBody,
};
use qnx_gdb_dap::dap::{Request, RequestMessageType};
use qnx_gdb_dap::gdb_mi::breakpoint::GdbBreakpoint;
use qnx_gdb_dap::gdb_mi::deployment::GdbDeployment;
use qnx_gdb_dap::gdb_mi::execution::{GdbSessionEvent, GdbStopReason};

fn request(seq: u64, command: &str) -> Request {
    Request {
        seq,
        message_type: RequestMessageType::Request,
        command: command.to_owned(),
        arguments: None,
    }
}

fn error(seq: u64, request_seq: u64, command: &str, message: &str) -> AdapterMessage {
    AdapterMessage::Response {
        seq,
        request_seq,
        success: false,
        command: command.to_owned(),
        message: Some(message.to_owned()),
        body: MessageBody::Empty,
    }
}

fn success(seq: u64, request_seq: u64, command: &str, body: MessageBody) -> AdapterMessage {
    AdapterMessage::Response {
        seq,
        request_seq,
        success: true,
        command: command.to_owned(),
        message: None,
        body,
    }
}

fn event(seq: u64, name: &str, body: MessageBody) -> AdapterMessage {
    AdapterMessage::Event { seq, event: name.to_owned(), body }
}

fn output(seq: u64, category: &str, text: &str) -> AdapterMessage {
    event(
        seq,
        "output",
        MessageBody::Output { category: category.to_owned(), output: text.to_owned() },
    )
}

fn message_seq(message: &AdapterMessage) -> u64 {
    match message {
        AdapterMessage::Response { seq, .. } => *seq,
        AdapterMessage::Event { seq, .. } => *seq,
    }
}

fn launch_arguments() -> LaunchArguments {
    LaunchArguments {
        gdb: "/opt/qnx650/host/linux/x86/usr/bin/ntoarm-gdb".to_owned(),
        program: "/home/user/build/application".to_owned(),
        target: "192.168.1.28:8080".to_owned(),
        deployment: DeploymentArguments::Upload {
            remote_program: "/dev/shmem/application".to_owned(),
        },
        working_directory: Some("/home/user/project".to_owned()),
        gdb_arguments: vec!["--quiet".to_owned()],
    }
}

fn source_breakpoint(line: u64) -> DapSourceBreakpoint {
    DapSourceBreakpoint { line, column: None, condition: None, hit_condition: None, log_message: None }
}

fn breakpoints_arguments(path: Option<&str>, lines: &[u64]) -> SetBreakpointsArguments {
    SetBreakpointsArguments {
        source: DapSource { name: None, path: path.map(str::to_owned) },
        breakpoints: lines.iter().map(|line| source_breakpoint(*line)).collect(),
        source_modified: false,
    }
}

fn initialized() -> AdapterCore {
    let mut core = AdapterCore::new();
    core.handle_initialize(&request(1, "initialize"));
    core
}

fn respond(step: LaunchStep) -> AdapterMessage {
    match step {
        LaunchStep::Respond(message) => message,
        other => panic!("expected a response, got {other:?}"),
    }
}

fn respond_breakpoints(step: BreakpointsStep) -> AdapterMessage {
    match step {
        BreakpointsStep::Respond(message) => message,
        other => panic!("expected a response, got {other:?}"),
    }
}

fn respond_configuration(step: ConfigurationStep) -> AdapterMessage {
    match step {
        ConfigurationStep::Respond(message) => message,
        other => panic!("expected a response, got {other:?}"),
    }
}

fn respond_disconnect(step: DisconnectStep) -> AdapterMessage {
    match step {
        DisconnectStep::Respond(message) => message,
        other => panic!("expected a response, got {other:?}"),
    }
}

fn expected_capabilities() -> Capabilities {
    Capabilities {
        supports_configuration_done_request: true,
        supports_function_breakpoints: false,
        supports_conditional_breakpoints: false,
        supports_hit_conditional_breakpoints: false,
        supports_evaluate_for_hovers: false,
        supports_terminate_request: false,
        supports_restart_request: false,
        supports_step_back: false,
        supports_set_variable: false,
        supports_read_memory_request: false,
        supports_disassemble_request: false,
        support_terminate_debuggee: false,
        support_suspend_debuggee: false,
    }
}

fn launched() -> AdapterCore {
    let mut core = initialized();
    let launch = request(2, "launch");
    match core.begin_launch(&launch, ArgumentsInput::Valid(launch_arguments())) {
        LaunchStep::Connect(_) => {}
        other => panic!("expected a connection, got {other:?}"),
    }
    core.finish_launch(&launch, Ok(()));
    core
}

fn running() -> AdapterCore {
    let mut core = launched();
    let done = request(3, "configurationDone");
    assert!(matches!(core.begin_configuration_done(&done), ConfigurationStep::Run));
    core.finish_configuration_done(&done, Ok(Vec::new()));
    core
}

#[test]
fn starts_in_created_state() {
    let adapter = AdapterCore::new();

    assert_eq!(adapter.state(), AdapterState::Created);
}

#[test]
fn handles_initialize_request() {
    let mut adapter = AdapterCore::new();

    let messages = adapter.handle_initialize(&request(10, "initialize"));
    adapter.close_input();

    assert_eq!(adapter.state(), AdapterState::Disconnected);
    assert_eq!(messages.len(), 2);
    assert_eq!(
        messages[0],
        success(1, 10, "initialize", MessageBody::Capabilities(expected_capabilities()))
    );
    assert_eq!(messages[1], event(2, "initialized", MessageBody::Empty));
}

#[test]
fn rejects_second_initialize_request() {
    let mut adapter = AdapterCore::new();

    let mut messages = adapter.handle_initialize(&request(1, "initialize"));
    messages.extend(adapter.handle_initialize(&request(2, "initialize")));

    assert_eq!(messages.len(), 3);
    assert_eq!(
        messages[2],
        error(3, 2, "initialize", "the debug adapter has already been initialized")
    );
}

#[test]
fn uses_monotonically_increasing_sequence_numbers() {
    let mut adapter = AdapterCore::new();

    let mut messages = adapter.handle_initialize(&request(1, "initialize"));
    messages.push(respond(adapter.begin_launch(&request(2, "launch"), ArgumentsInput::Missing)));
    messages.push(adapter.reject_unsupported(&request(3, "threads")));

    let sequences = messages.iter().map(message_seq).collect::<Vec<_>>();
    assert_eq!(sequences, vec![1, 2, 3, 4]);
}

#[test]
fn rejects_launch_before_initialize() {
    let mut adapter = AdapterCore::new();

    let message = respond(adapter.begin_launch(
        &request(1, "launch"),
        ArgumentsInput::Invalid("missing field `deployment`".to_owned()),
    ));

    assert_eq!(
        message,
        error(1, 1, "launch", "launch is not valid while adapter is in state Created")
    );
}

#[test]
fn rejects_launch_without_arguments() {
    let mut adapter = initialized();

    let message = respond(adapter.begin_launch(&request(2, "launch"), ArgumentsInput::Missing));

    assert_eq!(message, error(3, 2, "launch", "launch request does not contain arguments"));
}

#[test]
fn rejects_invalid_launch_arguments() {
    let mut adapter = initialized();

    let message = respond(adapter.begin_launch(
        &request(2, "launch"),
        ArgumentsInput::Invalid("missing field `program`".to_owned()),
    ));

    match message {
        AdapterMessage::Response { request_seq, success, command, message, .. } => {
            assert_eq!(request_seq, 2);
            assert!(!success);
            assert_eq!(command, "launch");
            let message = message.expect("error response should contain a message");
            assert!(message.starts_with("invalid launch arguments:"));
        }
        other => panic!("expected a response, got {other:?}"),
    }
    assert_eq!(adapter.state(), AdapterState::Initialized);
}

#[test]
fn rejects_set_breakpoints_before_launch() {
    let mut adapter = initialized();

    let message = respond_breakpoints(adapter.begin_set_breakpoints(
        &request(2, "setBreakpoints"),
        ArgumentsInput::Valid(breakpoints_arguments(Some("/project/main.c"), &[7])),
    ));

    assert_eq!(
        message,
        error(
            3,
            2,
            "setBreakpoints",
            "setBreakpoints is not valid while adapter is in state Initialized"
        )
    );
}

#[test]
fn rejects_set_breakpoints_without_arguments() {
    let mut adapter = AdapterCore::in_state(AdapterState::Connected);

    let message = respond_breakpoints(
        adapter.begin_set_breakpoints(&request(1, "setBreakpoints"), ArgumentsInput::Missing),
    );

    assert_eq!(
        message,
        error(1, 1, "setBreakpoints", "setBreakpoints request does not contain arguments")
    );
}

#[test]
fn rejects_set_breakpoints_without_source_path() {
    let mut adapter = AdapterCore::in_state(AdapterState::Connected);
    let mut arguments = breakpoints_arguments(None, &[7]);
    arguments.source.name = Some("main.c".to_owned());

    let message = respond_breakpoints(
        adapter.begin_set_breakpoints(&request(1, "setBreakpoints"), ArgumentsInput::Valid(arguments)),
    );

    assert_eq!(
        message,
        error(1, 1, "setBreakpoints", "setBreakpoints source does not contain a path")
    );
}

#[test]
fn rejects_zero_breakpoint_line() {
    let mut adapter = AdapterCore::in_state(AdapterState::Connected);

    let message = respond_breakpoints(adapter.begin_set_breakpoints(
        &request(1, "setBreakpoints"),
        ArgumentsInput::Valid(breakpoints_arguments(Some("/project/main.c"), &[0])),
    ));

    assert_eq!(
        message,
        error(1, 1, "setBreakpoints", "breakpoint line must be greater than zero")
    );
}

#[test]
fn rejects_configuration_done_before_launch() {
    let mut adapter = initialized();

    let message = respond_configuration(
        adapter.begin_configuration_done(&request(2, "configurationDone")),
    );

    assert_eq!(
        message,
        error(
            3,
            2,
            "configurationDone",
            "configurationDone is not valid while adapter is in state Initialized"
        )
    );
}

#[test]
fn rejects_repeated_configuration_done() {
    let mut adapter = AdapterCore::in_state(AdapterState::Configured);

    let message = respond_configuration(
        adapter.begin_configuration_done(&request(1, "configurationDone")),
    );

    assert_eq!(
        message,
        error(
            1,
            1,
            "configurationDone",
            "configurationDone is not valid while adapter is in state Configured"
        )
    );
}

#[test]
fn disconnects_after_initialize() {
    let mut adapter = initialized();
    let disconnect = request(2, "disconnect");

    let step = adapter.begin_disconnect(&disconnect, ArgumentsInput::Valid(DisconnectArguments::default()));
    assert_eq!(step, DisconnectStep::Close { shutdown_session: false });
    let messages = adapter.finish_disconnect(&disconnect, Ok(()));

    assert_eq!(messages.len(), 2);
    assert_eq!(messages[0], success(3, 2, "disconnect", MessageBody::Empty));
    assert_eq!(messages[1], event(4, "terminated", MessageBody::Empty));
}

#[test]
fn accepts_disconnect_without_arguments() {
    let mut adapter = initialized();
    let disconnect = request(2, "disconnect");

    let step = adapter.begin_disconnect(&disconnect, ArgumentsInput::Missing);
    assert_eq!(step, DisconnectStep::Close { shutdown_session: false });
    let messages = adapter.finish_disconnect(&disconnect, Ok(()));

    assert!(matches!(&messages[0], AdapterMessage::Response { success: true, command, .. } if command == "disconnect"));
    assert!(matches!(&messages[1], AdapterMessage::Event { event, .. } if event == "terminated"));
}

#[test]
fn rejects_suspend_debuggee() {
    let mut adapter = initialized();

    let message = respond_disconnect(adapter.begin_disconnect(
        &request(2, "disconnect"),
        ArgumentsInput::Valid(DisconnectArguments { terminate_debuggee: false, suspend_debuggee: true }),
    ));

    assert_eq!(message, error(3, 2, "disconnect", "suspendDebuggee is not supported"));
}

#[test]
fn rejects_disconnect_before_initialize() {
    let mut adapter = AdapterCore::new();

    let message =
        respond_disconnect(adapter.begin_disconnect(&request(1, "disconnect"), ArgumentsInput::Missing));

    assert_eq!(
        message,
        error(1, 1, "disconnect", "disconnect is not valid while adapter is in state Created")
    );
}

#[test]
fn accepts_repeated_disconnect() {
    let mut adapter = initialized();
    let first = request(2, "disconnect");
    adapter.begin_disconnect(&first, ArgumentsInput::Missing);
    adapter.finish_disconnect(&first, Ok(()));

    let message =
        respond_disconnect(adapter.begin_disconnect(&request(3, "disconnect"), ArgumentsInput::Missing));

    assert_eq!(
        message,
        error(5, 3, "disconnect", "disconnect is not valid while adapter is in state Terminated")
    );
}

#[test]
fn converts_verified_gdb_breakpoint() {
    let breakpoint = GdbBreakpoint {
        number: Some(4),
        source: "/requested/main.c".to_owned(),
        line: 12,
        verified: true,
        function: Some("main".to_owned()),
        resolved_file: Some("/resolved/project/main.c".to_owned()),
        address: Some("0x001007d8".to_owned()),
        message: None,
    };

    let dap = DapBreakpoint::from_gdb(breakpoint);

    assert_eq!(dap.id, Some(4));
    assert!(dap.verified);
    assert_eq!(dap.line, Some(12));
    assert_eq!(dap.instruction_reference.as_deref(), Some("0x001007d8"));

    let source = dap.source.expect("source should be present");

    assert_eq!(source.name.as_deref(), Some("main.c"));
    assert_eq!(source.path.as_deref(), Some("/resolved/project/main.c"));
}

#[test]
fn converts_unverified_gdb_breakpoint() {
    let breakpoint =
        GdbBreakpoint::unverified("/project/missing.c", 100, "No source file named missing.c.");

    let dap = DapBreakpoint::from_gdb(breakpoint);

    assert_eq!(dap.id, None);
    assert!(!dap.verified);
    assert_eq!(dap.line, Some(100));
    assert_eq!(dap.message.as_deref(), Some("No source file named missing.c."));
    let source = dap.source.expect("source should be present");
    assert_eq!(source.name.as_deref(), Some("missing.c"));
    assert_eq!(source.path.as_deref(), Some("/project/missing.c"));
}

#[test]
fn uses_disconnect_argument_defaults() {
    assert_eq!(
        DisconnectArguments::default(),
        DisconnectArguments { terminate_debuggee: false, suspend_debuggee: false }
    );
}

#[test]
fn file_name_follows_unix_path_rules() {
    assert_eq!(path_file_name("/a/b/main.c").as_deref(), Some("main.c"));
    assert_eq!(path_file_name("main.c").as_deref(), Some("main.c"));
    assert_eq!(path_file_name("/a/b/").as_deref(), Some("b"));
    assert_eq!(path_file_name("/a/b/.").as_deref(), Some("b"));
    assert_eq!(path_file_name("/a/b/.."), None);
    assert_eq!(path_file_name("/"), None);
    assert_eq!(path_file_name(""), None);
    assert_eq!(path_file_name("."), None);
}

#[test]
fn capabilities_announce_configuration_done_only() {
    assert_eq!(adapter_capabilities(), expected_capabilities());
}

#[test]
fn classifies_request_commands() {
    assert_eq!(request_kind("initialize"), RequestKind::Initialize);
    assert_eq!(request_kind("launch"), RequestKind::Launch);
    assert_eq!(request_kind("setBreakpoints"), RequestKind::SetBreakpoints);
    assert_eq!(request_kind("configurationDone"), RequestKind::ConfigurationDone);
    assert_eq!(request_kind("disconnect"), RequestKind::Disconnect);
    assert_eq!(request_kind("threads"), RequestKind::Unsupported);
    assert_eq!(request_kind("Initialize"), RequestKind::Unsupported);
}

#[test]
fn unsupported_request_quotes_command() {
    let mut adapter = AdapterCore::new();

    let message = adapter.reject_unsupported(&request(7, "threads"));

    assert_eq!(message, error(1, 7, "threads", "DAP command \"threads\" is not implemented"));
    assert_eq!(
        unsupported_command_message("\"a\\\"b\""),
        "DAP command \"a\\\"b\" is not implemented"
    );
}

#[test]
fn launch_builds_session_configuration() {
    let mut adapter = initialized();

    let config = match adapter.begin_launch(&request(2, "launch"), ArgumentsInput::Valid(launch_arguments())) {
        LaunchStep::Connect(config) => config,
        other => panic!("expected a connection, got {other:?}"),
    };

    assert_eq!(adapter.state(), AdapterState::Launching);
    assert_eq!(config.gdb_executable, "/opt/qnx650/host/linux/x86/usr/bin/ntoarm-gdb");
    assert_eq!(config.program, "/home/user/build/application");
    assert_eq!(config.target, "192.168.1.28:8080");
    assert_eq!(config.deployment, GdbDeployment::upload("/dev/shmem/application"));
    assert_eq!(config.working_directory.as_deref(), Some("/home/user/project"));
    assert_eq!(config.gdb_arguments, vec!["--quiet".to_owned()]);
}

#[test]
fn successful_launch_connects() {
    let mut adapter = initialized();
    let launch = request(2, "launch");
    adapter.begin_launch(&launch, ArgumentsInput::Valid(launch_arguments()));

    let message = adapter.finish_launch(&launch, Ok(()));

    assert_eq!(message, success(3, 2, "launch", MessageBody::Empty));
    assert_eq!(adapter.state(), AdapterState::Connected);
    assert!(adapter.session_open());
}

#[test]
fn failed_launch_returns_to_initialized() {
    let mut adapter = initialized();
    let launch = request(2, "launch");
    adapter.begin_launch(&launch, ArgumentsInput::Valid(launch_arguments()));

    let message = adapter.finish_launch(&launch, Err("GDB executable does not exist: /x".to_owned()));

    assert_eq!(
        message,
        error(3, 2, "launch", "failed to launch QNX debug session: GDB executable does not exist: /x")
    );
    assert_eq!(adapter.state(), AdapterState::Initialized);
    assert!(!adapter.session_open());
}

#[test]
fn set_breakpoints_asks_for_requested_lines() {
    let mut adapter = launched();

    let step = adapter.begin_set_breakpoints(
        &request(3, "setBreakpoints"),
        ArgumentsInput::Valid(breakpoints_arguments(Some("/project/main.c"), &[7, 12])),
    );

    match step {
        BreakpointsStep::Install { source, breakpoints } => {
            assert_eq!(source, "/project/main.c");
            assert_eq!(breakpoints.iter().map(|b| b.line).collect::<Vec<_>>(), vec![7, 12]);
        }
        other => panic!("expected an installation, got {other:?}"),
    }
    assert_eq!(adapter.next_sequence(), 4);
}

#[test]
fn unsupported_breakpoint_features_are_refused_in_order() {
    let mut adapter = launched();
    let mut arguments = breakpoints_arguments(Some("/p/a.c"), &[3, 4, 5]);
    arguments.breakpoints[1].log_message = Some("x".to_owned());
    arguments.breakpoints[2].condition = Some("i > 1".to_owned());

    let message = respond_breakpoints(
        adapter.begin_set_breakpoints(&request(3, "setBreakpoints"), ArgumentsInput::Valid(arguments)),
    );
    assert_eq!(message, error(4, 3, "setBreakpoints", "log points are not supported"));

    let mut arguments = breakpoints_arguments(Some("/p/a.c"), &[3]);
    arguments.breakpoints[0].condition = Some("i > 1".to_owned());
    arguments.breakpoints[0].hit_condition = Some("2".to_owned());
    let message = respond_breakpoints(
        adapter.begin_set_breakpoints(&request(4, "setBreakpoints"), ArgumentsInput::Valid(arguments)),
    );
    assert_eq!(message, error(5, 4, "setBreakpoints", "conditional breakpoints are not supported"));

    let mut arguments = breakpoints_arguments(Some("/p/a.c"), &[3]);
    arguments.breakpoints[0].hit_condition = Some("2".to_owned());
    let message = respond_breakpoints(
        adapter.begin_set_breakpoints(&request(5, "setBreakpoints"), ArgumentsInput::Valid(arguments)),
    );
    assert_eq!(
        message,
        error(6, 5, "setBreakpoints", "hit conditional breakpoints are not supported")
    );
}

#[test]
fn set_breakpoints_needs_a_session() {
    let mut adapter = AdapterCore::in_state(AdapterState::Stopped);

    let message = respond_breakpoints(adapter.begin_set_breakpoints(
        &request(1, "setBreakpoints"),
        ArgumentsInput::Valid(breakpoints_arguments(Some("/p/a.c"), &[3])),
    ));

    assert_eq!(message, error(1, 1, "setBreakpoints", "GDB session is not available"));
}

#[test]
fn invalid_set_breakpoints_arguments_are_reported() {
    let mut adapter = AdapterCore::in_state(AdapterState::Configured);

    let message = respond_breakpoints(adapter.begin_set_breakpoints(
        &request(1, "setBreakpoints"),
        ArgumentsInput::Invalid("missing field `source`".to_owned()),
    ));

    assert_eq!(
        message,
        error(1, 1, "setBreakpoints", "invalid setBreakpoints arguments: missing field `source`")
    );
}

#[test]
fn set_breakpoints_reports_dap_breakpoints() {
    let mut adapter = launched();
    let set = request(3, "setBreakpoints");
    let gdb = vec![
        GdbBreakpoint {
            number: Some(1),
            source: "/p/a.c".to_owned(),
            line: 3,
            verified: true,
            function: Some("main".to_owned()),
            resolved_file: Some("/build/p/a.c".to_owned()),
            address: Some("0x10".to_owned()),
            message: None,
        },
        GdbBreakpoint::unverified("/p/a.c", 4, "No line 4 in file."),
    ];

    let message = adapter.finish_set_breakpoints(&set, Ok(gdb));

    let expected = vec![
        DapBreakpoint {
            id: Some(1),
            verified: true,
            message: None,
            source: Some(DapSource { name: Some("a.c".to_owned()), path: Some("/build/p/a.c".to_owned()) }),
            line: Some(3),
            instruction_reference: Some("0x10".to_owned()),
        },
        DapBreakpoint {
            id: None,
            verified: false,
            message: Some("No line 4 in file.".to_owned()),
            source: Some(DapSource { name: Some("a.c".to_owned()), path: Some("/p/a.c".to_owned()) }),
            line: Some(4),
            instruction_reference: None,
        },
    ];
    assert_eq!(message, success(4, 3, "setBreakpoints", MessageBody::Breakpoints(expected)));

    let failed = adapter.finish_set_breakpoints(&set, Err("GDB process error".to_owned()));
    assert_eq!(
        failed,
        error(5, 3, "setBreakpoints", "failed to set source breakpoints: GDB process error")
    );
}

#[test]
fn configuration_done_needs_a_session() {
    let mut adapter = AdapterCore::in_state(AdapterState::Connected);

    let message = respond_configuration(adapter.begin_configuration_done(&request(1, "configurationDone")));

    assert_eq!(message, error(1, 1, "configurationDone", "GDB session is not available"));
    assert_eq!(adapter.state(), AdapterState::Connected);
}

#[test]
fn configuration_done_starts_inferior_and_reports_initial_events() {
    let mut adapter = launched();
    let done = request(3, "configurationDone");
    assert!(matches!(adapter.begin_configuration_done(&done), ConfigurationStep::Run));
    assert_eq!(adapter.state(), AdapterState::Configured);

    let events = vec![
        GdbSessionEvent::TargetOutput("hello\n".to_owned()),
        GdbSessionEvent::AsyncRecord { class: "thread-created".to_owned() },
        GdbSessionEvent::Stopped {
            reason: GdbStopReason::Breakpoint { breakpoint_number: Some(2) },
            thread_id: Some(3),
            frame: None,
        },
    ];
    let messages = adapter.finish_configuration_done(&done, Ok(events));

    assert_eq!(
        messages,
        vec![
            success(4, 3, "configurationDone", MessageBody::Empty),
            output(5, "stdout", "hello\n"),
            event(
                6,
                "stopped",
                MessageBody::Stopped(StoppedEventBody {
                    reason: "breakpoint".to_owned(),
                    thread_id: 3,
                    all_threads_stopped: true,
                    description: None,
                    hit_breakpoint_ids: Some(vec![2]),
                })
            ),
        ]
    );
    assert_eq!(adapter.state(), AdapterState::Stopped);
}

#[test]
fn failed_start_returns_to_connected() {
    let mut adapter = launched();
    let done = request(3, "configurationDone");
    adapter.begin_configuration_done(&done);

    let messages = adapter.finish_configuration_done(&done, Err("The program is not being run.".to_owned()));

    assert_eq!(
        messages,
        vec![error(4, 3, "configurationDone", "failed to start QNX inferior: The program is not being run.")]
    );
    assert_eq!(adapter.state(), AdapterState::Connected);
}

#[test]
fn polls_only_while_inferior_runs_or_stops() {
    assert!(!launched().wants_gdb_events());
    assert!(running().wants_gdb_events());
    assert!(!AdapterCore::in_state(AdapterState::Running).wants_gdb_events());
}

#[test]
fn stop_reasons_become_stopped_events() {
    let mut adapter = running();
    let first = adapter.next_sequence();

    let signal = adapter.session_event(GdbSessionEvent::Stopped {
        reason: GdbStopReason::Signal {
            name: Some("SIGSEGV".to_owned()),
            meaning: Some("Segmentation fault".to_owned()),
        },
        thread_id: None,
        frame: None,
    });
    assert_eq!(
        signal,
        vec![event(
            first,
            "stopped",
            MessageBody::Stopped(StoppedEventBody {
                reason: "exception".to_owned(),
                thread_id: 1,
                all_threads_stopped: true,
                description: Some("SIGSEGV: Segmentation fault".to_owned()),
                hit_breakpoint_ids: None,
            })
        )]
    );

    let step = adapter.session_event(GdbSessionEvent::Stopped {
        reason: GdbStopReason::Step,
        thread_id: Some(2),
        frame: None,
    });
    assert!(matches!(&step[0], AdapterMessage::Event { body: MessageBody::Stopped(b), .. } if b.reason == "step" && b.thread_id == 2));

    let unknown = adapter.session_event(GdbSessionEvent::Stopped {
        reason: GdbStopReason::Unknown { reason: Some("watchpoint-trigger".to_owned()) },
        thread_id: Some(1),
        frame: None,
    });
    assert!(matches!(&unknown[0], AdapterMessage::Event { body: MessageBody::Stopped(b), .. }
        if b.reason == "pause" && b.description.as_deref() == Some("watchpoint-trigger")));
    assert_eq!(adapter.state(), AdapterState::Stopped);
}

#[test]
fn exit_reports_code_then_terminates() {
    let mut adapter = running();
    let first = adapter.next_sequence();

    let messages = adapter.session_event(GdbSessionEvent::Stopped {
        reason: GdbStopReason::Exited { exit_code: None },
        thread_id: None,
        frame: None,
    });

    assert_eq!(
        messages,
        vec![
            event(first, "exited", MessageBody::Exited { exit_code: 0 }),
            event(first + 1, "terminated", MessageBody::Empty),
        ]
    );
    assert_eq!(adapter.state(), AdapterState::Terminated);
}

#[test]
fn signalled_exit_reports_signal_and_code_one() {
    let mut adapter = running();
    let first = adapter.next_sequence();

    let messages = adapter.session_event(GdbSessionEvent::Stopped {
        reason: GdbStopReason::ExitedSignalled { signal_name: Some("SIGKILL".to_owned()) },
        thread_id: None,
        frame: None,
    });

    assert_eq!(
        messages,
        vec![
            output(first, "stderr", "Inferior exited because of signal SIGKILL\n"),
            event(first + 1, "exited", MessageBody::Exited { exit_code: 1 }),
            event(first + 2, "terminated", MessageBody::Empty),
        ]
    );
}

#[test]
fn late_results_and_streams_become_output() {
    let mut adapter = running();
    let first = adapter.next_sequence();

    let late = adapter.session_event(GdbSessionEvent::LateResult {
        token: Some(4),
        class: "error".to_owned(),
        message: Some("The program is not being run.".to_owned()),
    });
    assert_eq!(late, vec![output(first, "stderr", "GDB execution result error: The program is not being run.\n")]);

    let bare = adapter.session_event(GdbSessionEvent::LateResult { token: None, class: "done".to_owned(), message: None });
    assert_eq!(bare, vec![output(first + 1, "stderr", "GDB execution result: done\n")]);

    let console = adapter.session_event(GdbSessionEvent::ConsoleOutput("x\n".to_owned()));
    assert_eq!(console, vec![output(first + 2, "console", "x\n")]);

    let diagnostic = adapter.session_event(GdbSessionEvent::DiagnosticOutput("w\n".to_owned()));
    assert_eq!(diagnostic, vec![output(first + 3, "stderr", "w\n")]);

    assert!(adapter.session_event(GdbSessionEvent::AsyncRecord { class: "running".to_owned() }).is_empty());
    assert_eq!(adapter.state(), AdapterState::Running);
}

#[test]
fn gdb_polls_decide_whether_to_continue() {
    let mut adapter = running();
    let first = adapter.next_sequence();

    assert_eq!(adapter.on_gdb_poll(GdbPoll::Pending), (Vec::new(), false));

    let (messages, again) = adapter.on_gdb_poll(GdbPoll::Event(GdbSessionEvent::TargetOutput("o".to_owned())));
    assert_eq!(messages, vec![output(first, "stdout", "o")]);
    assert!(again);

    let (messages, again) = adapter.on_gdb_poll(GdbPoll::Failed("broken pipe".to_owned()));
    assert_eq!(
        messages,
        vec![
            output(first + 1, "stderr", "GDB event error: broken pipe\n"),
            event(first + 2, "terminated", MessageBody::Empty),
        ]
    );
    assert!(!again);
    assert_eq!(adapter.state(), AdapterState::Terminated);
}

#[test]
fn gdb_end_of_file_terminates() {
    let mut adapter = running();
    let first = adapter.next_sequence();

    let (messages, again) = adapter.on_gdb_poll(GdbPoll::EndOfFile);

    assert_eq!(messages, vec![event(first, "terminated", MessageBody::Empty)]);
    assert!(!again);
    assert_eq!(adapter.state(), AdapterState::Terminated);
}

#[test]
fn disconnect_shuts_session_down() {
    let mut adapter = running();
    let disconnect = request(9, "disconnect");

    let step = adapter.begin_disconnect(&disconnect, ArgumentsInput::Missing);
    assert_eq!(step, DisconnectStep::Close { shutdown_session: true });

    let first = adapter.next_sequence();
    let failed = adapter.finish_disconnect(&disconnect, Err("GDB process error".to_owned()));
    assert_eq!(
        failed,
        vec![error(first, 9, "disconnect", "failed to shut down GDB session: GDB process error")]
    );
    assert!(adapter.session_open());
    assert_eq!(adapter.state(), AdapterState::Running);

    let messages = adapter.finish_disconnect(&disconnect, Ok(()));
    assert_eq!(messages[0], success(first + 1, 9, "disconnect", MessageBody::Empty));
    assert!(!adapter.session_open());
    assert_eq!(adapter.state(), AdapterState::Terminated);
}

#[test]
fn invalid_disconnect_arguments_are_reported() {
    let mut adapter = initialized();

    let message = respond_disconnect(adapter.begin_disconnect(
        &request(2, "disconnect"),
        ArgumentsInput::Invalid("invalid type: string \"yes\", expected a boolean".to_owned()),
    ));

    assert_eq!(
        message,
        error(3, 2, "disconnect", "invalid disconnect arguments: invalid type: string \"yes\", expected a boolean")
    );
}

#[test]
fn closing_input_reports_open_session() {
    let mut adapter = running();
    assert!(adapter.close_input());
    assert_eq!(adapter.state(), AdapterState::Disconnected);
    assert!(!adapter.session_open());
    assert!(!adapter.close_input());
}

#[test]
fn message_counts_match_what_events_send() {
    let signalled = GdbSessionEvent::Stopped {
        reason: GdbStopReason::ExitedSignalled { signal_name: Some("SIGKILL".to_owned()) },
        thread_id: None,
        frame: None,
    };
    assert_eq!(event_message_count(&signalled), 3);
    assert_eq!(event_message_count(&GdbSessionEvent::AsyncRecord { class: "x".to_owned() }), 0);
    assert_eq!(poll_message_count(&GdbPoll::Pending), 0);
    assert_eq!(poll_message_count(&GdbPoll::Failed("e".to_owned())), 2);

    let mut adapter = running();
    assert_eq!(adapter.session_event(signalled).len(), 3);
}

#[test]
fn numbering_continues_across_requests_and_polls() {
    let mut adapter = AdapterCore::new();
    let mut messages = adapter.handle_initialize(&request(1, "initialize"));
    let launch = request(2, "launch");
    adapter.begin_launch(&launch, ArgumentsInput::Valid(launch_arguments()));
    messages.push(adapter.finish_launch(&launch, Ok(())));
    let done = request(3, "configurationDone");
    adapter.begin_configuration_done(&done);
    messages.extend(adapter.finish_configuration_done(&done, Ok(vec![GdbSessionEvent::ConsoleOutput("c".to_owned())])));
    messages.extend(adapter.on_gdb_poll(GdbPoll::Event(GdbSessionEvent::TargetOutput("t".to_owned()))).0);
    messages.push(adapter.reject_unsupported(&request(4, "threads")));

    let sequences = messages.iter().map(message_seq).collect::<Vec<_>>();
    assert_eq!(sequences, vec![1, 2, 3, 4, 5, 6, 7]);
    let answered = messages
        .iter()
        .filter_map(|m| match m {
            AdapterMessage::Response { request_seq, .. } => Some(*request_seq),
            AdapterMessage::Event { .. } => None,
        })
        .collect::<Vec<_>>();
    assert_eq!(answered, vec![1, 2, 3, 4]);
}
