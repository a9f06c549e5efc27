use qnx_gdb_dap::commands;
use qnx_gdb_dap::{MiCommand, MiTokenGenerator};

#[test]
fn encodes_command_without_arguments() {
    let command = MiCommand::new("gdb-version").with_token(12);

    assert_eq!(command.encode().expect("command should encode"), "12-gdb-version");
}

#[test]
fn encodes_raw_and_string_arguments() {
    let command = MiCommand::new("target-select")
        .with_token(3)
        .raw_argument("qnx")
        .string_argument("192.168.1.20:8000");

    assert_eq!(
        command.encode().expect("command should encode"),
        r#"3-target-select qnx "192.168.1.20:8000""#
    );
}

#[test]
fn escapes_string_argument() {
    let command = MiCommand::new("data-evaluate-expression")
        .with_token(7)
        .string_argument("object.field[\"name\"]\n");

    assert_eq!(
        command.encode().expect("command should encode"),
        r#"7-data-evaluate-expression "object.field[\"name\"]\n""#
    );
}

#[test]
fn escapes_windows_style_path() {
    let command = commands::file_exec_and_symbols(1, r"C:\project\build\application");

    assert_eq!(
        command.encode().expect("command should encode"),
        r#"1-file-exec-and-symbols "C:\\project\\build\\application""#
    );
}

#[test]
fn generates_monotonic_tokens() {
    let mut generator = MiTokenGenerator::new();

    assert_eq!(generator.next_token(), 1);
    assert_eq!(generator.next_token(), 2);
    assert_eq!(generator.next_token(), 3);
}

#[test]
fn creates_file_exec_and_symbols_command() {
    let command = commands::file_exec_and_symbols(1, "/home/user/project/build/app");

    assert_eq!(
        command.encode().expect("command should encode"),
        r#"1-file-exec-and-symbols "/home/user/project/build/app""#
    );
}

#[test]
fn creates_target_select_qnx_command() {
    let command = commands::target_select_qnx(2, "192.168.1.20:8000");

    assert_eq!(
        command.encode().expect("command should encode"),
        r"2-target-select qnx 192.168.1.20:8000"
    );
}

#[test]
fn creates_break_insert_command() {
    let command = commands::break_insert(3, "/project/src/main.cpp:42");

    assert_eq!(
        command.encode().expect("command should encode"),
        r#"3-break-insert "/project/src/main.cpp:42""#
    );
}

#[test]
fn creates_break_delete_command() {
    let command = commands::break_delete(4, &[1, 7, 12]);

    assert_eq!(command.encode().expect("command should encode"), "4-break-delete 1 7 12");
}

#[test]
fn creates_execution_commands() {
    assert_eq!(commands::exec_run(1).encode().expect("command should encode"), "1-exec-run");
    assert_eq!(
        commands::exec_continue(2).encode().expect("command should encode"),
        "2-exec-continue"
    );
    assert_eq!(commands::exec_next(3).encode().expect("command should encode"), "3-exec-next");
    assert_eq!(commands::exec_step(4).encode().expect("command should encode"), "4-exec-step");
    assert_eq!(
        commands::exec_finish(5).encode().expect("command should encode"),
        "5-exec-finish"
    );
    assert_eq!(
        commands::exec_interrupt(6).encode().expect("command should encode"),
        "6-exec-interrupt"
    );
}

#[test]
fn creates_stack_commands() {
    assert_eq!(
        commands::stack_list_frames(1).encode().expect("command should encode"),
        "1-stack-list-frames"
    );
    assert_eq!(
        commands::stack_list_locals(2, 1).encode().expect("command should encode"),
        "2-stack-list-locals 1"
    );
    assert_eq!(
        commands::stack_list_arguments(3, 1).encode().expect("command should encode"),
        "3-stack-list-arguments 1"
    );
}

#[test]
fn creates_qnx_upload_command() {
    let command =
        commands::qnx_upload(4, "/home/user/build/application", "/dev/shmem/application");

    assert_eq!(
        command.encode().expect("command should encode"),
        r#"4-interpreter-exec console "upload \"/home/user/build/application\" \"/dev/shmem/application\"""#
    );
}

#[test]
fn creates_qnx_set_executable_command() {
    let command = commands::qnx_set_executable(5, "/opt/application/bin/app");

    assert_eq!(
        command.encode().expect("command should encode"),
        r#"5-interpreter-exec console "set nto-executable \"/opt/application/bin/app\"""#
    );
}

#[test]
fn quotes_console_paths_containing_spaces() {
    let command = commands::qnx_upload(1, "/home/user/my project/app", "/dev/shmem/my app");

    assert_eq!(
        command.encode().expect("command should encode"),
        r#"1-interpreter-exec console "upload \"/home/user/my project/app\" \"/dev/shmem/my app\"""#
    );
}

#[test]
fn creates_data_evaluate_expression_command() {
    let command = commands::data_evaluate_expression(9, "counter + 1");

    assert_eq!(
        command.encode().expect("command should encode"),
        r#"9-data-evaluate-expression "counter + 1""#
    );
}

#[test]
fn creates_var_create_command() {
    let command = commands::var_create(10, "watch_1", "*", "object.member");

    assert_eq!(
        command.encode().expect("command should encode"),
        r#"10-var-create "watch_1" * "object.member""#
    );
}

#[test]
fn creates_var_list_children_command() {
    let command = commands::var_list_children(11, 1, "watch_1");

    assert_eq!(
        command.encode().expect("command should encode"),
        r#"11-var-list-children 1 "watch_1""#
    );
}

#[test]
fn creates_console_command() {
    let command = commands::interpreter_exec_console(12, "info threads");

    assert_eq!(
        command.encode().expect("command should encode"),
        r#"12-interpreter-exec console "info threads""#
    );
}

#[test]
fn creates_gdb_exit_command() {
    assert_eq!(commands::gdb_exit(9).encode().expect("command should encode"), "9-gdb-exit");
}

#[test]
fn encodes_negative_integer_argument() {
    let command = MiCommand::new("stack-list-locals").with_token(2).integer_argument(-1);

    assert_eq!(command.encode().expect("command should encode"), "2-stack-list-locals -1");
}

#[test]
fn encodes_command_without_token() {
    let command = MiCommand::new("gdb-version");

    assert_eq!(command.token(), None);
    assert_eq!(command.operation(), "gdb-version");
    assert_eq!(command.encode().expect("command should encode"), "-gdb-version");
}

#[test]
fn escapes_control_characters_in_octal() {
    let command = MiCommand::new("echo").with_token(1).string_argument("a\u{1}b\tc");

    assert_eq!(command.encode().expect("command should encode"), r#"1-echo "a\001b\tc""#);
}

#[test]
fn token_generator_peek_does_not_advance() {
    let mut generator = MiTokenGenerator::new();

    assert_eq!(generator.peek(), 1);
    assert_eq!(generator.peek(), 1);
    assert_eq!(generator.next_token(), 1);
    assert_eq!(generator.peek(), 2);
}

#[test]
fn console_arguments_escape_quotes_and_backslashes() {
    assert_eq!(commands::quote_console_argument("a \"b\"\\c\td\n"), r#""a \"b\"\\c\td\n""#);
    assert_eq!(commands::quote_console_argument(""), "\"\"");
}
