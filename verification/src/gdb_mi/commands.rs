//! Common GDB/MI commands used by the debug adapter.

use vstd::prelude::*;

use super::command::{MiCommand, SpecMiArgument, SpecMiCommand};
use super::strings::{decimal, push_char, push_decimal, push_str};

verus! {

/// A command with a token, an operation and arguments.
pub open spec fn spec_command(token: u64, operation: Seq<char>, arguments: Seq<SpecMiArgument>) -> SpecMiCommand {
    SpecMiCommand { token: Some(token), operation, arguments }
}

/// How one character is written inside a quoted console argument.
pub open spec fn console_char(c: char) -> Seq<char> {
    if c == '\\' {
        seq!['\\', '\\']
    } else if c == '"' {
        seq!['\\', '"']
    } else if c == '\n' {
        seq!['\\', 'n']
    } else if c == '\r' {
        seq!['\\', 'r']
    } else if c == '\t' {
        seq!['\\', 't']
    } else {
        seq![c]
    }
}

/// The escaped characters of a quoted console argument.
pub open spec fn console_body(s: Seq<char>) -> Seq<char>
    decreases s.len(),
{
    if s.len() == 0 {
        Seq::empty()
    } else {
        console_body(s.drop_last()) + console_char(s.last())
    }
}

/// A value quoted for a console command line.
pub open spec fn console_quoted(s: Seq<char>) -> Seq<char> {
    seq!['"'] + console_body(s) + seq!['"']
}

/// Raw decimal arguments for breakpoint numbers.
pub open spec fn number_arguments(numbers: Seq<u64>) -> Seq<SpecMiArgument> {
    numbers.map_values(|n: u64| SpecMiArgument::Raw(decimal(n as nat)))
}

/// Creates `-gdb-version`.
pub fn gdb_version(token: u64) -> (res: MiCommand)
    ensures
        res@ == spec_command(token, "gdb-version"@, Seq::empty()),
{
    MiCommand::new("gdb-version").with_token(token)
}

/// Creates `-gdb-exit`.
pub fn gdb_exit(token: u64) -> (res: MiCommand)
    ensures
        res@ == spec_command(token, "gdb-exit"@, Seq::empty()),
{
    MiCommand::new("gdb-exit").with_token(token)
}

/// Creates `-file-exec-and-symbols`.
pub fn file_exec_and_symbols(token: u64, executable: &str) -> (res: MiCommand)
    ensures
        res@ == spec_command(
            token,
            "file-exec-and-symbols"@,
            seq![SpecMiArgument::Quoted(executable@)],
        ),
{
    let res = MiCommand::new("file-exec-and-symbols").with_token(token).string_argument(executable);
    assert(res@.arguments =~= seq![SpecMiArgument::Quoted(executable@)]);
    res
}

/// Creates `-target-select qnx HOST`.
pub fn target_select_qnx(token: u64, target: &str) -> (res: MiCommand)
    ensures
        res@ == spec_command(
            token,
            "target-select"@,
            seq![SpecMiArgument::Raw("qnx"@), SpecMiArgument::Raw(target@)],
        ),
{
    let res = MiCommand::new("target-select").with_token(token).raw_argument("qnx").raw_argument(
        target,
    );
    assert(res@.arguments =~= seq![SpecMiArgument::Raw("qnx"@), SpecMiArgument::Raw(target@)]);
    res
}

/// Creates `-break-insert LOCATION`.
pub fn break_insert(token: u64, location: &str) -> (res: MiCommand)
    ensures
        res@ == spec_command(token, "break-insert"@, seq![SpecMiArgument::Quoted(location@)]),
{
    let res = MiCommand::new("break-insert").with_token(token).string_argument(location);
    assert(res@.arguments =~= seq![SpecMiArgument::Quoted(location@)]);
    res
}

/// Creates `-break-delete NUMBER...`.
pub fn break_delete(token: u64, breakpoint_numbers: &[u64]) -> (res: MiCommand)
    ensures
        res@ == spec_command(token, "break-delete"@, number_arguments(breakpoint_numbers@)),
{
    let mut command = MiCommand::new("break-delete").with_token(token);
    let mut i: usize = 0;
    assert(number_arguments(breakpoint_numbers@.take(0)) =~= Seq::empty());
    while i < breakpoint_numbers.len()
        invariant
            i <= breakpoint_numbers.len(),
            command@ == spec_command(
                token,
                "break-delete"@,
                number_arguments(breakpoint_numbers@.take(i as int)),
            ),
        decreases breakpoint_numbers.len() - i,
    {
        let mut text = String::new();
        push_decimal(&mut text, breakpoint_numbers[i]);
        command = command.raw_argument(text.as_str());
        assert(number_arguments(breakpoint_numbers@.take(i + 1)) =~= number_arguments(
            breakpoint_numbers@.take(i as int),
        ).push(SpecMiArgument::Raw(decimal(breakpoint_numbers@[i as int] as nat))));
        i = i + 1;
    }
    assert(breakpoint_numbers@.take(breakpoint_numbers.len() as int) =~= breakpoint_numbers@);
    command
}

/// The console command that uploads a local executable to the target.
pub open spec fn upload_command(local_program: Seq<char>, remote_program: Seq<char>) -> Seq<char> {
    "upload "@ + console_quoted(local_program) + seq![' '] + console_quoted(remote_program)
}

/// The console command that selects an existing target executable.
pub open spec fn set_executable_command(remote_program: Seq<char>) -> Seq<char> {
    "set nto-executable "@ + console_quoted(remote_program)
}

/// Creates a QNX GDB command that uploads a local executable to the target.
pub fn qnx_upload(token: u64, local_program: &str, remote_program: &str) -> (res: MiCommand)
    ensures
        res@ == spec_command(
            token,
            "interpreter-exec"@,
            seq![
                SpecMiArgument::Raw("console"@),
                SpecMiArgument::Quoted(upload_command(local_program@, remote_program@)),
            ],
        ),
{
    let mut command = String::new();
    push_str(&mut command, "upload ");
    quote_console_argument_into(&mut command, local_program);
    push_char(&mut command, ' ');
    quote_console_argument_into(&mut command, remote_program);
    assert(command@ =~= upload_command(local_program@, remote_program@));
    interpreter_exec_console(token, command.as_str())
}

/// Creates a QNX GDB command that selects an existing target executable.
pub fn qnx_set_executable(token: u64, remote_program: &str) -> (res: MiCommand)
    ensures
        res@ == spec_command(
            token,
            "interpreter-exec"@,
            seq![
                SpecMiArgument::Raw("console"@),
                SpecMiArgument::Quoted(set_executable_command(remote_program@)),
            ],
        ),
{
    let mut command = String::new();
    push_str(&mut command, "set nto-executable ");
    quote_console_argument_into(&mut command, remote_program);
    assert(command@ =~= set_executable_command(remote_program@));
    interpreter_exec_console(token, command.as_str())
}

/// Appends the escaped form of one console character.
fn push_console_char(output: &mut String, character: char)
    ensures
        final(output)@ == old(output)@ + console_char(character),
{
    if character == '\\' {
        push_str(output, "\\\\");
        proof { reveal_strlit("\\\\"); }
    } else if character == '"' {
        push_str(output, "\\\"");
        proof { reveal_strlit("\\\""); }
    } else if character == '\n' {
        push_str(output, "\\n");
        proof { reveal_strlit("\\n"); }
    } else if character == '\r' {
        push_str(output, "\\r");
        proof { reveal_strlit("\\r"); }
    } else if character == '\t' {
        push_str(output, "\\t");
        proof { reveal_strlit("\\t"); }
    } else {
        push_char(output, character);
    }
}

/// Appends `value` quoted for a console command line.
fn quote_console_argument_into(output: &mut String, value: &str)
    ensures
        final(output)@ == old(output)@ + console_quoted(value@),
{
    push_char(output, '"');
    let ghost start = output@;
    for character in it: value.chars()
        invariant
            it.seq() == value@,
            output@ == start + console_body(it.seq().take(it.index() as int)),
    {
        assert(it.seq().take(it.index() + 1).drop_last() =~= it.seq().take(it.index() as int));
        push_console_char(output, character);
    }
    assert(value@.take(value@.len() as int) =~= value@);
    push_char(output, '"');
    assert(final(output)@ =~= old(output)@ + console_quoted(value@));
}

/// Quotes a value for a console command line, escaping backslashes, quotes,
/// newlines, carriage returns and tabs.
pub fn quote_console_argument(value: &str) -> (res: String)
    ensures
        res@ == console_quoted(value@),
{
    let mut output = String::new();
    quote_console_argument_into(&mut output, value);
    output
}

/// Creates `-exec-run`.
pub fn exec_run(token: u64) -> (res: MiCommand)
    ensures
        res@ == spec_command(token, "exec-run"@, Seq::empty()),
{
    MiCommand::new("exec-run").with_token(token)
}

/// Creates `-exec-continue`.
pub fn exec_continue(token: u64) -> (res: MiCommand)
    ensures
        res@ == spec_command(token, "exec-continue"@, Seq::empty()),
{
    MiCommand::new("exec-continue").with_token(token)
}

/// Creates `-exec-next`.
pub fn exec_next(token: u64) -> (res: MiCommand)
    ensures
        res@ == spec_command(token, "exec-next"@, Seq::empty()),
{
    MiCommand::new("exec-next").with_token(token)
}

/// Creates `-exec-step`.
pub fn exec_step(token: u64) -> (res: MiCommand)
    ensures
        res@ == spec_command(token, "exec-step"@, Seq::empty()),
{
    MiCommand::new("exec-step").with_token(token)
}

/// Creates `-exec-finish`.
pub fn exec_finish(token: u64) -> (res: MiCommand)
    ensures
        res@ == spec_command(token, "exec-finish"@, Seq::empty()),
{
    MiCommand::new("exec-finish").with_token(token)
}

/// Creates `-exec-interrupt`.
pub fn exec_interrupt(token: u64) -> (res: MiCommand)
    ensures
        res@ == spec_command(token, "exec-interrupt"@, Seq::empty()),
{
    MiCommand::new("exec-interrupt").with_token(token)
}

/// Creates `-stack-list-frames`.
pub fn stack_list_frames(token: u64) -> (res: MiCommand)
    ensures
        res@ == spec_command(token, "stack-list-frames"@, Seq::empty()),
{
    MiCommand::new("stack-list-frames").with_token(token)
}

/// Creates `-stack-list-locals PRINT_VALUES`.
pub fn stack_list_locals(token: u64, print_values: i64) -> (res: MiCommand)
    ensures
        res@ == spec_command(
            token,
            "stack-list-locals"@,
            seq![SpecMiArgument::Integer(print_values as int)],
        ),
{
    let res = MiCommand::new("stack-list-locals").with_token(token).integer_argument(print_values);
    assert(res@.arguments =~= seq![SpecMiArgument::Integer(print_values as int)]);
    res
}

/// Creates `-stack-list-arguments PRINT_VALUES`.
pub fn stack_list_arguments(token: u64, print_values: i64) -> (res: MiCommand)
    ensures
        res@ == spec_command(
            token,
            "stack-list-arguments"@,
            seq![SpecMiArgument::Integer(print_values as int)],
        ),
{
    let res = MiCommand::new("stack-list-arguments").with_token(token).integer_argument(
        print_values,
    );
    assert(res@.arguments =~= seq![SpecMiArgument::Integer(print_values as int)]);
    res
}

/// Creates `-data-evaluate-expression EXPRESSION`.
pub fn data_evaluate_expression(token: u64, expression: &str) -> (res: MiCommand)
    ensures
        res@ == spec_command(
            token,
            "data-evaluate-expression"@,
            seq![SpecMiArgument::Quoted(expression@)],
        ),
{
    let res = MiCommand::new("data-evaluate-expression").with_token(token).string_argument(
        expression,
    );
    assert(res@.arguments =~= seq![SpecMiArgument::Quoted(expression@)]);
    res
}

/// Creates `-var-create NAME FRAME EXPRESSION`.
pub fn var_create(token: u64, name: &str, frame: &str, expression: &str) -> (res: MiCommand)
    ensures
        res@ == spec_command(
            token,
            "var-create"@,
            seq![
                SpecMiArgument::Quoted(name@),
                SpecMiArgument::Raw(frame@),
                SpecMiArgument::Quoted(expression@),
            ],
        ),
{
    let res = MiCommand::new("var-create").with_token(token).string_argument(name).raw_argument(
        frame,
    ).string_argument(expression);
    assert(res@.arguments =~= seq![
        SpecMiArgument::Quoted(name@),
        SpecMiArgument::Raw(frame@),
        SpecMiArgument::Quoted(expression@),
    ]);
    res
}

/// Creates `-var-list-children PRINT_VALUES NAME`.
pub fn var_list_children(token: u64, print_values: i64, name: &str) -> (res: MiCommand)
    ensures
        res@ == spec_command(
            token,
            "var-list-children"@,
            seq![SpecMiArgument::Integer(print_values as int), SpecMiArgument::Quoted(name@)],
        ),
{
    let res = MiCommand::new("var-list-children").with_token(token).integer_argument(
        print_values,
    ).string_argument(name);
    assert(res@.arguments =~= seq![
        SpecMiArgument::Integer(print_values as int),
        SpecMiArgument::Quoted(name@),
    ]);
    res
}

/// Creates `-interpreter-exec console COMMAND`.
pub fn interpreter_exec_console(token: u64, console_command: &str) -> (res: MiCommand)
    ensures
        res@ == spec_command(
            token,
            "interpreter-exec"@,
            seq![SpecMiArgument::Raw("console"@), SpecMiArgument::Quoted(console_command@)],
        ),
{
    let res = MiCommand::new("interpreter-exec").with_token(token).raw_argument(
        "console",
    ).string_argument(console_command);
    assert(res@.arguments =~= seq![
        SpecMiArgument::Raw("console"@),
        SpecMiArgument::Quoted(console_command@),
    ]);
    res
}

} // verus!
