use vstd::prelude::*;

use super::breakpoint::{GdbBreakpoint, SourceBreakpoint};
use super::command::{MiCommand, SpecMiArgument};
use super::commands::{
    file_exec_and_symbols, gdb_version, qnx_set_executable, qnx_upload, set_executable_command,
    spec_command, target_select_qnx, upload_command,
};
use super::deployment::{GdbDeployment, GdbDeploymentResult};
use super::record::{MiRecord, MiResultRecord};
use super::strings::{decimal, push_char, push_decimal, push_str, str_equal};
use super::value::{find_result, first_named, MiResult, MiValue};
use super::parser_spec::digits_value;
use crate::text::{
    all_digits, all_whitespace, contains_char, contains_whitespace, has_whitespace, is_all_whitespace,
    parse_unsigned, parse_unsigned_str,
};

verus! {

/// Configuration of a remote QNX debugging session. Paths are held as the
/// UTF-8 text exchanged with the DAP client.
#[derive(Debug, Clone, PartialEq, Eq)]
pub struct GdbSessionConfig {
    /// Path to `ntoarm-gdb`.
    pub gdb_executable: String,
    /// Local executable containing debug symbols.
    pub program: String,
    /// QNX remote target in `HOST:PORT` form.
    pub target: String,
    /// Method used to prepare the target executable.
    pub deployment: GdbDeployment,
    /// Optional working directory for the GDB host process.
    pub working_directory: Option<String>,
    /// Additional command-line arguments passed to GDB.
    pub gdb_arguments: Vec<String>,
}

impl GdbSessionConfig {
    /// Creates a QNX GDB session configuration.
    pub fn new(gdb_executable: &str, program: &str, target: &str, deployment: GdbDeployment) -> (res: GdbSessionConfig)
        ensures
            res.gdb_executable@ == gdb_executable@,
            res.program@ == program@,
            res.target@ == target@,
            res.deployment == deployment,
            res.working_directory is None,
            res.gdb_arguments@.len() == 0,
    {
        GdbSessionConfig {
            gdb_executable: gdb_executable.to_owned(),
            program: program.to_owned(),
            target: target.to_owned(),
            deployment,
            working_directory: None,
            gdb_arguments: Vec::new(),
        }
    }

    /// Sets the working directory of the host GDB process.
    pub fn working_directory(self, working_directory: &str) -> (res: GdbSessionConfig)
        ensures
            res.gdb_executable == self.gdb_executable,
            res.program == self.program,
            res.target == self.target,
            res.deployment == self.deployment,
            res.working_directory matches Some(w) && w@ == working_directory@,
            res.gdb_arguments == self.gdb_arguments,
    {
        GdbSessionConfig { working_directory: Some(working_directory.to_owned()), ..self }
    }

    /// Appends an argument passed directly to GDB.
    pub fn gdb_argument(self, argument: &str) -> (res: GdbSessionConfig)
        ensures
            res.gdb_executable == self.gdb_executable,
            res.program == self.program,
            res.target == self.target,
            res.deployment == self.deployment,
            res.working_directory == self.working_directory,
            res.gdb_arguments@.drop_last() == self.gdb_arguments@,
            res.gdb_arguments@.len() == self.gdb_arguments@.len() + 1,
            res.gdb_arguments@.last()@ == argument@,
    {
        let mut gdb_arguments = self.gdb_arguments;
        gdb_arguments.push(argument.to_owned());
        GdbSessionConfig {
            gdb_executable: self.gdb_executable,
            program: self.program,
            target: self.target,
            deployment: self.deployment,
            working_directory: self.working_directory,
            gdb_arguments,
        }
    }
}

/// Current state of a GDB session.
#[derive(Debug, Clone, Copy, PartialEq, Eq, Structural)]
pub enum GdbSessionState {
    /// GDB has not been started.
    Created,
    /// GDB has started and reached its first prompt.
    Ready,
    /// The local executable and symbols have been loaded.
    SymbolsLoaded,
    /// GDB is connected to the QNX remote target.
    Connected,
    /// The remote executable has been uploaded or selected.
    Deployed,
    /// GDB has terminated.
    Terminated,
}

/// Records emitted while one initialization command ran.
#[derive(Debug, PartialEq, Eq)]
pub struct GdbSessionOutput {
    /// Records emitted before the initial GDB prompt.
    pub startup_records: Vec<MiRecord>,
    /// Records emitted by `-gdb-version`.
    pub version_events: Vec<super::process::GdbEvent>,
    /// Records emitted while loading the executable.
    pub symbol_events: Vec<super::process::GdbEvent>,
    /// Records emitted while connecting to the remote target.
    pub target_events: Vec<super::process::GdbEvent>,
    /// Records emitted while preparing the target executable.
    pub deployment_events: Vec<super::process::GdbEvent>,
    /// Description of the prepared executable.
    pub deployment: GdbDeploymentResult,
}

/// Error produced while configuring or managing a GDB session.
#[derive(Debug, PartialEq, Eq)]
pub enum GdbSessionError {
    /// A configured file does not exist.
    PathDoesNotExist { description: &'static str, path: String },
    /// A configured path is not a regular file.
    PathIsNotFile { description: &'static str, path: String },
    /// A path is not valid UTF-8.
    NonUtf8Path { description: &'static str, path: String },
    /// The QNX remote target is empty.
    EmptyTarget,
    /// The QNX remote target contains whitespace.
    InvalidTarget { target: String },
    /// GDB reported an error.
    GdbCommand { operation: &'static str, message: String },
    /// GDB returned an unexpected result class.
    UnexpectedResultClass { operation: &'static str, actual: String, expected: Vec<String> },
    /// GDB did not return breakpoint data.
    MissingBreakpointData,
    /// GDB returned malformed breakpoint data.
    InvalidBreakpointData,
    /// The operation is not valid in the current state.
    InvalidSessionState {
        operation: &'static str,
        actual: GdbSessionState,
        expected: Vec<GdbSessionState>,
    },
    /// The remote program path is empty.
    EmptyRemoteProgram,
    /// The remote program path contains a NUL character.
    InvalidRemoteProgram { remote_program: String },
}

/// What the file system reports about a configured path.
#[derive(Debug, Clone, Copy, PartialEq, Eq)]
pub struct FileStatus {
    /// Whether the path exists.
    pub exists: bool,
    /// Whether the path is a regular file.
    pub is_file: bool,
}

/// Checks one configured file from its reported status.
pub fn validate_file(path: &str, description: &'static str, status: FileStatus) -> (res: Result<(), GdbSessionError>)
    ensures
        !status.exists ==> (res matches Err(GdbSessionError::PathDoesNotExist { description: d, path: p })
            && d == description && p@ == path@),
        status.exists && !status.is_file ==> (res matches Err(GdbSessionError::PathIsNotFile { description: d, path: p })
            && d == description && p@ == path@),
        status.exists && status.is_file ==> res is Ok,
{
    if !status.exists {
        return Err(GdbSessionError::PathDoesNotExist { description, path: path.to_owned() });
    }
    if !status.is_file {
        return Err(GdbSessionError::PathIsNotFile { description, path: path.to_owned() });
    }
    Ok(())
}

/// Checks the remote target: it must contain something other than
/// whitespace, and no whitespace at all.
pub fn validate_target(target: &str) -> (res: Result<(), GdbSessionError>)
    ensures
        all_whitespace(target@) ==> res == Err::<(), GdbSessionError>(GdbSessionError::EmptyTarget),
        !all_whitespace(target@) && has_whitespace(target@) ==> (res matches Err(
            GdbSessionError::InvalidTarget { target: t },
        ) && t@ == target@),
        !all_whitespace(target@) && !has_whitespace(target@) ==> res is Ok,
{
    if is_all_whitespace(target) {
        return Err(GdbSessionError::EmptyTarget);
    }
    if contains_whitespace(target) {
        return Err(GdbSessionError::InvalidTarget { target: target.to_owned() });
    }
    Ok(())
}

/// Checks a session configuration, given what the file system reports about
/// the GDB executable and the program: the files first, then the target.
pub fn validate_config(config: &GdbSessionConfig, gdb: FileStatus, program: FileStatus) -> (res: Result<(), GdbSessionError>)
    ensures
        !gdb.exists ==> (res matches Err(GdbSessionError::PathDoesNotExist { description: d, path: p })
            && d == "GDB executable" && p@ == config.gdb_executable@),
        gdb.exists && !gdb.is_file ==> (res matches Err(GdbSessionError::PathIsNotFile { description: d, path: p })
            && d == "GDB executable" && p@ == config.gdb_executable@),
        gdb.exists && gdb.is_file && !program.exists ==> (res matches Err(
            GdbSessionError::PathDoesNotExist { description: d, path: p },
        ) && d == "program executable" && p@ == config.program@),
        gdb.exists && gdb.is_file && program.exists && !program.is_file ==> (res matches Err(
            GdbSessionError::PathIsNotFile { description: d, path: p },
        ) && d == "program executable" && p@ == config.program@),
        gdb.exists && gdb.is_file && program.exists && program.is_file ==> {
            &&& all_whitespace(config.target@) ==> res == Err::<(), GdbSessionError>(
                GdbSessionError::EmptyTarget,
            )
            &&& !all_whitespace(config.target@) && has_whitespace(config.target@) ==> (res matches Err(
                GdbSessionError::InvalidTarget { target: t },
            ) && t@ == config.target@)
            &&& !all_whitespace(config.target@) && !has_whitespace(config.target@) ==> res is Ok
        },
{
    validate_file(config.gdb_executable.as_str(), "GDB executable", gdb)?;
    validate_file(config.program.as_str(), "program executable", program)?;
    validate_target(config.target.as_str())
}

/// Checks the remote program path: it must contain something other than
/// whitespace and no NUL character.
pub fn validate_remote_program(remote_program: &str) -> (res: Result<(), GdbSessionError>)
    ensures
        all_whitespace(remote_program@) ==> res == Err::<(), GdbSessionError>(
            GdbSessionError::EmptyRemoteProgram,
        ),
        !all_whitespace(remote_program@) && remote_program@.contains('\0') ==> (res matches Err(
            GdbSessionError::InvalidRemoteProgram { remote_program: r },
        ) && r@ == remote_program@),
        !all_whitespace(remote_program@) && !remote_program@.contains('\0') ==> res is Ok,
{
    if is_all_whitespace(remote_program) {
        return Err(GdbSessionError::EmptyRemoteProgram);
    }
    if contains_char(remote_program, '\0') {
        return Err(GdbSessionError::InvalidRemoteProgram { remote_program: remote_program.to_owned() });
    }
    Ok(())
}

/// Forgets the success value of an outcome.
pub open spec fn outcome_only<T>(res: Result<T, GdbSessionError>) -> Result<(), GdbSessionError> {
    match res {
        Ok(_) => Ok(()),
        Err(e) => Err(e),
    }
}

/// Whether `class` is one of the accepted classes.
pub open spec fn class_accepted(class: Seq<char>, accepted: Seq<Seq<char>>) -> bool {
    exists|i: int| 0 <= i < accepted.len() && #[trigger] accepted[i] == class
}

/// `res` is the outcome of requiring one of the `accepted` classes of
/// `result` for `operation`: success for an accepted class; for `error`,
/// a GDB command error with GDB's message; otherwise an unexpected class.
pub open spec fn class_check(
    res: Result<(), GdbSessionError>,
    operation: &'static str,
    result: MiResultRecord,
    accepted: Seq<Seq<char>>,
) -> bool {
    if class_accepted(result.class@, accepted) {
        res is Ok
    } else if result.class@ == "error"@ {
        res matches Err(GdbSessionError::GdbCommand { operation: op, message }) && op == operation
            && message@ == command_error_message(result.results@)
    } else {
        res matches Err(GdbSessionError::UnexpectedResultClass { operation: op, actual, expected })
            && op == operation && actual@ == result.class@ && string_texts(expected@) == accepted
    }
}

/// The message of a GDB error result: its first `msg` result when that is a
/// constant, else a fixed text.
pub open spec fn command_error_message(results: Seq<MiResult>) -> Seq<char> {
    match first_named(results, "msg"@) {
        Some(i) => match results[i].value {
            MiValue::Const(m) => m@,
            _ => "GDB returned an unspecified error"@,
        },
        None => "GDB returned an unspecified error"@,
    }
}

/// The texts of a sequence of string slices.
pub open spec fn texts(items: Seq<&str>) -> Seq<Seq<char>> {
    items.map_values(|s: &str| s@)
}

/// The texts of a sequence of strings.
pub open spec fn string_texts(items: Seq<String>) -> Seq<Seq<char>> {
    items.map_values(|s: String| s@)
}

/// Requires the result class to be one of `accepted_classes`; an `error`
/// result becomes a GDB command error carrying GDB's message.
pub fn require_result_class(operation: &'static str, result: &MiResultRecord, accepted_classes: &[&str]) -> (res: Result<(), GdbSessionError>)
    ensures
        class_check(res, operation, *result, texts(accepted_classes@)),
{
    let mut i: usize = 0;
    while i < accepted_classes.len()
        invariant
            i <= accepted_classes.len(),
            forall|k: int| 0 <= k < i ==> #[trigger] accepted_classes@[k]@ != result.class@,
        decreases accepted_classes.len() - i,
    {
        if str_equal(result.class.as_str(), accepted_classes[i]) {
            assert(texts(accepted_classes@)[i as int] == result.class@);
            return Ok(());
        }
        i = i + 1;
    }
    assert(!class_accepted(result.class@, texts(accepted_classes@)));
    if str_equal(result.class.as_str(), "error") {
        let message = match find_result(result.results.as_slice(), "msg") {
            Some(value) => match value.as_const() {
                Some(text) => text.to_owned(),
                None => "GDB returned an unspecified error".to_owned(),
            },
            None => "GDB returned an unspecified error".to_owned(),
        };
        return Err(GdbSessionError::GdbCommand { operation, message });
    }
    let mut expected: Vec<String> = Vec::new();
    let mut j: usize = 0;
    while j < accepted_classes.len()
        invariant
            j <= accepted_classes.len(),
            string_texts(expected@) == texts(accepted_classes@.take(j as int)),
        decreases accepted_classes.len() - j,
    {
        let ghost prev = expected@;
        let text = accepted_classes[j].to_owned();
        expected.push(text);
        assert(expected@ == prev.push(text));
        assert(string_texts(expected@) =~= string_texts(prev).push(text@));
        assert(texts(accepted_classes@.take(j + 1)) =~= texts(accepted_classes@.take(j as int)).push(
            accepted_classes@[j as int]@,
        ));
        j = j + 1;
    }
    assert(accepted_classes@.take(accepted_classes.len() as int) =~= accepted_classes@);
    Err(GdbSessionError::UnexpectedResultClass { operation, actual: result.class.clone(), expected })
}

/// The text of the first result named `name`, when it is a constant.
pub open spec fn tuple_const(results: Seq<MiResult>, name: Seq<char>) -> Option<Seq<char>> {
    match first_named(results, name) {
        Some(i) => match results[i].value {
            MiValue::Const(text) => Some(text@),
            _ => None,
        },
        None => None,
    }
}

/// Returns the text of the first result named `name`, when it is a constant.
pub fn find_tuple_const<'a>(results: &'a [MiResult], name: &str) -> (res: Option<&'a str>)
    ensures
        match tuple_const(results@, name@) {
            Some(t) => res matches Some(text) && text@ == t,
            None => res is None,
        },
{
    match find_result(results, name) {
        Some(value) => value.as_const(),
        None => None,
    }
}

/// An optional text parsed as an unsigned 64-bit number.
pub open spec fn parse_number(text: Option<Seq<char>>) -> Option<u64> {
    match text {
        Some(t) => match parse_unsigned(t, u64::MAX as nat) {
            Some(v) => Some(v as u64),
            None => None,
        },
        None => None,
    }
}

fn parse_number_text(text: Option<&str>) -> (res: Option<u64>)
    ensures
        res == parse_number(match text {
            Some(t) => Some(t@),
            None => None,
        }),
{
    match text {
        Some(t) => parse_unsigned_str(t, u64::MAX),
        None => None,
    }
}

fn owned_text(text: Option<&str>) -> (res: Option<String>)
    ensures
        match text {
            Some(t) => res matches Some(s) && s@ == t@,
            None => res is None,
        },
{
    match text {
        Some(t) => Some(t.to_owned()),
        None => None,
    }
}

/// Mathematical model of a breakpoint result.
pub struct SpecBreakpoint {
    pub number: Option<u64>,
    pub source: Seq<char>,
    pub line: u64,
    pub verified: bool,
    pub function: Option<Seq<char>>,
    pub resolved_file: Option<Seq<char>>,
    pub address: Option<Seq<char>>,
    pub message: Option<Seq<char>>,
}

/// The text of an optional string.
pub open spec fn opt_text(s: Option<String>) -> Option<Seq<char>> {
    match s {
        Some(t) => Some(t@),
        None => None,
    }
}

impl View for GdbBreakpoint {
    type V = SpecBreakpoint;

    open spec fn view(&self) -> SpecBreakpoint {
        SpecBreakpoint {
            number: self.number,
            source: self.source@,
            line: self.line,
            verified: self.verified,
            function: opt_text(self.function),
            resolved_file: opt_text(self.resolved_file),
            address: opt_text(self.address),
            message: opt_text(self.message),
        }
    }
}

/// The breakpoint described by the members of GDB's `bkpt` tuple.
pub open spec fn breakpoint_from_tuple(source: Seq<char>, requested_line: u64, tuple: Seq<MiResult>) -> SpecBreakpoint {
    let number = parse_number(tuple_const(tuple, "number"@));
    let line = match parse_number(tuple_const(tuple, "line"@)) {
        Some(l) => l,
        None => requested_line,
    };
    let resolved_file = match tuple_const(tuple, "fullname"@) {
        Some(f) => Some(f),
        None => tuple_const(tuple, "file"@),
    };
    let pending = tuple_const(tuple, "pending"@);
    let verified = number is Some && pending is None;
    let message = if verified {
        None
    } else {
        match pending {
            Some(p) => Some("breakpoint is pending at "@ + p),
            None => Some("GDB did not return a breakpoint number"@),
        }
    };
    SpecBreakpoint {
        number,
        source,
        line,
        verified,
        function: tuple_const(tuple, "func"@),
        resolved_file,
        address: tuple_const(tuple, "addr"@),
        message,
    }
}

/// `res` is the interpretation of a `-break-insert` result: the class must
/// be `done`, the first `bkpt` result must exist and be a tuple, whose
/// members describe the breakpoint.
pub open spec fn breakpoint_outcome(
    res: Result<GdbBreakpoint, GdbSessionError>,
    source: Seq<char>,
    line: u64,
    result: MiResultRecord,
) -> bool {
    if result.class@ != "done"@ {
        class_check(outcome_only(res), "break-insert", result, seq!["done"@])
    } else {
        match first_named(result.results@, "bkpt"@) {
            None => res == Err::<GdbBreakpoint, GdbSessionError>(
                GdbSessionError::MissingBreakpointData,
            ),
            Some(i) => match result.results@[i].value {
                MiValue::Tuple(tuple) => res matches Ok(b) && b@ == breakpoint_from_tuple(
                    source,
                    line,
                    tuple@,
                ),
                _ => res == Err::<GdbBreakpoint, GdbSessionError>(
                    GdbSessionError::InvalidBreakpointData,
                ),
            },
        }
    }
}

/// When GDB answers a `-break-insert` with a `bkpt` tuple whose first `line`
/// member is a decimal number `n` (at most `u64::MAX`), the breakpoint is at
/// line `n`, the line GDB resolved, whatever line was requested.
pub proof fn law_breakpoint_line_is_gdbs(
    res: Result<GdbBreakpoint, GdbSessionError>,
    source: Seq<char>,
    requested_line: u64,
    reply: MiResultRecord,
    tuple: Seq<MiResult>,
    line_text: Seq<char>,
)
    requires
        breakpoint_outcome(res, source, requested_line, reply),
        reply.class@ == "done"@,
        first_named(reply.results@, "bkpt"@) matches Some(i) && reply.results@[i].value matches MiValue::Tuple(t)
            && t@ == tuple,
        first_named(tuple, "line"@) matches Some(j) && tuple[j].value matches MiValue::Const(text) && text@
            == line_text,
        line_text.len() > 0,
        all_digits(line_text),
        digits_value(line_text, 10) <= u64::MAX,
    ensures
        res matches Ok(b) && b.line == digits_value(line_text, 10) && b.source@ == source,
{
}

/// A breakpoint whose `bkpt` tuple carries a decimal `number` `n` gets that
/// number; without a `pending` member it is verified and has no message,
/// and with a constant `pending` location `p` it is unverified with the
/// message `breakpoint is pending at p`.
pub proof fn law_breakpoint_number_and_verification(
    res: Result<GdbBreakpoint, GdbSessionError>,
    source: Seq<char>,
    requested_line: u64,
    reply: MiResultRecord,
    tuple: Seq<MiResult>,
    number_text: Seq<char>,
)
    requires
        breakpoint_outcome(res, source, requested_line, reply),
        reply.class@ == "done"@,
        first_named(reply.results@, "bkpt"@) matches Some(i) && reply.results@[i].value matches MiValue::Tuple(t)
            && t@ == tuple,
        first_named(tuple, "number"@) matches Some(j) && tuple[j].value matches MiValue::Const(text) && text@
            == number_text,
        number_text.len() > 0,
        all_digits(number_text),
        digits_value(number_text, 10) <= u64::MAX,
    ensures
        res matches Ok(b) && b.number == Some(digits_value(number_text, 10) as u64),
        first_named(tuple, "pending"@) is None ==> (res matches Ok(b) && b.verified && b.message is None),
        first_named(tuple, "pending"@) matches Some(k) ==> (tuple[k].value matches MiValue::Const(p) ==> (
        res matches Ok(b) && !b.verified && b@.message == Some("breakpoint is pending at "@ + p@))),
{
}

/// A `bkpt` tuple without a `number` member gives an unverified breakpoint
/// without a number.
pub proof fn law_breakpoint_without_number_is_unverified(
    res: Result<GdbBreakpoint, GdbSessionError>,
    source: Seq<char>,
    requested_line: u64,
    reply: MiResultRecord,
    tuple: Seq<MiResult>,
)
    requires
        breakpoint_outcome(res, source, requested_line, reply),
        reply.class@ == "done"@,
        first_named(reply.results@, "bkpt"@) matches Some(i) && reply.results@[i].value matches MiValue::Tuple(t)
            && t@ == tuple,
        first_named(tuple, "number"@) is None,
    ensures
        res matches Ok(b) && b.number is None && !b.verified && b.message is Some,
        first_named(tuple, "pending"@) is None ==> (res matches Ok(b) && b@.message == Some(
            "GDB did not return a breakpoint number"@,
        )),
{
}

/// When GDB's `bkpt` tuple has no `line` member, the breakpoint stays at the
/// requested line.
pub proof fn law_breakpoint_line_defaults_to_request(
    res: Result<GdbBreakpoint, GdbSessionError>,
    source: Seq<char>,
    requested_line: u64,
    reply: MiResultRecord,
    tuple: Seq<MiResult>,
)
    requires
        breakpoint_outcome(res, source, requested_line, reply),
        reply.class@ == "done"@,
        first_named(reply.results@, "bkpt"@) matches Some(i) && reply.results@[i].value matches MiValue::Tuple(t)
            && t@ == tuple,
        first_named(tuple, "line"@) is None,
    ensures
        res matches Ok(b) && b.line == requested_line && b.source@ == source,
{
}

/// Interprets the result of `-break-insert`: the result class must be
/// `done`, and its `bkpt` result must be a tuple.
pub fn parse_breakpoint_result(requested_source: &str, requested_line: u64, result: &MiResultRecord) -> (res: Result<GdbBreakpoint, GdbSessionError>)
    ensures
        breakpoint_outcome(res, requested_source@, requested_line, *result),
{
    let accepted: [&str; 1] = ["done"];
    proof {
        assert(accepted@ =~= seq!["done"]);
        assert(texts(accepted@) =~= seq!["done"@]);
        if result.class@ == "done"@ {
            assert(texts(accepted@)[0] == result.class@);
        }
    }
    require_result_class("break-insert", result, accepted.as_slice())?;
    let breakpoint = match find_result(result.results.as_slice(), "bkpt") {
        Some(value) => value,
        None => {
            return Err(GdbSessionError::MissingBreakpointData);
        },
    };
    let tuple = match breakpoint.as_tuple() {
        Some(t) => t,
        None => {
            return Err(GdbSessionError::InvalidBreakpointData);
        },
    };
    let number = parse_number_text(find_tuple_const(tuple, "number"));
    let resolved_line = match parse_number_text(find_tuple_const(tuple, "line")) {
        Some(line) => line,
        None => requested_line,
    };
    let resolved_file = match find_tuple_const(tuple, "fullname") {
        Some(f) => Some(f.to_owned()),
        None => owned_text(find_tuple_const(tuple, "file")),
    };
    let function = owned_text(find_tuple_const(tuple, "func"));
    let address = owned_text(find_tuple_const(tuple, "addr"));
    let pending = find_tuple_const(tuple, "pending");
    let verified = number.is_some() && pending.is_none();
    let message = if verified {
        None
    } else {
        match pending {
            Some(pending_location) => {
                let mut text = String::new();
                push_str(&mut text, "breakpoint is pending at ");
                push_str(&mut text, pending_location);
                Some(text)
            },
            None => Some("GDB did not return a breakpoint number".to_owned()),
        }
    };
    Ok(GdbBreakpoint {
        number,
        source: requested_source.to_owned(),
        line: resolved_line,
        verified,
        function,
        resolved_file,
        address,
        message,
    })
}

} // verus!
