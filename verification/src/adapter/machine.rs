use vstd::prelude::*;

use super::messages::{
    adapter_capabilities, concat, error_response, error_response_message, event, event_message,
    message_seq, messages_view, numbered_from, spec_capabilities, success_response, success_response_message,
    terminated_event, AdapterMessage, MessageBody, SpecBody, SpecMessage,
};
use super::breakpoints::{dap_from_gdb, DapBreakpoint, DapSourceBreakpoint, SetBreakpointsArguments};
use super::config::{DeploymentArguments, DisconnectArguments, LaunchArguments};
use super::messages::{breakpoints_view, output_event, StoppedEventBody};
use super::run::{model_of, poll_step, request_step, AdapterModel, RequestInput};
use crate::dap::protocol::Request;
use crate::gdb_mi::breakpoint::{GdbBreakpoint, SourceBreakpoint};
use crate::gdb_mi::deployment::GdbDeployment;
use crate::gdb_mi::execution::{GdbSessionEvent, GdbStopReason};
use crate::gdb_mi::session::{opt_text, string_texts, GdbSessionConfig};
use crate::gdb_mi::strings::{debug_quoted, debug_text, str_equal};

verus! {

/// Current lifecycle state of the debug adapter.
#[derive(Debug, Clone, Copy, PartialEq, Eq, Structural)]
pub enum AdapterState {
    /// The adapter has started but has not received `initialize`.
    Created,
    /// The DAP client has successfully initialized the adapter.
    Initialized,
    /// A launch request is currently being processed.
    Launching,
    /// GDB is connected to the remote QNX target.
    Connected,
    /// The client has completed initial debug-session configuration.
    Configured,
    /// The inferior is currently running.
    Running,
    /// The inferior is stopped and can be inspected.
    Stopped,
    /// The debug session has been explicitly terminated.
    Terminated,
    /// The DAP input stream has been closed.
    Disconnected,
}

/// The name of a state, as it appears in error messages.
pub open spec fn spec_state_name(state: AdapterState) -> Seq<char> {
    match state {
        AdapterState::Created => "Created"@,
        AdapterState::Initialized => "Initialized"@,
        AdapterState::Launching => "Launching"@,
        AdapterState::Connected => "Connected"@,
        AdapterState::Configured => "Configured"@,
        AdapterState::Running => "Running"@,
        AdapterState::Stopped => "Stopped"@,
        AdapterState::Terminated => "Terminated"@,
        AdapterState::Disconnected => "Disconnected"@,
    }
}

/// The name of a state, as it appears in error messages.
pub fn state_name(state: AdapterState) -> (res: &'static str)
    ensures
        res@ == spec_state_name(state),
{
    match state {
        AdapterState::Created => "Created",
        AdapterState::Initialized => "Initialized",
        AdapterState::Launching => "Launching",
        AdapterState::Connected => "Connected",
        AdapterState::Configured => "Configured",
        AdapterState::Running => "Running",
        AdapterState::Stopped => "Stopped",
        AdapterState::Terminated => "Terminated",
        AdapterState::Disconnected => "Disconnected",
    }
}

/// The error text for a request that is not valid in `state`.
pub open spec fn invalid_state_text(command: Seq<char>, state: AdapterState) -> Seq<char> {
    command + " is not valid while adapter is in state "@ + spec_state_name(state)
}

/// The error text for a request that is not valid in `state`.
fn invalid_state_message(command: &str, state: AdapterState) -> (res: String)
    ensures
        res@ == invalid_state_text(command@, state),
{
    let head = concat(command, " is not valid while adapter is in state ");
    concat(head.as_str(), state_name(state))
}

/// The error text for a request the adapter does not implement, given the
/// quoted command name.
pub open spec fn unsupported_text(quoted_command: Seq<char>) -> Seq<char> {
    "DAP command "@ + quoted_command + " is not implemented"@
}

/// The error text for a request the adapter does not implement, given the
/// quoted command name.
pub fn unsupported_command_message(quoted_command: &str) -> (res: String)
    ensures
        res@ == unsupported_text(quoted_command@),
{
    let head = concat("DAP command ", quoted_command);
    concat(head.as_str(), " is not implemented")
}

/// The requests the adapter handles.
#[derive(Debug, Clone, Copy, PartialEq, Eq, Structural)]
pub enum RequestKind {
    Initialize,
    Launch,
    SetBreakpoints,
    ConfigurationDone,
    Disconnect,
    /// Any other command.
    Unsupported,
}

/// The kind of request a command names.
pub open spec fn spec_request_kind(command: Seq<char>) -> RequestKind {
    if command == "initialize"@ {
        RequestKind::Initialize
    } else if command == "launch"@ {
        RequestKind::Launch
    } else if command == "setBreakpoints"@ {
        RequestKind::SetBreakpoints
    } else if command == "configurationDone"@ {
        RequestKind::ConfigurationDone
    } else if command == "disconnect"@ {
        RequestKind::Disconnect
    } else {
        RequestKind::Unsupported
    }
}

/// The kind of request a command names.
pub fn request_kind(command: &str) -> (res: RequestKind)
    ensures
        res == spec_request_kind(command@),
{
    if str_equal(command, "initialize") {
        RequestKind::Initialize
    } else if str_equal(command, "launch") {
        RequestKind::Launch
    } else if str_equal(command, "setBreakpoints") {
        RequestKind::SetBreakpoints
    } else if str_equal(command, "configurationDone") {
        RequestKind::ConfigurationDone
    } else if str_equal(command, "disconnect") {
        RequestKind::Disconnect
    } else {
        RequestKind::Unsupported
    }
}

/// Request arguments as the caller decoded them.
#[derive(Debug, Clone, PartialEq, Eq)]
pub enum ArgumentsInput<T> {
    /// The request carried no arguments.
    Missing,
    /// The arguments did not decode; the text describes why.
    Invalid(String),
    /// The decoded arguments.
    Valid(T),
}

/// The GDB deployment a launch request asks for.
pub open spec fn deployment_matches(d: GdbDeployment, a: DeploymentArguments) -> bool {
    match a {
        DeploymentArguments::Upload { remote_program } => d is Upload
            && d.spec_remote_program() == remote_program@,
        DeploymentArguments::Existing { remote_program } => d is Existing
            && d.spec_remote_program() == remote_program@,
    }
}

/// `config` is the session configuration that launch arguments describe.
pub open spec fn launch_config_of(config: GdbSessionConfig, arguments: LaunchArguments) -> bool {
    &&& config.gdb_executable@ == arguments.gdb@
    &&& config.program@ == arguments.program@
    &&& config.target@ == arguments.target@
    &&& deployment_matches(config.deployment, arguments.deployment)
    &&& opt_text(config.working_directory) == opt_text(arguments.working_directory)
    &&& string_texts(config.gdb_arguments@) == string_texts(arguments.gdb_arguments@)
}

/// The GDB session configuration that launch arguments describe.
pub fn launch_config(arguments: &LaunchArguments) -> (res: GdbSessionConfig)
    ensures
        launch_config_of(res, *arguments),
{
    let deployment = match &arguments.deployment {
        DeploymentArguments::Upload { remote_program } => GdbDeployment::upload(remote_program.as_str()),
        DeploymentArguments::Existing { remote_program } => GdbDeployment::existing(remote_program.as_str()),
    };
    let mut config = GdbSessionConfig::new(
        arguments.gdb.as_str(),
        arguments.program.as_str(),
        arguments.target.as_str(),
        deployment,
    );
    match &arguments.working_directory {
        Some(w) => {
            config = config.working_directory(w.as_str());
        },
        None => {},
    }
    let mut i: usize = 0;
    while i < arguments.gdb_arguments.len()
        invariant
            i <= arguments.gdb_arguments@.len(),
            config.gdb_executable@ == arguments.gdb@,
            config.program@ == arguments.program@,
            config.target@ == arguments.target@,
            deployment_matches(config.deployment, arguments.deployment),
            opt_text(config.working_directory) == opt_text(arguments.working_directory),
            string_texts(config.gdb_arguments@) == string_texts(arguments.gdb_arguments@.take(i as int)),
        decreases arguments.gdb_arguments@.len() - i,
    {
        let ghost before = config.gdb_arguments@;
        config = config.gdb_argument(arguments.gdb_arguments[i].as_str());
        proof {
            let x = config.gdb_arguments@.last();
            let a = arguments.gdb_arguments@[i as int];
            let prefix = arguments.gdb_arguments@.take(i as int);
            assert(config.gdb_arguments@ =~= before.push(x));
            assert(arguments.gdb_arguments@.take(i + 1) =~= prefix.push(a));
            assert(string_texts(before.push(x)) =~= string_texts(before).push(x@));
            assert(string_texts(prefix.push(a)) =~= string_texts(prefix).push(a@));
        }
        i = i + 1;
    }
    assert(arguments.gdb_arguments@.take(i as int) =~= arguments.gdb_arguments@);
    config
}

/// Why a launch request is refused, if it is.
pub open spec fn launch_refusal(state: AdapterState, arguments: ArgumentsInput<LaunchArguments>) -> Option<Seq<char>> {
    if state != AdapterState::Initialized {
        Some(invalid_state_text("launch"@, state))
    } else {
        match arguments {
            ArgumentsInput::Missing => Some("launch request does not contain arguments"@),
            ArgumentsInput::Invalid(e) => Some("invalid launch arguments: "@ + e@),
            ArgumentsInput::Valid(_) => None,
        }
    }
}

/// What the caller does next with a launch request.
#[derive(Debug)]
pub enum LaunchStep {
    /// Send this response; the request is finished.
    Respond(AdapterMessage),
    /// Connect a GDB session with this configuration, then report the outcome.
    Connect(GdbSessionConfig),
}

/// Why a breakpoint of a `setBreakpoints` request is refused, if it is.
pub open spec fn breakpoint_problem(b: DapSourceBreakpoint) -> Option<Seq<char>> {
    if b.line == 0 {
        Some("breakpoint line must be greater than zero"@)
    } else if b.condition is Some {
        Some("conditional breakpoints are not supported"@)
    } else if b.hit_condition is Some {
        Some("hit conditional breakpoints are not supported"@)
    } else if b.log_message is Some {
        Some("log points are not supported"@)
    } else {
        None
    }
}

/// The problem of the first refused breakpoint, in request order.
pub open spec fn first_problem(bps: Seq<DapSourceBreakpoint>) -> Option<Seq<char>>
    decreases bps.len(),
{
    if bps.len() == 0 {
        None
    } else {
        match breakpoint_problem(bps[0]) {
            Some(p) => Some(p),
            None => first_problem(bps.drop_first()),
        }
    }
}

/// Why a `setBreakpoints` request is refused, if it is.
pub open spec fn set_breakpoints_refusal(
    state: AdapterState,
    session_open: bool,
    arguments: ArgumentsInput<SetBreakpointsArguments>,
) -> Option<Seq<char>> {
    if !(state == AdapterState::Connected || state == AdapterState::Configured || state
        == AdapterState::Stopped) {
        Some(invalid_state_text("setBreakpoints"@, state))
    } else {
        match arguments {
            ArgumentsInput::Missing => Some("setBreakpoints request does not contain arguments"@),
            ArgumentsInput::Invalid(e) => Some("invalid setBreakpoints arguments: "@ + e@),
            ArgumentsInput::Valid(a) => if a.source.path is None {
                Some("setBreakpoints source does not contain a path"@)
            } else if first_problem(a.breakpoints@) is Some {
                first_problem(a.breakpoints@)
            } else if !session_open {
                Some("GDB session is not available"@)
            } else {
                None
            },
        }
    }
}

/// A launch with valid arguments is accepted exactly in `Initialized`.
/// Breakpoints for a source with a path, whose breakpoints each have a
/// positive line and no condition, hit condition or log message, are set
/// exactly in `Connected`, `Configured` and `Stopped`, and only while a GDB
/// session is open.
pub proof fn law_request_states(
    state: AdapterState,
    session_open: bool,
    launch: LaunchArguments,
    breakpoints: SetBreakpointsArguments,
)
    ensures
        launch_refusal(state, ArgumentsInput::Valid(launch)) is None <==> state
            == AdapterState::Initialized,
        breakpoints.source.path is Some && (forall|k: int|
            0 <= k < breakpoints.breakpoints@.len() ==> {
                let b = #[trigger] breakpoints.breakpoints@[k];
                b.line > 0 && b.condition is None && b.hit_condition is None && b.log_message is None
            }) ==> (set_breakpoints_refusal(state, session_open, ArgumentsInput::Valid(breakpoints)) is None
            <==> (session_open && (state == AdapterState::Connected || state == AdapterState::Configured
            || state == AdapterState::Stopped))),
{
    lemma_no_problem(breakpoints.breakpoints@);
}

proof fn lemma_no_problem(bps: Seq<DapSourceBreakpoint>)
    ensures
        (forall|k: int| 0 <= k < bps.len() ==> {
            let b = #[trigger] bps[k];
            b.line > 0 && b.condition is None && b.hit_condition is None && b.log_message is None
        }) ==> first_problem(bps) is None,
    decreases bps.len(),
{
    if bps.len() > 0 {
        lemma_no_problem(bps.drop_first());
        if forall|k: int| 0 <= k < bps.len() ==> {
            let b = #[trigger] bps[k];
            b.line > 0 && b.condition is None && b.hit_condition is None && b.log_message is None
        } {
            assert(bps[0].line > 0);
            assert forall|k: int| 0 <= k < bps.drop_first().len() implies {
                let b = #[trigger] bps.drop_first()[k];
                b.line > 0 && b.condition is None && b.hit_condition is None && b.log_message is None
            } by {
                assert(bps.drop_first()[k] == bps[k + 1]);
            }
        }
    }
}

/// What the caller does next with a `setBreakpoints` request.
#[derive(Debug)]
pub enum BreakpointsStep {
    /// Send this response; the request is finished.
    Respond(AdapterMessage),
    /// Replace the breakpoints of `source` with breakpoints at these lines,
    /// then report the outcome.
    Install { source: String, breakpoints: Vec<SourceBreakpoint> },
}

/// The lines of requested breakpoints.
pub open spec fn requested_lines(bps: Seq<DapSourceBreakpoint>) -> Seq<u64> {
    bps.map_values(|b: DapSourceBreakpoint| b.line)
}

/// The lines of GDB breakpoint requests.
pub open spec fn source_lines(bps: Seq<SourceBreakpoint>) -> Seq<u64> {
    bps.map_values(|b: SourceBreakpoint| b.line)
}

fn breakpoint_problem_text(b: &DapSourceBreakpoint) -> (res: Option<&'static str>)
    ensures
        match breakpoint_problem(*b) {
            Some(p) => res matches Some(t) && t@ == p,
            None => res is None,
        },
{
    if b.line == 0 {
        Some("breakpoint line must be greater than zero")
    } else if b.condition.is_some() {
        Some("conditional breakpoints are not supported")
    } else if b.hit_condition.is_some() {
        Some("hit conditional breakpoints are not supported")
    } else if b.log_message.is_some() {
        Some("log points are not supported")
    } else {
        None
    }
}

fn find_first_problem(bps: &Vec<DapSourceBreakpoint>) -> (res: Option<&'static str>)
    ensures
        match first_problem(bps@) {
            Some(p) => res matches Some(t) && t@ == p,
            None => res is None,
        },
{
    let mut i: usize = 0;
    assert(bps@.subrange(0, bps@.len() as int) =~= bps@);
    while i < bps.len()
        invariant
            i <= bps@.len(),
            first_problem(bps@) == first_problem(bps@.subrange(i as int, bps@.len() as int)),
        decreases bps@.len() - i,
    {
        let ghost rest = bps@.subrange(i as int, bps@.len() as int);
        assert(rest[0] == bps@[i as int]);
        match breakpoint_problem_text(&bps[i]) {
            Some(t) => {
                return Some(t);
            },
            None => {},
        }
        assert(rest.drop_first() =~= bps@.subrange(i + 1, bps@.len() as int));
        i = i + 1;
    }
    assert(bps@.subrange(i as int, bps@.len() as int) =~= Seq::<DapSourceBreakpoint>::empty());
    None
}

fn source_breakpoints(bps: &Vec<DapSourceBreakpoint>) -> (res: Vec<SourceBreakpoint>)
    ensures
        source_lines(res@) == requested_lines(bps@),
{
    let mut out: Vec<SourceBreakpoint> = Vec::new();
    let mut i: usize = 0;
    while i < bps.len()
        invariant
            i <= bps@.len(),
            source_lines(out@) == requested_lines(bps@.take(i as int)),
        decreases bps@.len() - i,
    {
        let ghost before = out@;
        let b = SourceBreakpoint::new(bps[i].line);
        out.push(b);
        proof {
            let prefix = bps@.take(i as int);
            assert(bps@.take(i + 1) =~= prefix.push(bps@[i as int]));
            assert(source_lines(before.push(b)) =~= source_lines(before).push(b.line));
            assert(requested_lines(prefix.push(bps@[i as int])) =~= requested_lines(prefix).push(bps@[i as int].line));
        }
        i = i + 1;
    }
    assert(bps@.take(i as int) =~= bps@);
    out
}

/// The DAP forms of GDB breakpoint results.
pub open spec fn dap_breakpoints(bps: Seq<GdbBreakpoint>) -> Seq<super::breakpoints::SpecDapBreakpoint> {
    bps.map_values(|b: GdbBreakpoint| dap_from_gdb(b@))
}

fn to_dap_breakpoints(bps: Vec<GdbBreakpoint>) -> (res: Vec<DapBreakpoint>)
    ensures
        breakpoints_view(res@) == dap_breakpoints(bps@),
{
    let ghost all = bps@;
    let mut out: Vec<DapBreakpoint> = Vec::new();
    for b in it: bps.into_iter()
        invariant
            it.seq() == all,
            breakpoints_view(out@) == dap_breakpoints(all.take(it.index() as int)),
    {
        let ghost k = it.index() as int;
        let ghost before = out@;
        let ghost gb = b;
        let d = DapBreakpoint::from_gdb(b);
        out.push(d);
        proof {
            let prefix = all.take(k);
            assert(gb == all[k]);
            assert(all.take(k + 1) =~= prefix.push(all[k]));
            assert(breakpoints_view(before.push(d)) =~= breakpoints_view(before).push(d@));
            assert(dap_breakpoints(prefix.push(all[k])) =~= dap_breakpoints(prefix).push(dap_from_gdb(all[k]@)));
        }
    }
    assert(all.take(all.len() as int) =~= all);
    out
}

/// The description of a stop caused by a signal.
pub open spec fn signal_description(name: Option<Seq<char>>, meaning: Option<Seq<char>>) -> Option<Seq<char>> {
    match (name, meaning) {
        (Some(n), Some(m)) => Some(n + ": "@ + m),
        (Some(n), None) => Some(n),
        (None, Some(m)) => Some(m),
        (None, None) => None,
    }
}

/// A `stopped` event.
pub open spec fn stopped_event(
    seq: u64,
    reason: Seq<char>,
    thread_id: u64,
    description: Option<Seq<char>>,
    hit_breakpoint_ids: Option<Seq<u64>>,
) -> SpecMessage {
    event_message(
        seq,
        "stopped"@,
        SpecBody::Stopped { reason, thread_id, all_threads_stopped: true, description, hit_breakpoint_ids },
    )
}

/// The `exited` event with the exit code, then `terminated`.
pub open spec fn exit_events(seq: u64, exit_code: i32) -> Seq<SpecMessage> {
    seq![
        event_message(seq, "exited"@, SpecBody::Exited { exit_code }),
        terminated_event((seq + 1) as u64),
    ]
}

/// The messages that report a stop of the inferior; a thread is assumed to
/// be thread 1 when GDB names none.
pub open spec fn stop_messages(seq: u64, reason: GdbStopReason, thread_id: Option<u64>) -> Seq<SpecMessage> {
    let tid: u64 = match thread_id {
        Some(t) => t,
        None => 1,
    };
    match reason {
        GdbStopReason::Breakpoint { breakpoint_number } => seq![
            stopped_event(
                seq,
                "breakpoint"@,
                tid,
                None,
                match breakpoint_number {
                    Some(n) => Some(seq![n]),
                    None => None,
                },
            ),
        ],
        GdbStopReason::Step => seq![stopped_event(seq, "step"@, tid, None, None)],
        GdbStopReason::Signal { name, meaning } => seq![
            stopped_event(seq, "exception"@, tid, signal_description(opt_text(name), opt_text(meaning)), None),
        ],
        GdbStopReason::Unknown { reason } => seq![stopped_event(seq, "pause"@, tid, opt_text(reason), None)],
        GdbStopReason::Exited { exit_code } => exit_events(
            seq,
            match exit_code {
                Some(c) => c,
                None => 0,
            },
        ),
        GdbStopReason::ExitedSignalled { signal_name } => match signal_name {
            Some(n) => seq![
                output_event(seq, "stderr"@, "Inferior exited because of signal "@ + n@ + "\n"@),
            ] + exit_events((seq + 1) as u64, 1),
            None => exit_events(seq, 1),
        },
    }
}

/// The state after a stop: `Terminated` when the inferior exited, else `Stopped`.
pub open spec fn state_after_stop(reason: GdbStopReason) -> AdapterState {
    match reason {
        GdbStopReason::Exited { .. } => AdapterState::Terminated,
        GdbStopReason::ExitedSignalled { .. } => AdapterState::Terminated,
        _ => AdapterState::Stopped,
    }
}

/// The text that reports a result record GDB sent after `^running`.
pub open spec fn late_result_text(class: Seq<char>, message: Option<Seq<char>>) -> Seq<char> {
    match message {
        Some(m) => "GDB execution result "@ + class + ": "@ + m + "\n"@,
        None => "GDB execution result: "@ + class + "\n"@,
    }
}

/// The messages that report a GDB session event.
pub open spec fn event_messages(seq: u64, event: GdbSessionEvent) -> Seq<SpecMessage> {
    match event {
        GdbSessionEvent::TargetOutput(o) => seq![output_event(seq, "stdout"@, o@)],
        GdbSessionEvent::ConsoleOutput(o) => seq![output_event(seq, "console"@, o@)],
        GdbSessionEvent::DiagnosticOutput(o) => seq![output_event(seq, "stderr"@, o@)],
        GdbSessionEvent::Stopped { reason, thread_id, .. } => stop_messages(seq, reason, thread_id),
        GdbSessionEvent::AsyncRecord { .. } => Seq::empty(),
        GdbSessionEvent::LateResult { class, message, .. } => seq![
            output_event(seq, "stderr"@, late_result_text(class@, opt_text(message))),
        ],
        GdbSessionEvent::EndOfFile => seq![terminated_event(seq)],
    }
}

/// An inferior that exits normally is reported by exactly two events: an
/// `exited` event whose `exitCode` is the code GDB reported (0 only when GDB
/// reported none), then `terminated`; the adapter is then `Terminated`.
pub proof fn law_exit_reports_gdb_exit_code(seq: u64, state: AdapterState, event: GdbSessionEvent)
    requires
        event matches GdbSessionEvent::Stopped { reason: GdbStopReason::Exited { .. }, .. },
        seq < u64::MAX,
    ensures
        event_messages(seq, event).len() == 2,
        event_messages(seq, event)[0] matches SpecMessage::Event { seq: n, event: name, body: SpecBody::Exited { exit_code: code } }
            && n == seq && name == "exited"@
            && (event matches GdbSessionEvent::Stopped { reason: GdbStopReason::Exited { exit_code: Some(c) }, .. } ==> code == c)
            && (event matches GdbSessionEvent::Stopped { reason: GdbStopReason::Exited { exit_code: None }, .. } ==> code == 0),
        event_messages(seq, event)[1] matches SpecMessage::Event { seq: n, event: name, body: SpecBody::Empty }
            && n == seq + 1 && name == "terminated"@,
        state_after_event(state, event) == AdapterState::Terminated,
{
}

/// A stop that is not an exit is reported by exactly one `stopped` event for
/// the thread GDB named (thread 1 when it named none), with all threads
/// stopped: reason `breakpoint` with the hit breakpoint's number when GDB
/// gave one, `step`, `exception` for a signal, or `pause` for a reason the
/// adapter does not know, with that reason as description. The adapter is
/// then `Stopped`.
pub proof fn law_stop_reports_one_stopped_event(seq: u64, state: AdapterState, event: GdbSessionEvent)
    requires
        event matches GdbSessionEvent::Stopped { reason, .. } && !(reason is Exited)
            && !(reason is ExitedSignalled),
    ensures
        event_messages(seq, event).len() == 1,
        state_after_event(state, event) == AdapterState::Stopped,
        event matches GdbSessionEvent::Stopped { reason, thread_id, .. } ==> (event_messages(
            seq,
            event,
        )[0] matches SpecMessage::Event {
            seq: n,
            event: name,
            body: SpecBody::Stopped { reason: r, thread_id: t, all_threads_stopped, description, hit_breakpoint_ids },
        } && n == seq && name == "stopped"@ && all_threads_stopped && (thread_id matches Some(x)
            ==> t == x) && (thread_id is None ==> t == 1) && (reason matches GdbStopReason::Breakpoint {
            breakpoint_number: Some(b),
        } ==> r == "breakpoint"@ && description is None && hit_breakpoint_ids == Some(seq![b]))
            && (reason matches GdbStopReason::Breakpoint { breakpoint_number: None } ==> r
            == "breakpoint"@ && description is None && hit_breakpoint_ids is None) && (reason is Step
            ==> r == "step"@ && description is None && hit_breakpoint_ids is None) && (reason is Signal
            ==> r == "exception"@ && hit_breakpoint_ids is None) && (reason matches GdbStopReason::Unknown {
            reason: u,
        } ==> r == "pause"@ && description == opt_text(u) && hit_breakpoint_ids is None)),
{
}

/// An inferior killed by a signal exits with code 1: when GDB names the
/// signal, a `stderr` output line names it first; then come `exited` with
/// exit code 1 and `terminated`, and the adapter is `Terminated`.
pub proof fn law_signalled_exit_reports_code_one(seq: u64, state: AdapterState, event: GdbSessionEvent)
    requires
        event matches GdbSessionEvent::Stopped { reason: GdbStopReason::ExitedSignalled { .. }, .. },
        seq < u64::MAX - 1,
    ensures
        state_after_event(state, event) == AdapterState::Terminated,
        event matches GdbSessionEvent::Stopped {
            reason: GdbStopReason::ExitedSignalled { signal_name: Some(name) },
            ..
        } ==> event_messages(seq, event) == seq![
            SpecMessage::Event {
                seq,
                event: "output"@,
                body: SpecBody::Output {
                    category: "stderr"@,
                    output: "Inferior exited because of signal "@ + name@ + "\n"@,
                },
            },
            SpecMessage::Event { seq: (seq + 1) as u64, event: "exited"@, body: SpecBody::Exited { exit_code: 1 } },
            SpecMessage::Event { seq: (seq + 2) as u64, event: "terminated"@, body: SpecBody::Empty },
        ],
        event matches GdbSessionEvent::Stopped { reason: GdbStopReason::ExitedSignalled { signal_name: None }, .. }
            ==> event_messages(seq, event) == seq![
            SpecMessage::Event { seq, event: "exited"@, body: SpecBody::Exited { exit_code: 1 } },
            SpecMessage::Event { seq: (seq + 1) as u64, event: "terminated"@, body: SpecBody::Empty },
        ],
{
}

/// The adapter state after a GDB session event.
pub open spec fn state_after_event(state: AdapterState, event: GdbSessionEvent) -> AdapterState {
    match event {
        GdbSessionEvent::Stopped { reason, .. } => state_after_stop(reason),
        GdbSessionEvent::EndOfFile => AdapterState::Terminated,
        _ => state,
    }
}

/// The messages that report GDB session events, in order.
pub open spec fn events_messages(seq: u64, events: Seq<GdbSessionEvent>) -> Seq<SpecMessage>
    decreases events.len(),
{
    if events.len() == 0 {
        Seq::empty()
    } else {
        let before = events_messages(seq, events.drop_last());
        before + event_messages((seq + before.len()) as u64, events.last())
    }
}

/// The adapter state after GDB session events, in order.
pub open spec fn state_after_events(state: AdapterState, events: Seq<GdbSessionEvent>) -> AdapterState
    decreases events.len(),
{
    if events.len() == 0 {
        state
    } else {
        state_after_event(state_after_events(state, events.drop_last()), events.last())
    }
}

/// How many messages report a stop.
pub open spec fn stop_message_count(reason: GdbStopReason) -> nat {
    match reason {
        GdbStopReason::Exited { .. } => 2,
        GdbStopReason::ExitedSignalled { signal_name } => if signal_name is Some {
            3
        } else {
            2
        },
        _ => 1,
    }
}

/// How many messages report a GDB session event.
pub open spec fn spec_event_message_count(event: GdbSessionEvent) -> nat {
    match event {
        GdbSessionEvent::Stopped { reason, .. } => stop_message_count(reason),
        GdbSessionEvent::AsyncRecord { .. } => 0,
        _ => 1,
    }
}

/// How many messages the outcome of a GDB poll gives.
pub open spec fn spec_poll_message_count(poll: GdbPoll) -> nat {
    match poll {
        GdbPoll::Pending => 0,
        GdbPoll::EndOfFile => 1,
        GdbPoll::Event(e) => spec_event_message_count(e),
        GdbPoll::Failed(_) => 2,
    }
}

/// The number of messages reporting an event does not depend on where
/// their numbering starts, and is at most three.
pub proof fn lemma_event_message_count(seq: u64, event: GdbSessionEvent)
    ensures
        event_messages(seq, event).len() == spec_event_message_count(event),
        spec_event_message_count(event) <= 3,
{
}

/// How many messages report a GDB session event.
pub fn event_message_count(event: &GdbSessionEvent) -> (n: u64)
    ensures
        n == spec_event_message_count(*event),
{
    match event {
        GdbSessionEvent::Stopped { reason, .. } => match reason {
            GdbStopReason::Exited { .. } => 2,
            GdbStopReason::ExitedSignalled { signal_name } => if signal_name.is_some() {
                3
            } else {
                2
            },
            _ => 1,
        },
        GdbSessionEvent::AsyncRecord { .. } => 0,
        _ => 1,
    }
}

/// How many messages the outcome of a GDB poll gives.
pub fn poll_message_count(poll: &GdbPoll) -> (n: u64)
    ensures
        n == spec_poll_message_count(*poll),
{
    match poll {
        GdbPoll::Pending => 0,
        GdbPoll::EndOfFile => 1,
        GdbPoll::Event(e) => event_message_count(e),
        GdbPoll::Failed(_) => 2,
    }
}

/// Every message is an event.
pub open spec fn all_events(msgs: Seq<SpecMessage>) -> bool {
    forall|i: int| 0 <= i < msgs.len() ==> #[trigger] msgs[i] is Event
}

/// The messages reporting one event are numbered from `seq`; there are at most three.
pub proof fn lemma_event_messages(seq: u64, event: GdbSessionEvent)
    requires
        seq + spec_event_message_count(event) <= u64::MAX,
    ensures
        numbered_from(event_messages(seq, event), seq as int),
        event_messages(seq, event).len() <= 3,
        all_events(event_messages(seq, event)),
{
    let m = event_messages(seq, event);
    assert(all_events(m)) by {
        assert forall|i: int| 0 <= i < m.len() implies #[trigger] m[i] is Event by {
            match event {
                GdbSessionEvent::Stopped { reason, thread_id, .. } => {
                    match reason {
                        GdbStopReason::ExitedSignalled { signal_name } => {
                            if signal_name is Some {
                                if i >= 1 {
                                    assert(m[i] == exit_events((seq + 1) as u64, 1)[i - 1]);
                                }
                            }
                        },
                        _ => {},
                    }
                },
                _ => {},
            }
        }
    }
    match event {
        GdbSessionEvent::Stopped { reason, thread_id, .. } => {
            match reason {
                GdbStopReason::ExitedSignalled { signal_name } => {
                    if signal_name is Some {
                        assert(message_seq(m[1]) == seq + 1);
                        assert(message_seq(m[2]) == seq + 2);
                    }
                },
                _ => {},
            }
        },
        _ => {},
    }
}

/// The messages reporting events are numbered from `seq`; there are at most
/// three per event.
pub proof fn lemma_events_messages(seq: u64, events: Seq<GdbSessionEvent>)
    requires
        seq + 3 * events.len() <= u64::MAX,
    ensures
        numbered_from(events_messages(seq, events), seq as int),
        events_messages(seq, events).len() <= 3 * events.len(),
        all_events(events_messages(seq, events)),
    decreases events.len(),
{
    if events.len() > 0 {
        let before = events_messages(seq, events.drop_last());
        lemma_events_messages(seq, events.drop_last());
        let next = (seq + before.len()) as u64;
        lemma_event_message_count(next, events.last());
        lemma_event_messages(next, events.last());
        let last = event_messages(next, events.last());
        let all = before + last;
        assert forall|i: int| 0 <= i < all.len() implies #[trigger] message_seq(all[i]) == seq + i by {
            if i >= before.len() {
                assert(all[i] == last[i - before.len()]);
            }
        }
        assert forall|i: int| 0 <= i < all.len() implies #[trigger] all[i] is Event by {
            if i >= before.len() {
                assert(all[i] == last[i - before.len()]);
            } else {
                assert(all[i] == before[i]);
            }
        }
    }
}

/// What the caller does next with `configurationDone`.
#[derive(Debug)]
pub enum ConfigurationStep {
    /// Send this response; the request is finished.
    Respond(AdapterMessage),
    /// Start the inferior, then report the outcome.
    Run,
}

/// What a GDB poll returned.
#[derive(Debug, Clone, PartialEq, Eq)]
pub enum GdbPoll {
    /// No event is ready.
    Pending,
    /// GDB closed its output.
    EndOfFile,
    /// An event.
    Event(GdbSessionEvent),
    /// Reading failed; the text describes why.
    Failed(String),
}

/// Why a `disconnect` request is refused, if it is; missing arguments mean
/// the defaults.
pub open spec fn disconnect_refusal(state: AdapterState, arguments: ArgumentsInput<DisconnectArguments>) -> Option<Seq<char>> {
    if state == AdapterState::Created || state == AdapterState::Launching || state
        == AdapterState::Terminated || state == AdapterState::Disconnected {
        Some(invalid_state_text("disconnect"@, state))
    } else {
        match arguments {
            ArgumentsInput::Missing => None,
            ArgumentsInput::Invalid(e) => Some("invalid disconnect arguments: "@ + e@),
            ArgumentsInput::Valid(a) => if a.suspend_debuggee {
                Some("suspendDebuggee is not supported"@)
            } else {
                None
            },
        }
    }
}

/// A `disconnect` that does not ask to suspend the debuggee (no arguments,
/// or arguments without `suspendDebuggee`) is refused exactly in the states
/// `Created`, `Launching`, `Terminated` and `Disconnected`; in every other
/// state, `Stopped` and `Running` among them, it closes the session. Asking
/// to suspend the debuggee is refused in every state.
pub proof fn law_disconnect_accepted_outside_four_states(
    state: AdapterState,
    arguments: ArgumentsInput<DisconnectArguments>,
)
    ensures
        arguments is Missing ==> (disconnect_refusal(state, arguments) is None <==> !(state
            == AdapterState::Created || state == AdapterState::Launching || state
            == AdapterState::Terminated || state == AdapterState::Disconnected)),
        arguments matches ArgumentsInput::Valid(a) ==> (!a.suspend_debuggee ==> (disconnect_refusal(
            state,
            arguments,
        ) is None <==> !(state == AdapterState::Created || state == AdapterState::Launching || state
            == AdapterState::Terminated || state == AdapterState::Disconnected))),
        arguments matches ArgumentsInput::Valid(a) ==> (a.suspend_debuggee ==> disconnect_refusal(
            state,
            arguments,
        ) is Some),
        arguments is Invalid ==> disconnect_refusal(state, arguments) is Some,
{
}

/// What the caller does next with `disconnect`.
#[derive(Debug, PartialEq, Eq)]
pub enum DisconnectStep {
    /// Send this response; the request is finished.
    Respond(AdapterMessage),
    /// Shut the GDB session down if `shutdown_session`, then report the outcome.
    Close { shutdown_session: bool },
}

/// Source of the sequence numbers of the messages the adapter sends.
#[derive(Debug)]
struct SequenceGenerator {
    next: u64,
}

impl SequenceGenerator {
    fn new() -> (res: SequenceGenerator)
        ensures
            res.next == 1,
    {
        SequenceGenerator { next: 1 }
    }

    fn next(&mut self) -> (current: u64)
        requires
            old(self).next < u64::MAX,
        ensures
            current == old(self).next,
            final(self).next == old(self).next + 1,
    {
        let current = self.next;
        self.next = self.next + 1;
        current
    }
}

/// The request and event decisions of the debug adapter. The GDB session
/// itself is driven by the caller, which reports whether one is open.
#[derive(Debug)]
pub struct AdapterCore {
    sequence: SequenceGenerator,
    state: AdapterState,
    session_open: bool,
}

impl AdapterCore {
    /// The current lifecycle state.
    pub closed spec fn spec_state(&self) -> AdapterState {
        self.state
    }

    /// The sequence number of the next message.
    pub closed spec fn upcoming(&self) -> u64 {
        self.sequence.next
    }

    /// Whether a GDB session is open.
    pub closed spec fn spec_session_open(&self) -> bool {
        self.session_open
    }

    /// Creates an adapter that has not been initialized.
    pub fn new() -> (res: AdapterCore)
        ensures
            res.spec_state() == AdapterState::Created,
            res.upcoming() == 1,
            !res.spec_session_open(),
    {
        AdapterCore { sequence: SequenceGenerator::new(), state: AdapterState::Created, session_open: false }
    }

    /// Creates an adapter in the given state, with no GDB session and no
    /// message sent yet.
    pub fn in_state(state: AdapterState) -> (res: AdapterCore)
        ensures
            res.spec_state() == state,
            res.upcoming() == 1,
            !res.spec_session_open(),
    {
        AdapterCore { sequence: SequenceGenerator::new(), state, session_open: false }
    }

    /// Returns the current adapter state.
    pub fn state(&self) -> (res: AdapterState)
        ensures
            res == self.spec_state(),
    {
        self.state
    }

    /// Returns the sequence number of the next message.
    pub fn next_sequence(&self) -> (res: u64)
        ensures
            res == self.upcoming(),
    {
        self.sequence.next
    }

    /// Returns whether a GDB session is open.
    pub fn session_open(&self) -> (res: bool)
        ensures
            res == self.spec_session_open(),
    {
        self.session_open
    }

    fn reject(&mut self, request: &Request, message: String) -> (res: AdapterMessage)
        requires
            old(self).upcoming() < u64::MAX,
        ensures
            res@ == error_response(old(self).upcoming(), *request, message@),
            final(self).upcoming() == old(self).upcoming() + 1,
            final(self).spec_state() == old(self).spec_state(),
            final(self).spec_session_open() == old(self).spec_session_open(),
    {
        let seq = self.sequence.next();
        error_response_message(seq, request, message)
    }

    fn reject_invalid_state(&mut self, request: &Request, command: &str) -> (res: AdapterMessage)
        requires
            old(self).upcoming() < u64::MAX,
        ensures
            res@ == error_response(
                old(self).upcoming(),
                *request,
                invalid_state_text(command@, old(self).spec_state()),
            ),
            final(self).upcoming() == old(self).upcoming() + 1,
            final(self).spec_state() == old(self).spec_state(),
            final(self).spec_session_open() == old(self).spec_session_open(),
    {
        let message = invalid_state_message(command, self.state);
        self.reject(request, message)
    }

    fn respond(&mut self, request: &Request, body: MessageBody) -> (res: AdapterMessage)
        requires
            old(self).upcoming() < u64::MAX,
        ensures
            res@ == success_response(old(self).upcoming(), *request, body@),
            final(self).upcoming() == old(self).upcoming() + 1,
            final(self).spec_state() == old(self).spec_state(),
            final(self).spec_session_open() == old(self).spec_session_open(),
    {
        let seq = self.sequence.next();
        success_response_message(seq, request, body)
    }

    fn emit(&mut self, name: &str, body: MessageBody) -> (res: AdapterMessage)
        requires
            old(self).upcoming() < u64::MAX,
        ensures
            res@ == event_message(old(self).upcoming(), name@, body@),
            final(self).upcoming() == old(self).upcoming() + 1,
            final(self).spec_state() == old(self).spec_state(),
            final(self).spec_session_open() == old(self).spec_session_open(),
    {
        let seq = self.sequence.next();
        event(seq, name, body)
    }

    /// Handles `initialize`: the capabilities, then the `initialized` event;
    /// a second `initialize` is refused.
    pub fn handle_initialize(&mut self, request: &Request) -> (res: Vec<AdapterMessage>)
        requires
            old(self).upcoming() < u64::MAX - 1,
        ensures
            (model_of(*final(self)), messages_view(res@)) == request_step(
                model_of(*old(self)),
                *request,
                RequestInput::Initialize,
            ),
            numbered_from(messages_view(res@), old(self).upcoming() as int),
            final(self).upcoming() == old(self).upcoming() + res@.len(),
            final(self).spec_session_open() == old(self).spec_session_open(),
            old(self).spec_state() == AdapterState::Created ==> {
                &&& messages_view(res@) == seq![
                    success_response(
                        old(self).upcoming(),
                        *request,
                        SpecBody::Capabilities(spec_capabilities()),
                    ),
                    event_message((old(self).upcoming() + 1) as u64, "initialized"@, SpecBody::Empty),
                ]
                &&& final(self).spec_state() == AdapterState::Initialized
            },
            old(self).spec_state() != AdapterState::Created ==> {
                &&& messages_view(res@) == seq![
                    error_response(
                        old(self).upcoming(),
                        *request,
                        "the debug adapter has already been initialized"@,
                    ),
                ]
                &&& final(self).spec_state() == old(self).spec_state()
            },
    {
        let mut out: Vec<AdapterMessage> = Vec::new();
        if self.state != AdapterState::Created {
            let m = self.reject(request, "the debug adapter has already been initialized".to_owned());
            out.push(m);
            assert(messages_view(out@) =~= seq![m@]);
            return out;
        }
        let capabilities = adapter_capabilities();
        let m = self.respond(request, MessageBody::Capabilities(capabilities));
        out.push(m);
        self.state = AdapterState::Initialized;
        let e = self.emit("initialized", MessageBody::Empty);
        out.push(e);
        assert(messages_view(out@) =~= seq![m@, e@]);
        out
    }

    /// Refuses a request the adapter does not implement.
    pub fn reject_unsupported(&mut self, request: &Request) -> (res: AdapterMessage)
        requires
            old(self).upcoming() < u64::MAX,
        ensures
            (model_of(*final(self)), seq![res@]) == request_step(
                model_of(*old(self)),
                *request,
                RequestInput::Unsupported,
            ),
            res@ == error_response(
                old(self).upcoming(),
                *request,
                unsupported_text(debug_text(request.command@)),
            ),
            final(self).upcoming() == old(self).upcoming() + 1,
            final(self).spec_state() == old(self).spec_state(),
            final(self).spec_session_open() == old(self).spec_session_open(),
    {
        let quoted = debug_quoted(request.command.as_str());
        let message = unsupported_command_message(quoted.as_str());
        self.reject(request, message)
    }

    fn output(&mut self, category: &str, output: String) -> (res: AdapterMessage)
        requires
            old(self).upcoming() < u64::MAX,
        ensures
            res@ == output_event(old(self).upcoming(), category@, output@),
            final(self).upcoming() == old(self).upcoming() + 1,
            final(self).spec_state() == old(self).spec_state(),
            final(self).spec_session_open() == old(self).spec_session_open(),
    {
        let body = MessageBody::Output { category: category.to_owned(), output };
        self.emit("output", body)
    }

    fn exit_messages(&mut self, exit_code: i32, out: &mut Vec<AdapterMessage>)
        requires
            old(self).upcoming() + 2 <= u64::MAX,
        ensures
            messages_view(final(out)@) == messages_view(old(out)@) + exit_events(old(self).upcoming(), exit_code),
            final(self).upcoming() == old(self).upcoming() + 2,
            final(self).spec_state() == AdapterState::Terminated,
            final(self).spec_session_open() == old(self).spec_session_open(),
    {
        let ghost before = out@;
        self.state = AdapterState::Terminated;
        let exited = self.emit("exited", MessageBody::Exited { exit_code });
        out.push(exited);
        let terminated = self.emit("terminated", MessageBody::Empty);
        out.push(terminated);
        assert(messages_view(out@) =~= messages_view(before) + seq![exited@, terminated@]);
    }

    fn stop(&mut self, reason: GdbStopReason, thread_id: Option<u64>, out: &mut Vec<AdapterMessage>)
        requires
            old(self).upcoming() + stop_message_count(reason) <= u64::MAX,
        ensures
            messages_view(final(out)@) == messages_view(old(out)@) + stop_messages(old(self).upcoming(), reason, thread_id),
            final(self).upcoming() == old(self).upcoming() + stop_messages(old(self).upcoming(), reason, thread_id).len(),
            final(self).spec_state() == state_after_stop(reason),
            final(self).spec_session_open() == old(self).spec_session_open(),
    {
        let ghost before = out@;
        let ghost seq0 = self.upcoming();
        let thread: u64 = match thread_id {
            Some(t) => t,
            None => 1,
        };
        let (reason_text, description, hit_ids): (&str, Option<String>, Option<Vec<u64>>) = match reason {
            GdbStopReason::Breakpoint { breakpoint_number } => {
                let hits = match breakpoint_number {
                    Some(n) => {
                        let mut v: Vec<u64> = Vec::new();
                        v.push(n);
                        Some(v)
                    },
                    None => None,
                };
                ("breakpoint", None, hits)
            },
            GdbStopReason::Step => ("step", None, None),
            GdbStopReason::Signal { name, meaning } => {
                let description = match (name, meaning) {
                    (Some(n), Some(m)) => {
                        let head = concat(n.as_str(), ": ");
                        Some(concat(head.as_str(), m.as_str()))
                    },
                    (Some(n), None) => Some(n),
                    (None, Some(m)) => Some(m),
                    (None, None) => None,
                };
                ("exception", description, None)
            },
            GdbStopReason::Unknown { reason } => ("pause", reason, None),
            GdbStopReason::Exited { exit_code } => {
                let code: i32 = match exit_code {
                    Some(c) => c,
                    None => 0,
                };
                self.exit_messages(code, out);
                return;
            },
            GdbStopReason::ExitedSignalled { signal_name } => {
                match signal_name {
                    Some(n) => {
                        let head = concat("Inferior exited because of signal ", n.as_str());
                        let text = concat(head.as_str(), "\n");
                        let m = self.output("stderr", text);
                        out.push(m);
                        let ghost mid = out@;
                        self.exit_messages(1, out);
                        assert(messages_view(mid) =~= messages_view(before) + seq![m@]);
                        assert(messages_view(out@) =~= messages_view(before) + (seq![m@] + exit_events((seq0 + 1) as u64, 1)));
                    },
                    None => {
                        self.exit_messages(1, out);
                    },
                }
                return;
            },
        };
        self.state = AdapterState::Stopped;
        let body = StoppedEventBody {
            reason: reason_text.to_owned(),
            thread_id: thread,
            all_threads_stopped: true,
            description,
            hit_breakpoint_ids: hit_ids,
        };
        let m = self.emit("stopped", MessageBody::Stopped(body));
        out.push(m);
        assert(messages_view(out@) =~= messages_view(before) + seq![m@]);
    }

    fn report_event(&mut self, event: GdbSessionEvent, out: &mut Vec<AdapterMessage>)
        requires
            old(self).upcoming() + spec_event_message_count(event) <= u64::MAX,
        ensures
            messages_view(final(out)@) == messages_view(old(out)@) + event_messages(old(self).upcoming(), event),
            final(self).upcoming() == old(self).upcoming() + event_messages(old(self).upcoming(), event).len(),
            final(self).spec_state() == state_after_event(old(self).spec_state(), event),
            final(self).spec_session_open() == old(self).spec_session_open(),
    {
        let ghost before = out@;
        match event {
            GdbSessionEvent::TargetOutput(o) => {
                let m = self.output("stdout", o);
                out.push(m);
                assert(messages_view(out@) =~= messages_view(before) + seq![m@]);
            },
            GdbSessionEvent::ConsoleOutput(o) => {
                let m = self.output("console", o);
                out.push(m);
                assert(messages_view(out@) =~= messages_view(before) + seq![m@]);
            },
            GdbSessionEvent::DiagnosticOutput(o) => {
                let m = self.output("stderr", o);
                out.push(m);
                assert(messages_view(out@) =~= messages_view(before) + seq![m@]);
            },
            GdbSessionEvent::Stopped { reason, thread_id, frame: _ } => {
                self.stop(reason, thread_id, out);
            },
            GdbSessionEvent::LateResult { class, message, .. } => {
                let text = match message {
                    Some(m) => {
                        let a = concat("GDB execution result ", class.as_str());
                        let b = concat(a.as_str(), ": ");
                        let c = concat(b.as_str(), m.as_str());
                        concat(c.as_str(), "\n")
                    },
                    None => {
                        let a = concat("GDB execution result: ", class.as_str());
                        concat(a.as_str(), "\n")
                    },
                };
                let m = self.output("stderr", text);
                out.push(m);
                assert(messages_view(out@) =~= messages_view(before) + seq![m@]);
            },
            GdbSessionEvent::AsyncRecord { .. } => {
                assert(messages_view(out@) =~= messages_view(before) + Seq::<SpecMessage>::empty());
            },
            GdbSessionEvent::EndOfFile => {
                self.state = AdapterState::Terminated;
                let m = self.emit("terminated", MessageBody::Empty);
                out.push(m);
                assert(messages_view(out@) =~= messages_view(before) + seq![m@]);
            },
        }
    }

    /// Reports one GDB session event to the client.
    pub fn session_event(&mut self, event: GdbSessionEvent) -> (res: Vec<AdapterMessage>)
        requires
            old(self).upcoming() + spec_event_message_count(event) <= u64::MAX,
        ensures
            messages_view(res@) == event_messages(old(self).upcoming(), event),
            numbered_from(messages_view(res@), old(self).upcoming() as int),
            final(self).upcoming() == old(self).upcoming() + res@.len(),
            final(self).spec_state() == state_after_event(old(self).spec_state(), event),
            final(self).spec_session_open() == old(self).spec_session_open(),
    {
        let mut out: Vec<AdapterMessage> = Vec::new();
        proof {
            lemma_event_messages(self.upcoming(), event);
        }
        self.report_event(event, &mut out);
        assert(messages_view(out@) =~= event_messages(old(self).upcoming(), event));
        out
    }

    /// Starts handling `configurationDone`: refuses it, or moves to
    /// `Configured` and asks the caller to start the inferior.
    pub fn begin_configuration_done(&mut self, request: &Request) -> (res: ConfigurationStep)
        requires
            old(self).upcoming() < u64::MAX,
        ensures
            final(self).spec_session_open() == old(self).spec_session_open(),
            old(self).spec_state() != AdapterState::Connected ==> {
                &&& res matches ConfigurationStep::Respond(m) && m@ == error_response(
                    old(self).upcoming(),
                    *request,
                    invalid_state_text("configurationDone"@, old(self).spec_state()),
                )
                &&& final(self).spec_state() == old(self).spec_state()
                &&& final(self).upcoming() == old(self).upcoming() + 1
            },
            res matches ConfigurationStep::Respond(m) ==> forall|started: Result<Vec<GdbSessionEvent>, String>|
                #[trigger] request_step(
                    model_of(*old(self)),
                    *request,
                    (RequestInput::ConfigurationDone { started }),
                ) == (model_of(*final(self)), seq![m@]),
            res is Run ==> model_of(*final(self)) == (AdapterModel {
                state: AdapterState::Configured,
                ..model_of(*old(self))
            }),
            old(self).spec_state() == AdapterState::Connected && !old(self).spec_session_open() ==> {
                &&& res matches ConfigurationStep::Respond(m) && m@ == error_response(
                    old(self).upcoming(),
                    *request,
                    "GDB session is not available"@,
                )
                &&& final(self).spec_state() == AdapterState::Connected
                &&& final(self).upcoming() == old(self).upcoming() + 1
            },
            old(self).spec_state() == AdapterState::Connected && old(self).spec_session_open() ==> {
                &&& res is Run
                &&& final(self).spec_state() == AdapterState::Configured
                &&& final(self).upcoming() == old(self).upcoming()
            },
    {
        if self.state != AdapterState::Connected {
            return ConfigurationStep::Respond(self.reject_invalid_state(request, "configurationDone"));
        }
        if !self.session_open {
            return ConfigurationStep::Respond(
                self.reject(request, "GDB session is not available".to_owned()),
            );
        }
        self.state = AdapterState::Configured;
        ConfigurationStep::Run
    }

    /// Finishes `configurationDone` with the outcome of starting the
    /// inferior: on success the response, then the events GDB reported
    /// before the start completed, with the adapter `Running` before them;
    /// on failure the adapter is `Connected` again.
    pub fn finish_configuration_done(
        &mut self,
        request: &Request,
        outcome: Result<Vec<GdbSessionEvent>, String>,
    ) -> (res: Vec<AdapterMessage>)
        requires
            old(self).spec_state() == AdapterState::Configured,
            match outcome {
                Ok(events) => old(self).upcoming() + 1 + 3 * events@.len() <= u64::MAX,
                Err(_) => old(self).upcoming() < u64::MAX,
            },
        ensures
            old(self).spec_session_open() ==> request_step(
                (AdapterModel {
                    state: AdapterState::Connected,
                    upcoming: old(self).upcoming() as int,
                    session_open: old(self).spec_session_open(),
                }),
                *request,
                (RequestInput::ConfigurationDone { started: outcome }),
            ) == (model_of(*final(self)), messages_view(res@)),
            numbered_from(messages_view(res@), old(self).upcoming() as int),
            final(self).upcoming() == old(self).upcoming() + res@.len(),
            final(self).spec_session_open() == old(self).spec_session_open(),
            match outcome {
                Ok(events) => {
                    &&& messages_view(res@) == seq![
                        success_response(old(self).upcoming(), *request, SpecBody::Empty),
                    ] + events_messages((old(self).upcoming() + 1) as u64, events@)
                    &&& final(self).spec_state() == state_after_events(AdapterState::Running, events@)
                },
                Err(e) => {
                    &&& messages_view(res@) == seq![
                        error_response(
                            old(self).upcoming(),
                            *request,
                            "failed to start QNX inferior: "@ + e@,
                        ),
                    ]
                    &&& final(self).spec_state() == AdapterState::Connected
                },
            },
    {
        let mut out: Vec<AdapterMessage> = Vec::new();
        match outcome {
            Err(e) => {
                self.state = AdapterState::Connected;
                let message = concat("failed to start QNX inferior: ", e.as_str());
                let m = self.reject(request, message);
                out.push(m);
                assert(messages_view(out@) =~= seq![m@]);
                out
            },
            Ok(events) => {
                self.state = AdapterState::Running;
                let m = self.respond(request, MessageBody::Empty);
                out.push(m);
                let ghost first = (old(self).upcoming() + 1) as u64;
                let ghost all = events@;
                assert(messages_view(out@) =~= seq![m@] + events_messages(first, all.take(0)));
                for e in it: events.into_iter()
                    invariant
                        it.seq() == all,
                        first + 3 * all.len() <= u64::MAX,
                        first == old(self).upcoming() + 1,
                        messages_view(out@) == seq![m@] + events_messages(first, all.take(it.index() as int)),
                        self.upcoming() == first + events_messages(first, all.take(it.index() as int)).len(),
                        self.spec_state() == state_after_events(AdapterState::Running, all.take(it.index() as int)),
                        self.spec_session_open() == old(self).spec_session_open(),
                {
                    let ghost k = it.index() as int;
                    let ghost prefix = all.take(k);
                    proof {
                        lemma_events_messages(first, prefix);
                        assert(all.take(k + 1).drop_last() =~= prefix);
                        assert(all.take(k + 1).last() == all[k]);
                    }
                    let ghost before = out@;
                    self.report_event(e, &mut out);
                    proof {
                        assert(messages_view(out@) =~= seq![m@] + events_messages(first, all.take(k + 1)));
                    }
                }
                proof {
                    assert(all.take(all.len() as int) =~= all);
                    lemma_events_messages(first, all);
                    let msgs = messages_view(out@);
                    let rest = events_messages(first, all);
                    assert forall|i: int| 0 <= i < msgs.len() implies #[trigger] message_seq(msgs[i]) == old(self).upcoming() + i by {
                        if i > 0 {
                            assert(msgs[i] == rest[i - 1]);
                        }
                    }
                }
                out
            },
        }
    }

    /// Whether the caller should poll the GDB session for events: the
    /// inferior runs or is stopped and a session is open.
    pub fn wants_gdb_events(&self) -> (res: bool)
        ensures
            res == ((self.spec_state() == AdapterState::Running || self.spec_state()
                == AdapterState::Stopped) && self.spec_session_open()),
    {
        (self.state == AdapterState::Running || self.state == AdapterState::Stopped) && self.session_open
    }

    /// Handles what one poll of the GDB session returned; the flag says
    /// whether to poll again.
    pub fn on_gdb_poll(&mut self, poll: GdbPoll) -> (res: (Vec<AdapterMessage>, bool))
        requires
            old(self).upcoming() + spec_poll_message_count(poll) <= u64::MAX,
        ensures
            (model_of(*final(self)), messages_view(res.0@)) == poll_step(model_of(*old(self)), poll),
            numbered_from(messages_view(res.0@), old(self).upcoming() as int),
            final(self).upcoming() == old(self).upcoming() + res.0@.len(),
            final(self).spec_session_open() == old(self).spec_session_open(),
            match poll {
                GdbPoll::Pending => {
                    &&& res.0@.len() == 0
                    &&& !res.1
                    &&& final(self).spec_state() == old(self).spec_state()
                },
                GdbPoll::EndOfFile => {
                    &&& messages_view(res.0@) == seq![terminated_event(old(self).upcoming())]
                    &&& !res.1
                    &&& final(self).spec_state() == AdapterState::Terminated
                },
                GdbPoll::Event(e) => {
                    &&& messages_view(res.0@) == event_messages(old(self).upcoming(), e)
                    &&& res.1
                    &&& final(self).spec_state() == state_after_event(old(self).spec_state(), e)
                },
                GdbPoll::Failed(e) => {
                    &&& messages_view(res.0@) == seq![
                        output_event(old(self).upcoming(), "stderr"@, "GDB event error: "@ + e@ + "\n"@),
                        terminated_event((old(self).upcoming() + 1) as u64),
                    ]
                    &&& !res.1
                    &&& final(self).spec_state() == AdapterState::Terminated
                },
            },
    {
        let mut out: Vec<AdapterMessage> = Vec::new();
        match poll {
            GdbPoll::Pending => (out, false),
            GdbPoll::EndOfFile => {
                self.state = AdapterState::Terminated;
                let m = self.emit("terminated", MessageBody::Empty);
                out.push(m);
                assert(messages_view(out@) =~= seq![m@]);
                (out, false)
            },
            GdbPoll::Event(e) => {
                let msgs = self.session_event(e);
                (msgs, true)
            },
            GdbPoll::Failed(e) => {
                let head = concat("GDB event error: ", e.as_str());
                let text = concat(head.as_str(), "\n");
                let m = self.output("stderr", text);
                out.push(m);
                self.state = AdapterState::Terminated;
                let t = self.emit("terminated", MessageBody::Empty);
                out.push(t);
                assert(messages_view(out@) =~= seq![m@, t@]);
                (out, false)
            },
        }
    }

    /// Starts handling `disconnect`: refuses it, or asks the caller to shut
    /// the GDB session down when one is open.
    pub fn begin_disconnect(&mut self, request: &Request, arguments: ArgumentsInput<DisconnectArguments>) -> (res: DisconnectStep)
        requires
            old(self).upcoming() < u64::MAX,
        ensures
            final(self).spec_state() == old(self).spec_state(),
            final(self).spec_session_open() == old(self).spec_session_open(),
            match disconnect_refusal(old(self).spec_state(), arguments) {
                Some(text) => {
                    &&& res matches DisconnectStep::Respond(m)
                        && m@ == error_response(old(self).upcoming(), *request, text)
                        && forall|shut_down: Result<(), String>| #[trigger] request_step(
                            model_of(*old(self)),
                            *request,
                            (RequestInput::Disconnect { arguments, shut_down }),
                        ) == (model_of(*final(self)), seq![m@])
                    &&& final(self).upcoming() == old(self).upcoming() + 1
                },
                None => {
                    &&& res == DisconnectStep::Close { shutdown_session: old(self).spec_session_open() }
                    &&& final(self).upcoming() == old(self).upcoming()
                },
            },
    {
        if self.state == AdapterState::Created || self.state == AdapterState::Launching
            || self.state == AdapterState::Terminated || self.state == AdapterState::Disconnected {
            return DisconnectStep::Respond(self.reject_invalid_state(request, "disconnect"));
        }
        let suspend = match arguments {
            ArgumentsInput::Missing => false,
            ArgumentsInput::Invalid(e) => {
                let message = concat("invalid disconnect arguments: ", e.as_str());
                return DisconnectStep::Respond(self.reject(request, message));
            },
            ArgumentsInput::Valid(a) => a.suspend_debuggee,
        };
        if suspend {
            return DisconnectStep::Respond(
                self.reject(request, "suspendDebuggee is not supported".to_owned()),
            );
        }
        DisconnectStep::Close { shutdown_session: self.session_open }
    }

    /// Finishes `disconnect` with the outcome of shutting the session down:
    /// on success the session is closed, the adapter `Terminated`, and the
    /// response is followed by a `terminated` event.
    pub fn finish_disconnect(&mut self, request: &Request, outcome: Result<(), String>) -> (res: Vec<AdapterMessage>)
        requires
            old(self).upcoming() + 2 <= u64::MAX,
        ensures
            old(self).spec_session_open() ==> forall|arguments: ArgumentsInput<DisconnectArguments>|
                disconnect_refusal(old(self).spec_state(), arguments) is None ==> #[trigger] request_step(
                    model_of(*old(self)),
                    *request,
                    (RequestInput::Disconnect { arguments, shut_down: outcome }),
                ) == (model_of(*final(self)), messages_view(res@)),
            !old(self).spec_session_open() && outcome is Ok ==> forall|
                arguments: ArgumentsInput<DisconnectArguments>,
                shut_down: Result<(), String>,
            |
                disconnect_refusal(old(self).spec_state(), arguments) is None ==> #[trigger] request_step(
                    model_of(*old(self)),
                    *request,
                    (RequestInput::Disconnect { arguments, shut_down }),
                ) == (model_of(*final(self)), messages_view(res@)),
            numbered_from(messages_view(res@), old(self).upcoming() as int),
            final(self).upcoming() == old(self).upcoming() + res@.len(),
            match outcome {
                Ok(()) => {
                    &&& messages_view(res@) == seq![
                        success_response(old(self).upcoming(), *request, SpecBody::Empty),
                        terminated_event((old(self).upcoming() + 1) as u64),
                    ]
                    &&& final(self).spec_state() == AdapterState::Terminated
                    &&& !final(self).spec_session_open()
                },
                Err(e) => {
                    &&& messages_view(res@) == seq![
                        error_response(
                            old(self).upcoming(),
                            *request,
                            "failed to shut down GDB session: "@ + e@,
                        ),
                    ]
                    &&& final(self).spec_state() == old(self).spec_state()
                    &&& final(self).spec_session_open() == old(self).spec_session_open()
                },
            },
    {
        let mut out: Vec<AdapterMessage> = Vec::new();
        match outcome {
            Err(e) => {
                let message = concat("failed to shut down GDB session: ", e.as_str());
                let m = self.reject(request, message);
                out.push(m);
                assert(messages_view(out@) =~= seq![m@]);
            },
            Ok(()) => {
                self.session_open = false;
                self.state = AdapterState::Terminated;
                let m = self.respond(request, MessageBody::Empty);
                out.push(m);
                let t = self.emit("terminated", MessageBody::Empty);
                out.push(t);
                assert(messages_view(out@) =~= seq![m@, t@]);
            },
        }
        out
    }

    /// Records that the DAP input closed: the adapter is `Disconnected` and
    /// its session closed; the result says whether one was open and must be
    /// shut down.
    pub fn close_input(&mut self) -> (shutdown_session: bool)
        ensures
            shutdown_session == old(self).spec_session_open(),
            final(self).spec_state() == AdapterState::Disconnected,
            !final(self).spec_session_open(),
            final(self).upcoming() == old(self).upcoming(),
    {
        let open = self.session_open;
        self.session_open = false;
        self.state = AdapterState::Disconnected;
        open
    }

    /// Starts handling `launch`: refuses it, or moves to `Launching` and asks
    /// the caller to connect a GDB session with the configuration the
    /// arguments describe.
    pub fn begin_launch(&mut self, request: &Request, arguments: ArgumentsInput<LaunchArguments>) -> (res: LaunchStep)
        requires
            old(self).upcoming() < u64::MAX,
        ensures
            final(self).spec_session_open() == old(self).spec_session_open(),
            match launch_refusal(old(self).spec_state(), arguments) {
                Some(text) => {
                    &&& res matches LaunchStep::Respond(m)
                        && m@ == error_response(old(self).upcoming(), *request, text)
                        && forall|connected: Result<(), String>| #[trigger] request_step(
                            model_of(*old(self)),
                            *request,
                            (RequestInput::Launch { arguments, connected }),
                        ) == (model_of(*final(self)), seq![m@])
                    &&& final(self).spec_state() == old(self).spec_state()
                    &&& final(self).upcoming() == old(self).upcoming() + 1
                },
                None => {
                    &&& res matches LaunchStep::Connect(config)
                        && arguments matches ArgumentsInput::Valid(a)
                        && launch_config_of(config, a)
                    &&& final(self).spec_state() == AdapterState::Launching
                    &&& final(self).upcoming() == old(self).upcoming()
                },
            },
    {
        if self.state != AdapterState::Initialized {
            return LaunchStep::Respond(self.reject_invalid_state(request, "launch"));
        }
        match arguments {
            ArgumentsInput::Missing => LaunchStep::Respond(
                self.reject(request, "launch request does not contain arguments".to_owned()),
            ),
            ArgumentsInput::Invalid(e) => {
                let message = concat("invalid launch arguments: ", e.as_str());
                LaunchStep::Respond(self.reject(request, message))
            },
            ArgumentsInput::Valid(a) => {
                self.state = AdapterState::Launching;
                LaunchStep::Connect(launch_config(&a))
            },
        }
    }

    /// Finishes `launch` with the outcome of connecting the session: on
    /// success the session is open and the adapter `Connected`; on failure,
    /// described by `outcome`'s text, the adapter is `Initialized` again.
    pub fn finish_launch(&mut self, request: &Request, outcome: Result<(), String>) -> (res: AdapterMessage)
        requires
            old(self).spec_state() == AdapterState::Launching,
            old(self).upcoming() < u64::MAX,
        ensures
            forall|a: LaunchArguments| #[trigger] request_step(
                (AdapterModel {
                    state: AdapterState::Initialized,
                    upcoming: old(self).upcoming() as int,
                    session_open: old(self).spec_session_open(),
                }),
                *request,
                (RequestInput::Launch { arguments: ArgumentsInput::Valid(a), connected: outcome }),
            ) == (model_of(*final(self)), seq![res@]),
            final(self).upcoming() == old(self).upcoming() + 1,
            match outcome {
                Ok(()) => {
                    &&& res@ == success_response(old(self).upcoming(), *request, SpecBody::Empty)
                    &&& final(self).spec_state() == AdapterState::Connected
                    &&& final(self).spec_session_open()
                },
                Err(e) => {
                    &&& res@ == error_response(
                        old(self).upcoming(),
                        *request,
                        "failed to launch QNX debug session: "@ + e@,
                    )
                    &&& final(self).spec_state() == AdapterState::Initialized
                    &&& final(self).spec_session_open() == old(self).spec_session_open()
                },
            },
    {
        match outcome {
            Ok(()) => {
                self.session_open = true;
                self.state = AdapterState::Connected;
                self.respond(request, MessageBody::Empty)
            },
            Err(e) => {
                self.state = AdapterState::Initialized;
                let message = concat("failed to launch QNX debug session: ", e.as_str());
                self.reject(request, message)
            },
        }
    }

    /// Starts handling `setBreakpoints`: refuses it, or asks the caller to
    /// replace the breakpoints of the source with breakpoints at the
    /// requested lines.
    pub fn begin_set_breakpoints(
        &mut self,
        request: &Request,
        arguments: ArgumentsInput<SetBreakpointsArguments>,
    ) -> (res: BreakpointsStep)
        requires
            old(self).upcoming() < u64::MAX,
        ensures
            final(self).spec_state() == old(self).spec_state(),
            final(self).spec_session_open() == old(self).spec_session_open(),
            match set_breakpoints_refusal(old(self).spec_state(), old(self).spec_session_open(), arguments) {
                Some(text) => {
                    &&& res matches BreakpointsStep::Respond(m)
                        && m@ == error_response(old(self).upcoming(), *request, text)
                        && forall|installed: Result<Vec<GdbBreakpoint>, String>| #[trigger] request_step(
                            model_of(*old(self)),
                            *request,
                            (RequestInput::SetBreakpoints { arguments, installed }),
                        ) == (model_of(*final(self)), seq![m@])
                    &&& final(self).upcoming() == old(self).upcoming() + 1
                },
                None => {
                    &&& res matches BreakpointsStep::Install { source, breakpoints }
                        && arguments matches ArgumentsInput::Valid(a)
                        && a.source.path matches Some(p)
                        && source@ == p@
                        && source_lines(breakpoints@) == requested_lines(a.breakpoints@)
                    &&& final(self).upcoming() == old(self).upcoming()
                },
            },
    {
        if !(self.state == AdapterState::Connected || self.state == AdapterState::Configured
            || self.state == AdapterState::Stopped) {
            return BreakpointsStep::Respond(self.reject_invalid_state(request, "setBreakpoints"));
        }
        let arguments = match arguments {
            ArgumentsInput::Missing => {
                return BreakpointsStep::Respond(
                    self.reject(request, "setBreakpoints request does not contain arguments".to_owned()),
                );
            },
            ArgumentsInput::Invalid(e) => {
                let message = concat("invalid setBreakpoints arguments: ", e.as_str());
                return BreakpointsStep::Respond(self.reject(request, message));
            },
            ArgumentsInput::Valid(a) => a,
        };
        let source = match arguments.source.path {
            Some(p) => p,
            None => {
                return BreakpointsStep::Respond(
                    self.reject(request, "setBreakpoints source does not contain a path".to_owned()),
                );
            },
        };
        match find_first_problem(&arguments.breakpoints) {
            Some(t) => {
                return BreakpointsStep::Respond(self.reject(request, t.to_owned()));
            },
            None => {},
        }
        if !self.session_open {
            return BreakpointsStep::Respond(
                self.reject(request, "GDB session is not available".to_owned()),
            );
        }
        let breakpoints = source_breakpoints(&arguments.breakpoints);
        BreakpointsStep::Install { source, breakpoints }
    }

    /// Finishes `setBreakpoints` with the breakpoints GDB reported, in DAP
    /// form, or with the error that stopped the replacement.
    pub fn finish_set_breakpoints(
        &mut self,
        request: &Request,
        outcome: Result<Vec<GdbBreakpoint>, String>,
    ) -> (res: AdapterMessage)
        requires
            old(self).upcoming() < u64::MAX,
        ensures
            forall|a: SetBreakpointsArguments|
                set_breakpoints_refusal(
                    old(self).spec_state(),
                    old(self).spec_session_open(),
                    ArgumentsInput::Valid(a),
                ) is None ==> #[trigger] request_step(
                    model_of(*old(self)),
                    *request,
                    (RequestInput::SetBreakpoints { arguments: ArgumentsInput::Valid(a), installed: outcome }),
                ) == (model_of(*final(self)), seq![res@]),
            final(self).upcoming() == old(self).upcoming() + 1,
            final(self).spec_state() == old(self).spec_state(),
            final(self).spec_session_open() == old(self).spec_session_open(),
            match outcome {
                Ok(bps) => res@ == success_response(
                    old(self).upcoming(),
                    *request,
                    SpecBody::Breakpoints(dap_breakpoints(bps@)),
                ),
                Err(e) => res@ == error_response(
                    old(self).upcoming(),
                    *request,
                    "failed to set source breakpoints: "@ + e@,
                ),
            },
    {
        match outcome {
            Ok(bps) => {
                let converted = to_dap_breakpoints(bps);
                self.respond(request, MessageBody::Breakpoints(converted))
            },
            Err(e) => {
                let message = concat("failed to set source breakpoints: ", e.as_str());
                self.reject(request, message)
            },
        }
    }
}

} // verus!
