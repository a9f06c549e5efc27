use vstd::prelude::*;

use super::breakpoints::{DapBreakpoint, SpecDapBreakpoint};
use crate::dap::protocol::Request;
use crate::gdb_mi::strings::push_str;

verus! {

/// Debug capabilities announced in the `initialize` response.
#[derive(Debug, Clone, Copy, PartialEq, Eq)]
pub struct Capabilities {
    pub supports_configuration_done_request: bool,
    pub supports_function_breakpoints: bool,
    pub supports_conditional_breakpoints: bool,
    pub supports_hit_conditional_breakpoints: bool,
    pub supports_evaluate_for_hovers: bool,
    pub supports_terminate_request: bool,
    pub supports_restart_request: bool,
    pub supports_step_back: bool,
    pub supports_set_variable: bool,
    pub supports_read_memory_request: bool,
    pub supports_disassemble_request: bool,
    pub support_terminate_debuggee: bool,
    pub support_suspend_debuggee: bool,
}

/// The capabilities of this adapter: only the `configurationDone` request
/// among the optional features.
pub open spec fn spec_capabilities() -> Capabilities {
    Capabilities {
        supports_configuration_done_request: true,
        supports_function_breakpoints: false,
        supports_conditional_breakpoints: false,
        supports_hit_conditional_breakpoints: false,
        supports_evaluate_for_hovers: false,
        supports_terminate_request: false,
        supports_restart_request: false,
        supports_step_back: false,
        supports_set_variable: false,
        supports_read_memory_request: false,
        supports_disassemble_request: false,
        support_terminate_debuggee: false,
        support_suspend_debuggee: false,
    }
}

/// The capabilities announced by the adapter.
pub fn adapter_capabilities() -> (res: Capabilities)
    ensures
        res == spec_capabilities(),
{
    Capabilities {
        supports_configuration_done_request: true,
        supports_function_breakpoints: false,
        supports_conditional_breakpoints: false,
        supports_hit_conditional_breakpoints: false,
        supports_evaluate_for_hovers: false,
        supports_terminate_request: false,
        supports_restart_request: false,
        supports_step_back: false,
        supports_set_variable: false,
        supports_read_memory_request: false,
        supports_disassemble_request: false,
        support_terminate_debuggee: false,
        support_suspend_debuggee: false,
    }
}

/// Body of a `stopped` event.
#[derive(Debug, Clone, PartialEq, Eq)]
pub struct StoppedEventBody {
    /// DAP stop reason (`breakpoint`, `step`, `exception` or `pause`).
    pub reason: String,
    /// Thread that stopped.
    pub thread_id: u64,
    /// Whether every thread stopped.
    pub all_threads_stopped: bool,
    /// Additional description of the stop.
    pub description: Option<String>,
    /// Breakpoints that were hit.
    pub hit_breakpoint_ids: Option<Vec<u64>>,
}

/// Body of a response or an event sent by the adapter.
#[derive(Debug, Clone, PartialEq, Eq)]
pub enum MessageBody {
    /// No body.
    Empty,
    /// Capabilities of an `initialize` response.
    Capabilities(Capabilities),
    /// Breakpoints of a `setBreakpoints` response.
    Breakpoints(Vec<DapBreakpoint>),
    /// Body of an `output` event.
    Output { category: String, output: String },
    /// Body of a `stopped` event.
    Stopped(StoppedEventBody),
    /// Body of an `exited` event.
    Exited { exit_code: i32 },
}

/// A response or event produced by the adapter, in the order it is sent.
#[derive(Debug, Clone, PartialEq, Eq)]
pub enum AdapterMessage {
    /// A response to a request.
    Response {
        seq: u64,
        request_seq: u64,
        success: bool,
        command: String,
        message: Option<String>,
        body: MessageBody,
    },
    /// An event.
    Event { seq: u64, event: String, body: MessageBody },
}

/// Mathematical model of a message body.
pub enum SpecBody {
    Empty,
    Capabilities(Capabilities),
    Breakpoints(Seq<SpecDapBreakpoint>),
    Output { category: Seq<char>, output: Seq<char> },
    Stopped {
        reason: Seq<char>,
        thread_id: u64,
        all_threads_stopped: bool,
        description: Option<Seq<char>>,
        hit_breakpoint_ids: Option<Seq<u64>>,
    },
    Exited { exit_code: i32 },
}

/// Mathematical model of an adapter message.
pub enum SpecMessage {
    Response {
        seq: u64,
        request_seq: u64,
        success: bool,
        command: Seq<char>,
        message: Option<Seq<char>>,
        body: SpecBody,
    },
    Event { seq: u64, event: Seq<char>, body: SpecBody },
}

/// The models of a sequence of DAP breakpoints.
pub open spec fn breakpoints_view(v: Seq<DapBreakpoint>) -> Seq<SpecDapBreakpoint> {
    v.map_values(|b: DapBreakpoint| b@)
}

impl View for MessageBody {
    type V = SpecBody;

    open spec fn view(&self) -> SpecBody {
        match self {
            MessageBody::Empty => SpecBody::Empty,
            MessageBody::Capabilities(c) => SpecBody::Capabilities(*c),
            MessageBody::Breakpoints(v) => SpecBody::Breakpoints(breakpoints_view(v@)),
            MessageBody::Output { category, output } => SpecBody::Output {
                category: category@,
                output: output@,
            },
            MessageBody::Stopped(b) => SpecBody::Stopped {
                reason: b.reason@,
                thread_id: b.thread_id,
                all_threads_stopped: b.all_threads_stopped,
                description: match b.description {
                    Some(d) => Some(d@),
                    None => None,
                },
                hit_breakpoint_ids: match b.hit_breakpoint_ids {
                    Some(v) => Some(v@),
                    None => None,
                },
            },
            MessageBody::Exited { exit_code } => SpecBody::Exited { exit_code: *exit_code },
        }
    }
}

impl View for AdapterMessage {
    type V = SpecMessage;

    open spec fn view(&self) -> SpecMessage {
        match self {
            AdapterMessage::Response { seq, request_seq, success, command, message, body } =>
                SpecMessage::Response {
                seq: *seq,
                request_seq: *request_seq,
                success: *success,
                command: command@,
                message: match message {
                    Some(m) => Some(m@),
                    None => None,
                },
                body: body@,
            },
            AdapterMessage::Event { seq, event, body } => SpecMessage::Event {
                seq: *seq,
                event: event@,
                body: body@,
            },
        }
    }
}

/// The models of a sequence of adapter messages.
pub open spec fn messages_view(v: Seq<AdapterMessage>) -> Seq<SpecMessage> {
    v.map_values(|m: AdapterMessage| m@)
}

/// The sequence number of a message.
pub open spec fn message_seq(m: SpecMessage) -> u64 {
    match m {
        SpecMessage::Response { seq, .. } => seq,
        SpecMessage::Event { seq, .. } => seq,
    }
}

/// The messages carry the sequence numbers `first`, `first + 1`, ... in order.
pub open spec fn numbered_from(msgs: Seq<SpecMessage>, first: int) -> bool {
    forall|i: int| 0 <= i < msgs.len() ==> #[trigger] message_seq(msgs[i]) == first + i
}

/// Sequence numbers continue across batches of messages: a batch numbered
/// from `first`, followed by a batch numbered from where it stopped, is one
/// batch numbered from `first`.
pub proof fn law_numbering_continues(earlier: Seq<SpecMessage>, later: Seq<SpecMessage>, first: int)
    requires
        numbered_from(earlier, first),
        numbered_from(later, first + earlier.len()),
    ensures
        numbered_from(earlier + later, first),
{
    let all = earlier + later;
    assert forall|i: int| 0 <= i < all.len() implies #[trigger] message_seq(all[i]) == first + i by {
        if i >= earlier.len() {
            assert(all[i] == later[i - earlier.len()]);
        } else {
            assert(all[i] == earlier[i]);
        }
    }
}

/// An unsuccessful response to `request` with the given message.
pub open spec fn error_response(seq: u64, request: Request, message: Seq<char>) -> SpecMessage {
    SpecMessage::Response {
        seq,
        request_seq: request.seq,
        success: false,
        command: request.command@,
        message: Some(message),
        body: SpecBody::Empty,
    }
}

/// A successful response to `request` with the given body.
pub open spec fn success_response(seq: u64, request: Request, body: SpecBody) -> SpecMessage {
    SpecMessage::Response {
        seq,
        request_seq: request.seq,
        success: true,
        command: request.command@,
        message: None,
        body,
    }
}

/// An event with the given name and body.
pub open spec fn event_message(seq: u64, event: Seq<char>, body: SpecBody) -> SpecMessage {
    SpecMessage::Event { seq, event, body }
}

/// An `output` event.
pub open spec fn output_event(seq: u64, category: Seq<char>, output: Seq<char>) -> SpecMessage {
    event_message(seq, "output"@, SpecBody::Output { category, output })
}

/// A `terminated` event.
pub open spec fn terminated_event(seq: u64) -> SpecMessage {
    event_message(seq, "terminated"@, SpecBody::Empty)
}

/// The text `a` followed by `b`.
pub fn concat(a: &str, b: &str) -> (res: String)
    ensures
        res@ == a@ + b@,
{
    let mut s = a.to_owned();
    push_str(&mut s, b);
    s
}

/// An unsuccessful response to `request`.
pub fn error_response_message(seq: u64, request: &Request, message: String) -> (res: AdapterMessage)
    ensures
        res@ == error_response(seq, *request, message@),
{
    AdapterMessage::Response {
        seq,
        request_seq: request.seq,
        success: false,
        command: request.command.clone(),
        message: Some(message),
        body: MessageBody::Empty,
    }
}

/// A successful response to `request`.
pub fn success_response_message(seq: u64, request: &Request, body: MessageBody) -> (res: AdapterMessage)
    ensures
        res@ == success_response(seq, *request, body@),
{
    AdapterMessage::Response {
        seq,
        request_seq: request.seq,
        success: true,
        command: request.command.clone(),
        message: None,
        body,
    }
}

/// An event message.
pub fn event(seq: u64, name: &str, body: MessageBody) -> (res: AdapterMessage)
    ensures
        res@ == event_message(seq, name@, body@),
{
    AdapterMessage::Event { seq, event: name.to_owned(), body }
}

} // verus!
