//! What a whole run of the adapter sends: requests, each carried through its
//! steps with the outcome of its GDB work, and GDB polls, in any order.

use vstd::prelude::*;

use super::breakpoints::SetBreakpointsArguments;
use super::config::{DisconnectArguments, LaunchArguments};
use super::machine::{
    all_events, dap_breakpoints, disconnect_refusal, event_messages, events_messages,
    invalid_state_text, launch_refusal, lemma_event_messages, lemma_events_messages,
    set_breakpoints_refusal, state_after_event, state_after_events, unsupported_text,
    AdapterCore, AdapterState, ArgumentsInput, GdbPoll,
};
use super::messages::{
    error_response, event_message, law_numbering_continues, message_seq, numbered_from,
    output_event, spec_capabilities, success_response, terminated_event, SpecBody, SpecMessage,
};
use crate::dap::protocol::Request;
use crate::gdb_mi::breakpoint::GdbBreakpoint;
use crate::gdb_mi::execution::GdbSessionEvent;
use crate::gdb_mi::strings::debug_text;

verus! {

/// What the adapter's decisions depend on: its state, the next sequence
/// number and whether a GDB session is open.
pub struct AdapterModel {
    pub state: AdapterState,
    pub upcoming: int,
    pub session_open: bool,
}

/// The model of an adapter.
pub open spec fn model_of(core: AdapterCore) -> AdapterModel {
    AdapterModel {
        state: core.spec_state(),
        upcoming: core.upcoming() as int,
        session_open: core.spec_session_open(),
    }
}

/// A request as the caller handles it: its decoded arguments and the outcome
/// of the GDB work it asks for, when it asks for any.
pub enum RequestInput {
    Initialize,
    Launch { arguments: ArgumentsInput<LaunchArguments>, connected: Result<(), String> },
    SetBreakpoints {
        arguments: ArgumentsInput<SetBreakpointsArguments>,
        installed: Result<Vec<GdbBreakpoint>, String>,
    },
    ConfigurationDone { started: Result<Vec<GdbSessionEvent>, String> },
    Disconnect { arguments: ArgumentsInput<DisconnectArguments>, shut_down: Result<(), String> },
    Unsupported,
}

/// One thing that happens in a run: a request, or a poll of the GDB session.
pub enum RunItem {
    Request(Request, RequestInput),
    Poll(GdbPoll),
}

/// A refused request: one error response, and nothing else changes.
pub open spec fn refused(m: AdapterModel, request: Request, text: Seq<char>) -> (AdapterModel, Seq<SpecMessage>) {
    (
        AdapterModel { upcoming: m.upcoming + 1, ..m },
        seq![error_response(m.upcoming as u64, request, text)],
    )
}

/// The messages and new model of one request, as the adapter's steps give
/// them: `handle_initialize`, `begin_launch` then `finish_launch`,
/// `begin_set_breakpoints` then `finish_set_breakpoints`,
/// `begin_configuration_done` then `finish_configuration_done`,
/// `begin_disconnect` then `finish_disconnect`, or `reject_unsupported`.
pub open spec fn request_step(m: AdapterModel, request: Request, input: RequestInput) -> (AdapterModel, Seq<SpecMessage>) {
    let u = m.upcoming as u64;
    let u1 = (m.upcoming + 1) as u64;
    match input {
        RequestInput::Initialize => if m.state == AdapterState::Created {
            (
                AdapterModel { state: AdapterState::Initialized, upcoming: m.upcoming + 2, ..m },
                seq![
                    success_response(u, request, SpecBody::Capabilities(spec_capabilities())),
                    event_message(u1, "initialized"@, SpecBody::Empty),
                ],
            )
        } else {
            refused(m, request, "the debug adapter has already been initialized"@)
        },
        RequestInput::Launch { arguments, connected } => match launch_refusal(m.state, arguments) {
            Some(text) => refused(m, request, text),
            None => match connected {
                Ok(()) => (
                    AdapterModel {
                        state: AdapterState::Connected,
                        upcoming: m.upcoming + 1,
                        session_open: true,
                    },
                    seq![success_response(u, request, SpecBody::Empty)],
                ),
                Err(e) => refused(
                    AdapterModel { state: AdapterState::Initialized, ..m },
                    request,
                    "failed to launch QNX debug session: "@ + e@,
                ),
            },
        },
        RequestInput::SetBreakpoints { arguments, installed } => match set_breakpoints_refusal(
            m.state,
            m.session_open,
            arguments,
        ) {
            Some(text) => refused(m, request, text),
            None => match installed {
                Ok(bps) => (
                    AdapterModel { upcoming: m.upcoming + 1, ..m },
                    seq![success_response(u, request, SpecBody::Breakpoints(dap_breakpoints(bps@)))],
                ),
                Err(e) => refused(m, request, "failed to set source breakpoints: "@ + e@),
            },
        },
        RequestInput::ConfigurationDone { started } => if m.state != AdapterState::Connected {
            refused(m, request, invalid_state_text("configurationDone"@, m.state))
        } else if !m.session_open {
            refused(m, request, "GDB session is not available"@)
        } else {
            match started {
                Ok(events) => {
                    let msgs = seq![success_response(u, request, SpecBody::Empty)] + events_messages(
                        u1,
                        events@,
                    );
                    (
                        AdapterModel {
                            state: state_after_events(AdapterState::Running, events@),
                            upcoming: m.upcoming + msgs.len(),
                            ..m
                        },
                        msgs,
                    )
                },
                Err(e) => refused(m, request, "failed to start QNX inferior: "@ + e@),
            }
        },
        RequestInput::Disconnect { arguments, shut_down } => match disconnect_refusal(m.state, arguments) {
            Some(text) => refused(m, request, text),
            None => {
                let outcome = if m.session_open {
                    shut_down
                } else {
                    Ok(())
                };
                match outcome {
                    Ok(()) => (
                        AdapterModel {
                            state: AdapterState::Terminated,
                            upcoming: m.upcoming + 2,
                            session_open: false,
                        },
                        seq![success_response(u, request, SpecBody::Empty), terminated_event(u1)],
                    ),
                    Err(e) => refused(m, request, "failed to shut down GDB session: "@ + e@),
                }
            },
        },
        RequestInput::Unsupported => refused(
            m,
            request,
            unsupported_text(debug_text(request.command@)),
        ),
    }
}

/// The messages and new model of one GDB poll, as `on_gdb_poll` gives them.
pub open spec fn poll_step(m: AdapterModel, poll: GdbPoll) -> (AdapterModel, Seq<SpecMessage>) {
    let u = m.upcoming as u64;
    match poll {
        GdbPoll::Pending => (m, Seq::empty()),
        GdbPoll::EndOfFile => (
            AdapterModel { state: AdapterState::Terminated, upcoming: m.upcoming + 1, ..m },
            seq![terminated_event(u)],
        ),
        GdbPoll::Event(e) => {
            let msgs = event_messages(u, e);
            (
                AdapterModel {
                    state: state_after_event(m.state, e),
                    upcoming: m.upcoming + msgs.len(),
                    ..m
                },
                msgs,
            )
        },
        GdbPoll::Failed(e) => (
            AdapterModel { state: AdapterState::Terminated, upcoming: m.upcoming + 2, ..m },
            seq![
                output_event(u, "stderr"@, "GDB event error: "@ + e@ + "\n"@),
                terminated_event((m.upcoming + 1) as u64),
            ],
        ),
    }
}

/// The messages and new model of one item of a run.
pub open spec fn item_step(m: AdapterModel, item: RunItem) -> (AdapterModel, Seq<SpecMessage>) {
    match item {
        RunItem::Request(request, input) => request_step(m, request, input),
        RunItem::Poll(poll) => poll_step(m, poll),
    }
}

/// The messages sent over a run, in order, and the model after it.
pub open spec fn run(m: AdapterModel, items: Seq<RunItem>) -> (AdapterModel, Seq<SpecMessage>)
    decreases items.len(),
{
    if items.len() == 0 {
        (m, Seq::empty())
    } else {
        let before = run(m, items.drop_last());
        let step = item_step(before.0, items.last());
        (step.0, before.1 + step.1)
    }
}

/// The most messages one item can send.
pub open spec fn item_bound(item: RunItem) -> nat {
    match item {
        RunItem::Request(_, RequestInput::ConfigurationDone { started: Ok(events) }) => 1 + 3
            * events@.len(),
        RunItem::Request(_, RequestInput::Initialize) => 2,
        RunItem::Request(_, RequestInput::Disconnect { .. }) => 2,
        RunItem::Request(_, _) => 1,
        RunItem::Poll(_) => 3,
    }
}

/// The most messages a run can send.
pub open spec fn run_bound(items: Seq<RunItem>) -> nat
    decreases items.len(),
{
    if items.len() == 0 {
        0
    } else {
        run_bound(items.drop_last()) + item_bound(items.last())
    }
}

/// The `request_seq` of each response among the messages, in order.
pub open spec fn response_seqs(msgs: Seq<SpecMessage>) -> Seq<u64>
    decreases msgs.len(),
{
    if msgs.len() == 0 {
        Seq::empty()
    } else {
        let before = response_seqs(msgs.drop_last());
        match msgs.last() {
            SpecMessage::Response { request_seq, .. } => before.push(request_seq),
            SpecMessage::Event { .. } => before,
        }
    }
}

/// The sequence number of each request of a run, in order.
pub open spec fn request_seqs(items: Seq<RunItem>) -> Seq<u64>
    decreases items.len(),
{
    if items.len() == 0 {
        Seq::empty()
    } else {
        let before = request_seqs(items.drop_last());
        match items.last() {
            RunItem::Request(request, _) => before.push(request.seq),
            RunItem::Poll(_) => before,
        }
    }
}

proof fn lemma_response_seqs_append(a: Seq<SpecMessage>, b: Seq<SpecMessage>)
    ensures
        response_seqs(a + b) == response_seqs(a) + response_seqs(b),
    decreases b.len(),
{
    if b.len() == 0 {
        assert(a + b =~= a);
        assert(response_seqs(a) + response_seqs(b) =~= response_seqs(a));
    } else {
        lemma_response_seqs_append(a, b.drop_last());
        assert((a + b).drop_last() =~= a + b.drop_last());
        assert((a + b).last() == b.last());
        match b.last() {
            SpecMessage::Response { request_seq, .. } => {
                assert(response_seqs(a) + response_seqs(b) =~= (response_seqs(a) + response_seqs(
                    b.drop_last(),
                )).push(request_seq));
            },
            SpecMessage::Event { .. } => {},
        }
    }
}

proof fn lemma_events_have_no_responses(msgs: Seq<SpecMessage>)
    requires
        all_events(msgs),
    ensures
        response_seqs(msgs) == Seq::<u64>::empty(),
    decreases msgs.len(),
{
    if msgs.len() > 0 {
        assert(msgs.last() is Event);
        assert(all_events(msgs.drop_last())) by {
            assert forall|i: int| 0 <= i < msgs.drop_last().len() implies #[trigger] msgs.drop_last()[i] is Event by {
                assert(msgs.drop_last()[i] == msgs[i]);
            }
        }
        lemma_events_have_no_responses(msgs.drop_last());
    }
}

proof fn lemma_single_response(msgs: Seq<SpecMessage>, seq: u64)
    requires
        msgs.len() >= 1,
        msgs[0] matches SpecMessage::Response { request_seq, .. } && request_seq == seq,
        all_events(msgs.subrange(1, msgs.len() as int)),
    ensures
        response_seqs(msgs) == seq![seq],
{
    let rest = msgs.subrange(1, msgs.len() as int);
    assert(msgs =~= seq![msgs[0]] + rest);
    lemma_response_seqs_append(seq![msgs[0]], rest);
    lemma_events_have_no_responses(rest);
    assert(seq![msgs[0]].drop_last() =~= Seq::<SpecMessage>::empty());
    assert(response_seqs(Seq::<SpecMessage>::empty()) =~= Seq::<u64>::empty());
    assert(response_seqs(seq![msgs[0]]) =~= seq![seq]);
    assert(response_seqs(msgs) =~= seq![seq]);
}

proof fn lemma_refused(m: AdapterModel, request: Request, text: Seq<char>)
    requires
        0 <= m.upcoming < u64::MAX,
    ensures
        numbered_from(refused(m, request, text).1, m.upcoming),
        refused(m, request, text).0.upcoming == m.upcoming + refused(m, request, text).1.len(),
        refused(m, request, text).1.len() == 1,
        response_seqs(refused(m, request, text).1) == seq![request.seq],
{
    let msgs = refused(m, request, text).1;
    assert(message_seq(msgs[0]) == m.upcoming);
    assert(all_events(msgs.subrange(1, 1)));
    lemma_single_response(msgs, request.seq);
}

/// One item's messages are numbered on from the model's counter, which
/// advances past them; a request is answered by exactly one response, a poll
/// by none.
proof fn lemma_item_step(m: AdapterModel, item: RunItem)
    requires
        0 <= m.upcoming,
        m.upcoming + item_bound(item) <= u64::MAX,
    ensures
        numbered_from(item_step(m, item).1, m.upcoming),
        item_step(m, item).0.upcoming == m.upcoming + item_step(m, item).1.len(),
        item_step(m, item).1.len() <= item_bound(item),
        response_seqs(item_step(m, item).1) == match item {
            RunItem::Request(request, _) => seq![request.seq],
            RunItem::Poll(_) => Seq::<u64>::empty(),
        },
{
    let u = m.upcoming as u64;
    let u1 = (m.upcoming + 1) as u64;
    let msgs = item_step(m, item).1;
    match item {
        RunItem::Request(request, input) => {
            match input {
                RequestInput::Initialize => {
                    if m.state == AdapterState::Created {
                        assert(message_seq(msgs[0]) == m.upcoming);
                        assert(message_seq(msgs[1]) == m.upcoming + 1);
                        assert(msgs.subrange(1, 2) =~= seq![msgs[1]]);
                        assert(all_events(msgs.subrange(1, 2)));
                        lemma_single_response(msgs, request.seq);
                    } else {
                        lemma_refused(m, request, "the debug adapter has already been initialized"@);
                    }
                },
                RequestInput::Launch { arguments, connected } => {
                    match launch_refusal(m.state, arguments) {
                        Some(text) => lemma_refused(m, request, text),
                        None => match connected {
                            Ok(()) => {
                                assert(message_seq(msgs[0]) == m.upcoming);
                                assert(all_events(msgs.subrange(1, 1)));
                                lemma_single_response(msgs, request.seq);
                            },
                            Err(e) => lemma_refused(
                                AdapterModel { state: AdapterState::Initialized, ..m },
                                request,
                                "failed to launch QNX debug session: "@ + e@,
                            ),
                        },
                    }
                },
                RequestInput::SetBreakpoints { arguments, installed } => {
                    match set_breakpoints_refusal(m.state, m.session_open, arguments) {
                        Some(text) => lemma_refused(m, request, text),
                        None => match installed {
                            Ok(bps) => {
                                assert(message_seq(msgs[0]) == m.upcoming);
                                assert(all_events(msgs.subrange(1, 1)));
                                lemma_single_response(msgs, request.seq);
                            },
                            Err(e) => lemma_refused(
                                m,
                                request,
                                "failed to set source breakpoints: "@ + e@,
                            ),
                        },
                    }
                },
                RequestInput::ConfigurationDone { started } => {
                    if m.state != AdapterState::Connected {
                        lemma_refused(m, request, invalid_state_text("configurationDone"@, m.state));
                    } else if !m.session_open {
                        lemma_refused(m, request, "GDB session is not available"@);
                    } else {
                        match started {
                            Ok(events) => {
                                let head = seq![success_response(u, request, SpecBody::Empty)];
                                let rest = events_messages(u1, events@);
                                lemma_events_messages(u1, events@);
                                assert(numbered_from(head, m.upcoming)) by {
                                    assert(message_seq(head[0]) == m.upcoming);
                                }
                                law_numbering_continues(head, rest, m.upcoming);
                                assert(msgs == head + rest);
                                assert(msgs.subrange(1, msgs.len() as int) =~= rest);
                                assert(msgs[0] == head[0]);
                                lemma_single_response(msgs, request.seq);
                            },
                            Err(e) => lemma_refused(m, request, "failed to start QNX inferior: "@ + e@),
                        }
                    }
                },
                RequestInput::Disconnect { arguments, shut_down } => {
                    match disconnect_refusal(m.state, arguments) {
                        Some(text) => lemma_refused(m, request, text),
                        None => {
                            let outcome = if m.session_open {
                                shut_down
                            } else {
                                Ok(())
                            };
                            match outcome {
                                Ok(()) => {
                                    assert(message_seq(msgs[0]) == m.upcoming);
                                    assert(message_seq(msgs[1]) == m.upcoming + 1);
                                    assert(msgs.subrange(1, 2) =~= seq![msgs[1]]);
                                    assert(all_events(msgs.subrange(1, 2)));
                                    lemma_single_response(msgs, request.seq);
                                },
                                Err(e) => lemma_refused(
                                    m,
                                    request,
                                    "failed to shut down GDB session: "@ + e@,
                                ),
                            }
                        },
                    }
                },
                RequestInput::Unsupported => {
                    lemma_refused(m, request, unsupported_text(debug_text(request.command@)));
                },
            }
        },
        RunItem::Poll(poll) => {
            match poll {
                GdbPoll::Pending => {
                    assert(response_seqs(msgs) =~= Seq::<u64>::empty());
                },
                GdbPoll::EndOfFile => {
                    assert(message_seq(msgs[0]) == m.upcoming);
                    assert(all_events(msgs));
                    lemma_events_have_no_responses(msgs);
                },
                GdbPoll::Event(e) => {
                    lemma_event_messages(u, e);
                    lemma_events_have_no_responses(msgs);
                },
                GdbPoll::Failed(e) => {
                    assert(message_seq(msgs[0]) == m.upcoming);
                    assert(message_seq(msgs[1]) == m.upcoming + 1);
                    assert(all_events(msgs));
                    lemma_events_have_no_responses(msgs);
                },
            }
        },
    }
}

/// Over any run of requests and GDB polls, in any order and with any GDB
/// outcomes: the messages carry consecutive sequence numbers from the
/// adapter's counter on, one counter for responses and events, with no gap;
/// the responses answer the requests one each, in request order; and the
/// counter ends just past the last message. From a new adapter the numbers
/// are 1, 2, 3, and so on.
pub proof fn law_run_numbering(m: AdapterModel, items: Seq<RunItem>)
    requires
        0 <= m.upcoming,
        m.upcoming + run_bound(items) <= u64::MAX,
    ensures
        numbered_from(run(m, items).1, m.upcoming),
        response_seqs(run(m, items).1) == request_seqs(items),
        run(m, items).0.upcoming == m.upcoming + run(m, items).1.len(),
        run(m, items).1.len() <= run_bound(items),
    decreases items.len(),
{
    if items.len() > 0 {
        let rest = items.drop_last();
        let last = items.last();
        law_run_numbering(m, rest);
        let before = run(m, rest);
        lemma_item_step(before.0, last);
        let step = item_step(before.0, last);
        law_numbering_continues(before.1, step.1, m.upcoming);
        lemma_response_seqs_append(before.1, step.1);
        match last {
            RunItem::Request(request, _) => {
                assert(request_seqs(items) =~= request_seqs(rest).push(request.seq));
                assert(request_seqs(rest) + seq![request.seq] =~= request_seqs(rest).push(request.seq));
            },
            RunItem::Poll(_) => {
                assert(request_seqs(rest) + Seq::<u64>::empty() =~= request_seqs(rest));
            },
        }
    }
}

} // verus!
