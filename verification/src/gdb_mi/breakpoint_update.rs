//! Replacing the breakpoints of one source file, step by step: the previous
//! breakpoints are deleted first, then one breakpoint is inserted per line.

use vstd::prelude::*;

use super::breakpoint::{GdbBreakpoint, SourceBreakpoint};
use super::path_key::path_key;
use super::record::MiResultRecord;
use super::session::{
    breakpoint_outcome, class_check, command_error_message, outcome_only, GdbSessionError,
    GdbSessionState, SpecBreakpoint,
};
use super::session_core::{
    breakpoint_location, insert_outcome, installed_numbers, location_text, GdbSessionCore,
};

verus! {

/// What the caller sends to GDB next while replacing breakpoints.
#[derive(Debug, PartialEq, Eq)]
pub enum UpdateAction {
    /// `-break-delete` with these breakpoint numbers.
    Delete(Vec<u64>),
    /// `-break-insert` at this location.
    Insert(String),
    /// Nothing: the replacement is complete.
    Finished,
}

/// Mathematical model of an update action.
pub enum SpecUpdateAction {
    Delete(Seq<u64>),
    Insert(Seq<char>),
    Finished,
}

impl View for UpdateAction {
    type V = SpecUpdateAction;

    open spec fn view(&self) -> SpecUpdateAction {
        match self {
            UpdateAction::Delete(v) => SpecUpdateAction::Delete(v@),
            UpdateAction::Insert(s) => SpecUpdateAction::Insert(s@),
            UpdateAction::Finished => SpecUpdateAction::Finished,
        }
    }
}

/// The lines of breakpoint requests.
pub open spec fn breakpoint_lines(bps: Seq<SourceBreakpoint>) -> Seq<u64> {
    bps.map_values(|b: SourceBreakpoint| b.line)
}

/// The next insertion once `count` lines are done, or the end.
pub open spec fn insert_or_finish(source: Seq<char>, lines: Seq<u64>, count: nat) -> SpecUpdateAction {
    if count < lines.len() {
        SpecUpdateAction::Insert(location_text(source, lines[count as int]))
    } else {
        SpecUpdateAction::Finished
    }
}

/// The first action of a replacement, given the numbers installed for the
/// source: delete them when there are any, else go on to the insertions.
pub open spec fn first_action(installed: Option<Seq<u64>>, source: Seq<char>, lines: Seq<u64>) -> SpecUpdateAction {
    match installed {
        Some(numbers) => if numbers.len() > 0 {
            SpecUpdateAction::Delete(numbers)
        } else {
            insert_or_finish(source, lines, 0)
        },
        None => insert_or_finish(source, lines, 0),
    }
}

/// The action after GDB answered the deletion: the insertions go on only
/// after `done`; any other answer stops the replacement.
pub open spec fn after_delete(reply: MiResultRecord, source: Seq<char>, lines: Seq<u64>) -> Option<SpecUpdateAction> {
    if reply.class@ == "done"@ {
        Some(insert_or_finish(source, lines, 0))
    } else {
        None
    }
}

/// The numbers recorded for a source once a replacement produced `results`.
pub open spec fn updated_numbers(results: Seq<GdbBreakpoint>) -> Option<Seq<u64>> {
    if installed_numbers(results).len() > 0 {
        Some(installed_numbers(results))
    } else {
        None
    }
}

/// `res` is what GDB's answer to inserting `line` of `source` gives: a GDB
/// error is an unverified breakpoint with GDB's message; any other answer is
/// read as a `-break-insert` result.
pub open spec fn insert_result(
    res: Result<GdbBreakpoint, GdbSessionError>,
    source: Seq<char>,
    line: u64,
    reply: MiResultRecord,
) -> bool {
    if reply.class@ == "error"@ {
        res matches Ok(b) && b@ == (SpecBreakpoint {
            number: None,
            source,
            line,
            verified: false,
            function: None,
            resolved_file: None,
            address: None,
            message: Some(command_error_message(reply.results@)),
        })
    } else {
        breakpoint_outcome(res, source, line, reply)
    }
}

/// Progress of replacing the breakpoints of one source file.
#[derive(Debug)]
pub struct BreakpointUpdate {
    source: String,
    lines: Vec<u64>,
    results: Vec<GdbBreakpoint>,
    awaiting_delete: bool,
    finished: bool,
}

impl BreakpointUpdate {
    /// The source file whose breakpoints are replaced.
    pub closed spec fn spec_source(&self) -> Seq<char> {
        self.source@
    }

    /// The requested lines.
    pub closed spec fn spec_lines(&self) -> Seq<u64> {
        self.lines@
    }

    /// The breakpoints inserted so far, in line order.
    pub closed spec fn spec_results(&self) -> Seq<GdbBreakpoint> {
        self.results@
    }

    /// Whether GDB's answer to the deletion is awaited.
    pub closed spec fn spec_awaiting_delete(&self) -> bool {
        self.awaiting_delete
    }

    /// Whether an answer from GDB is awaited: the deletion's, or the next
    /// insertion's.
    pub closed spec fn pending(&self) -> bool {
        &&& !self.finished
        &&& self.awaiting_delete ==> self.results@.len() == 0
        &&& !self.awaiting_delete ==> self.results@.len() < self.lines@.len()
    }

    /// The breakpoints inserted, in line order.
    pub fn into_results(self) -> (res: Vec<GdbBreakpoint>)
        ensures
            res@ == self.spec_results(),
    {
        self.results
    }
}

fn lines_of(bps: &[SourceBreakpoint]) -> (res: Vec<u64>)
    ensures
        res@ == breakpoint_lines(bps@),
{
    let mut out: Vec<u64> = Vec::new();
    let mut i: usize = 0;
    while i < bps.len()
        invariant
            i <= bps@.len(),
            out@ == breakpoint_lines(bps@.take(i as int)),
        decreases bps@.len() - i,
    {
        out.push(bps[i].line);
        proof {
            assert(bps@.take(i + 1) =~= bps@.take(i as int).push(bps@[i as int]));
            assert(breakpoint_lines(bps@.take(i + 1)) =~= breakpoint_lines(bps@.take(i as int)).push(
                bps@[i as int].line,
            ));
        }
        i = i + 1;
    }
    assert(bps@.take(i as int) =~= bps@);
    out
}

impl GdbSessionCore {
    fn next_update_action(&mut self, update: &mut BreakpointUpdate) -> (res: UpdateAction)
        requires
            !old(update).awaiting_delete,
            !old(update).finished,
            old(update).results@.len() <= old(update).lines@.len(),
        ensures
            res@ == insert_or_finish(old(update).source@, old(update).lines@, old(update).results@.len()),
            final(update).source == old(update).source,
            final(update).lines == old(update).lines,
            final(update).results == old(update).results,
            !final(update).awaiting_delete,
            final(update).finished == (res is Finished),
            final(self).spec_config() == old(self).spec_config(),
            final(self).spec_state() == old(self).spec_state(),
            final(self).spec_stage() == old(self).spec_stage(),
            forall|s: Seq<char>| path_key(s) != path_key(old(update).source@) ==> #[trigger] final(self).installed(s) == old(self).installed(s),
            !(res is Finished) ==> final(self).installed(old(update).source@) == old(self).installed(old(update).source@),
            res is Finished ==> final(self).installed(old(update).source@) == if installed_numbers(
                old(update).results@,
            ).len() > 0 {
                Some(installed_numbers(old(update).results@))
            } else {
                old(self).installed(old(update).source@)
            },
    {
        let k = update.results.len();
        if k < update.lines.len() {
            let location = breakpoint_location(update.source.as_str(), update.lines[k]);
            UpdateAction::Insert(location)
        } else {
            self.complete_breakpoint_update(update.source.as_str(), update.results.as_slice());
            update.finished = true;
            UpdateAction::Finished
        }
    }

    /// Starts replacing the breakpoints of `source` with breakpoints at the
    /// requested lines: requires a deployed session, and asks first to delete
    /// the breakpoints recorded for `source`, if any, else for the first
    /// insertion.
    pub fn start_breakpoint_update(&mut self, source: &str, breakpoints: &[SourceBreakpoint]) -> (res: Result<(BreakpointUpdate, UpdateAction), GdbSessionError>)
        ensures
            final(self).spec_config() == old(self).spec_config(),
            final(self).spec_state() == old(self).spec_state(),
            final(self).spec_stage() == old(self).spec_stage(),
            forall|s: Seq<char>| path_key(s) != path_key(source@) ==> #[trigger] final(self).installed(s) == old(self).installed(s),
            old(self).spec_state() != GdbSessionState::Deployed ==> (res matches Err(
                GdbSessionError::InvalidSessionState { operation: op, actual, expected },
            ) && op == "set source breakpoints" && actual == old(self).spec_state() && expected@
                == seq![GdbSessionState::Deployed]) && final(self).installed(source@) == old(
                self,
            ).installed(source@),
            old(self).spec_state() == GdbSessionState::Deployed ==> {
                &&& res matches Ok((u, a))
                &&& a@ == first_action(old(self).installed(source@), source@, breakpoint_lines(breakpoints@))
                &&& u.spec_source() == source@
                &&& u.spec_lines() == breakpoint_lines(breakpoints@)
                &&& u.spec_results().len() == 0
                &&& u.spec_awaiting_delete() == (a is Delete)
                &&& u.pending() == !(a is Finished)
                &&& a is Delete ==> final(self).installed(source@) == old(self).installed(source@)
                &&& !(a is Delete) ==> final(self).installed(source@) is None
            },
    {
        let numbers = self.begin_breakpoint_update(source)?;
        let lines = lines_of(breakpoints);
        let mut update = BreakpointUpdate {
            source: source.to_owned(),
            lines,
            results: Vec::new(),
            awaiting_delete: false,
            finished: false,
        };
        match numbers {
            Some(n) => {
                update.awaiting_delete = true;
                Ok((update, UpdateAction::Delete(n)))
            },
            None => {
                let action = self.next_update_action(&mut update);
                Ok((update, action))
            },
        }
    }

    /// Goes on with a replacement given GDB's answer to the last command it
    /// asked for: a deletion must be answered `done`; an insertion's answer
    /// gives the next breakpoint, a GDB error an unverified one. When the
    /// last line is done, the numbers GDB assigned are recorded for the source.
    pub fn advance_breakpoint_update(&mut self, update: &mut BreakpointUpdate, reply: &MiResultRecord) -> (res: Result<UpdateAction, GdbSessionError>)
        requires
            old(update).pending(),
        ensures
            final(self).spec_config() == old(self).spec_config(),
            final(self).spec_state() == old(self).spec_state(),
            final(self).spec_stage() == old(self).spec_stage(),
            forall|s: Seq<char>| path_key(s) != path_key(old(update).spec_source()) ==> #[trigger] final(self).installed(s)
                == old(self).installed(s),
            final(update).spec_source() == old(update).spec_source(),
            final(update).spec_lines() == old(update).spec_lines(),
            res is Err ==> {
                &&& final(update).spec_results() == old(update).spec_results()
                &&& final(update).spec_awaiting_delete() == old(update).spec_awaiting_delete()
                &&& final(update).pending()
                &&& final(self).installed(old(update).spec_source()) == old(self).installed(old(update).spec_source())
            },
            old(update).spec_awaiting_delete() ==> {
                &&& class_check(outcome_only(res), "break-delete", *reply, seq!["done"@])
                &&& match after_delete(*reply, old(update).spec_source(), old(update).spec_lines()) {
                    Some(a) => res matches Ok(x) && x@ == a,
                    None => res is Err,
                }
                &&& res matches Ok(a) ==> {
                    &&& final(update).spec_results().len() == 0
                    &&& !final(update).spec_awaiting_delete()
                    &&& final(update).pending() == !(a is Finished)
                    &&& final(self).installed(old(update).spec_source()) is None
                }
            },
            !old(update).spec_awaiting_delete() ==> {
                let k = old(update).spec_results().len();
                let line = old(update).spec_lines()[k as int];
                &&& res matches Err(e) ==> insert_result(
                    Err(e),
                    old(update).spec_source(),
                    line,
                    *reply,
                )
                &&& res matches Ok(a) ==> {
                    &&& final(update).spec_results().len() == k + 1
                    &&& final(update).spec_results().drop_last() == old(update).spec_results()
                    &&& insert_result(
                        Ok(final(update).spec_results().last()),
                        old(update).spec_source(),
                        line,
                        *reply,
                    )
                    &&& a@ == insert_or_finish(old(update).spec_source(), old(update).spec_lines(), k + 1)
                    &&& !final(update).spec_awaiting_delete()
                    &&& final(update).pending() == !(a is Finished)
                    &&& !(a is Finished) ==> final(self).installed(old(update).spec_source()) == old(
                        self,
                    ).installed(old(update).spec_source())
                    &&& a is Finished ==> final(self).installed(old(update).spec_source()) == if installed_numbers(
                        final(update).spec_results(),
                    ).len() > 0 {
                        Some(installed_numbers(final(update).spec_results()))
                    } else {
                        old(self).installed(old(update).spec_source())
                    }
                }
            },
    {
        proof {
            reveal_strlit("done");
            reveal_strlit("error");
        }
        if update.awaiting_delete {
            let removal = self.finish_breakpoint_removal(update.source.as_str(), reply);
            match removal {
                Err(e) => {
                    proof {
                        if reply.class@ == "done"@ {
                            assert(seq!["done"@][0] == reply.class@);
                        }
                    }
                    return Err(e);
                },
                Ok(()) => {},
            }
            proof {
                if reply.class@ != "done"@ {
                    assert(!super::session::class_accepted(reply.class@, seq!["done"@]));
                }
            }
            update.awaiting_delete = false;
            let action = self.next_update_action(update);
            Ok(action)
        } else {
            let k = update.results.len();
            let line = update.lines[k];
            let outcome = insert_outcome(update.source.as_str(), line, reply);
            match outcome {
                Err(e) => Err(e),
                Ok(b) => {
                    update.results.push(b);
                    let action = self.next_update_action(update);
                    Ok(action)
                },
            }
        }
    }
}

/// After a replacement for a source produced `results`, and whatever
/// replacements for other sources came since, the next replacement for that
/// source begins by deleting exactly the numbers GDB gave `results`, in
/// their order, when there are any, and otherwise goes straight to the
/// insertions; and it inserts nothing until GDB answers the deletion `done`.
pub proof fn law_replacement_deletes_previous(
    results: Seq<GdbBreakpoint>,
    source: Seq<char>,
    lines: Seq<u64>,
    reply: MiResultRecord,
)
    ensures
        first_action(updated_numbers(results), source, lines) == if installed_numbers(results).len()
            > 0 {
            SpecUpdateAction::Delete(installed_numbers(results))
        } else {
            insert_or_finish(source, lines, 0)
        },
        reply.class@ != "done"@ ==> after_delete(reply, source, lines) is None,
{
}

} // verus!
