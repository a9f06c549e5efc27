use vstd::prelude::*;

use super::breakpoint::{GdbBreakpoint, SourceBreakpoint};
use super::command::{MiCommand, SpecMiArgument, SpecMiCommand};
use super::commands::{
    console_quoted, file_exec_and_symbols, gdb_version, qnx_set_executable, qnx_upload, set_executable_command,
    spec_command, target_select_qnx, upload_command,
};
use super::deployment::{GdbDeployment, GdbDeploymentResult};
use super::path_key::{path_key, path_key_text};
use super::record::MiResultRecord;
use super::session::{
    breakpoint_outcome, class_check, outcome_only, SpecBreakpoint, class_accepted, command_error_message, parse_breakpoint_result, require_result_class,
    string_texts, texts, validate_remote_program, GdbSessionConfig, GdbSessionError,
    GdbSessionState,
};
use super::strings::{decimal, push_char, push_decimal, push_str};
use crate::text::all_whitespace;

verus! {

/// Breakpoint numbers installed per source file.
pub open spec fn table_lookup(entries: Seq<(String, Vec<u64>)>, source: Seq<char>) -> Option<Seq<u64>>
    decreases entries.len(),
{
    if entries.len() == 0 {
        None
    } else {
        match table_lookup(entries.drop_last(), source) {
            Some(numbers) => Some(numbers),
            None => if entries.last().0@ == source {
                Some(entries.last().1@)
            } else {
                None
            },
        }
    }
}

/// GDB breakpoint numbers grouped by requested source file.
#[derive(Debug)]
pub struct BreakpointTable {
    entries: Vec<(String, Vec<u64>)>,
}

fn copy_numbers(numbers: &Vec<u64>) -> (res: Vec<u64>)
    ensures
        res@ == numbers@,
{
    let mut res: Vec<u64> = Vec::new();
    let mut i: usize = 0;
    while i < numbers.len()
        invariant
            i <= numbers.len(),
            res@ == numbers@.take(i as int),
        decreases numbers.len() - i,
    {
        res.push(numbers[i]);
        assert(numbers@.take(i + 1) =~= numbers@.take(i as int).push(numbers@[i as int]));
        i = i + 1;
    }
    assert(numbers@.take(numbers.len() as int) =~= numbers@);
    res
}

impl BreakpointTable {
    /// The numbers recorded for `source`, if any.
    pub closed spec fn lookup(&self, source: Seq<char>) -> Option<Seq<u64>> {
        table_lookup(self.entries@, source)
    }

    /// An empty table.
    pub fn new() -> (res: BreakpointTable)
        ensures
            forall|s: Seq<char>| #[trigger] res.lookup(s) is None,
    {
        BreakpointTable { entries: Vec::new() }
    }

    /// The numbers recorded for `source`, if any.
    pub fn get(&self, source: &str) -> (res: Option<Vec<u64>>)
        ensures
            match self.lookup(source@) {
                Some(numbers) => res matches Some(v) && v@ == numbers,
                None => res is None,
            },
    {
        let mut i: usize = 0;
        while i < self.entries.len()
            invariant
                i <= self.entries.len(),
                table_lookup(self.entries@.take(i as int), source@) is None,
            decreases self.entries.len() - i,
        {
            assert(self.entries@.take(i + 1).drop_last() =~= self.entries@.take(i as int));
            if super::strings::str_equal(self.entries[i].0.as_str(), source) {
                proof {
                    lemma_lookup_prefix(self.entries@, i + 1, source@);
                }
                return Some(copy_numbers(&self.entries[i].1));
            }
            i = i + 1;
        }
        assert(self.entries@.take(self.entries.len() as int) =~= self.entries@);
        None
    }

    /// Forgets the numbers recorded for `source`.
    pub fn remove(&mut self, source: &str)
        ensures
            final(self).lookup(source@) is None,
            forall|s: Seq<char>| s != source@ ==> #[trigger] final(self).lookup(s) == old(self).lookup(s),
    {
        let mut kept: Vec<(String, Vec<u64>)> = Vec::new();
        let ghost all = self.entries@;
        let n = self.entries.len();
        let mut i: usize = 0;
        while i < n
            invariant
                n == all.len(),
                all == self.entries@,
                i <= n,
                table_lookup(kept@, source@) is None,
                forall|s: Seq<char>| s != source@ ==> #[trigger] table_lookup(kept@, s) == table_lookup(all.take(i as int), s),
            decreases n - i,
        {
            assert(all.take(i + 1).drop_last() =~= all.take(i as int));
            assert(all.take(i + 1).last() == all[i as int]);
            let ghost before = kept@;
            if !super::strings::str_equal(self.entries[i].0.as_str(), source) {
                let entry = (self.entries[i].0.clone(), copy_numbers(&self.entries[i].1));
                let ghost key = entry.0@;
                let ghost value = entry.1@;
                assert(key == all[i as int].0@);
                assert(value == all[i as int].1@);
                kept.push(entry);
                assert(kept@.drop_last() =~= before);
                assert(kept@.last().0@ == key);
                assert(kept@.last().1@ == value);
                assert forall|s: Seq<char>| s != source@ implies #[trigger] table_lookup(kept@, s)
                    == table_lookup(all.take(i + 1), s) by {
                    assert(table_lookup(before, s) == table_lookup(all.take(i as int), s));
                }
            } else {
                assert(all[i as int].0@ == source@);
                assert forall|s: Seq<char>| s != source@ implies #[trigger] table_lookup(kept@, s)
                    == table_lookup(all.take(i + 1), s) by {
                    assert(table_lookup(kept@, s) == table_lookup(all.take(i as int), s));
                }
            }
            i = i + 1;
        }
        assert(all.take(n as int) =~= all);
        self.entries = kept;
    }

    /// Records `numbers` for `source`, replacing what was recorded before.
    pub fn insert(&mut self, source: &str, numbers: Vec<u64>)
        ensures
            final(self).lookup(source@) == Some(numbers@),
            forall|s: Seq<char>| s != source@ ==> #[trigger] final(self).lookup(s) == old(self).lookup(s),
    {
        self.remove(source);
        let ghost before = self.entries@;
        assert forall|s: Seq<char>| s != source@ implies table_lookup(before, s) == old(self).lookup(s) by {
            assert(self.lookup(s) == table_lookup(before, s));
        }
        self.entries.push((source.to_owned(), numbers));
        assert(self.entries@.drop_last() =~= before);
        assert forall|s: Seq<char>| s != source@ implies #[trigger] table_lookup(self.entries@, s)
            == table_lookup(before, s) by {}
    }
}

proof fn lemma_lookup_prefix(entries: Seq<(String, Vec<u64>)>, k: int, source: Seq<char>)
    requires
        0 <= k <= entries.len(),
        table_lookup(entries.take(k), source) is Some,
    ensures
        table_lookup(entries, source) == table_lookup(entries.take(k), source),
    decreases entries.len() - k,
{
    if k < entries.len() {
        assert(entries.take(k + 1).drop_last() =~= entries.take(k));
        lemma_lookup_prefix(entries, k + 1, source);
    } else {
        assert(entries.take(k) =~= entries);
    }
}

/// Progress of the initialization commands of a session.
#[derive(Debug, Clone, Copy, PartialEq, Eq, Structural)]
pub enum ConnectStage {
    /// `-gdb-version` is next.
    CheckVersion,
    /// `-file-exec-and-symbols` is next.
    LoadSymbols,
    /// `-target-select qnx` is next.
    SelectTarget,
    /// The upload or selection of the target executable is next.
    Deploy,
    /// Initialization is complete.
    Complete,
}

/// The operation name reported for the command of a stage.
pub open spec fn stage_operation(stage: ConnectStage, deployment: GdbDeployment) -> &'static str {
    match stage {
        ConnectStage::CheckVersion => "gdb-version",
        ConnectStage::LoadSymbols => "file-exec-and-symbols",
        ConnectStage::SelectTarget => "target-select",
        _ => if deployment is Upload {
            "upload"
        } else {
            "set nto-executable"
        },
    }
}

/// The result classes that complete a stage. QNX GDB 6.8 answers
/// `-target-select` with `connected` or `done`, depending on the build.
pub open spec fn stage_classes(stage: ConnectStage) -> Seq<Seq<char>> {
    match stage {
        ConnectStage::SelectTarget => seq!["connected"@, "done"@],
        _ => seq!["done"@],
    }
}

/// The stage after a completed stage.
pub open spec fn next_stage(stage: ConnectStage) -> ConnectStage {
    match stage {
        ConnectStage::CheckVersion => ConnectStage::LoadSymbols,
        ConnectStage::LoadSymbols => ConnectStage::SelectTarget,
        ConnectStage::SelectTarget => ConnectStage::Deploy,
        _ => ConnectStage::Complete,
    }
}

/// The session state after completing a stage.
pub open spec fn state_after(stage: ConnectStage, state: GdbSessionState) -> GdbSessionState {
    match stage {
        ConnectStage::CheckVersion => state,
        ConnectStage::LoadSymbols => GdbSessionState::SymbolsLoaded,
        ConnectStage::SelectTarget => GdbSessionState::Connected,
        _ => GdbSessionState::Deployed,
    }
}

/// The command that a stage sends, given its token.
pub open spec fn stage_command(stage: ConnectStage, config: GdbSessionConfig, token: u64) -> SpecMiCommand {
    match stage {
        ConnectStage::CheckVersion => spec_command(token, "gdb-version"@, Seq::empty()),
        ConnectStage::LoadSymbols => spec_command(
            token,
            "file-exec-and-symbols"@,
            seq![SpecMiArgument::Quoted(config.program@)],
        ),
        ConnectStage::SelectTarget => spec_command(
            token,
            "target-select"@,
            seq![SpecMiArgument::Raw("qnx"@), SpecMiArgument::Raw(config.target@)],
        ),
        _ => spec_command(
            token,
            "interpreter-exec"@,
            seq![
                SpecMiArgument::Raw("console"@),
                SpecMiArgument::Quoted(
                    if config.deployment is Upload {
                        upload_command(config.program@, config.deployment.spec_remote_program())
                    } else {
                        set_executable_command(config.deployment.spec_remote_program())
                    },
                ),
            ],
        ),
    }
}

/// The deployment stage runs one console command through
/// `-interpreter-exec console`: with an executable that already exists on
/// the target it selects that executable (`set nto-executable`) and uploads
/// nothing; otherwise it uploads the local program to the remote path.
pub proof fn law_deploy_command_follows_deployment(config: GdbSessionConfig, token: u64)
    ensures
        config.deployment matches GdbDeployment::Existing { remote_program } ==> stage_command(
            ConnectStage::Deploy,
            config,
            token,
        ) == spec_command(
            token,
            "interpreter-exec"@,
            seq![
                SpecMiArgument::Raw("console"@),
                SpecMiArgument::Quoted("set nto-executable "@ + console_quoted(remote_program@)),
            ],
        ),
        config.deployment matches GdbDeployment::Upload { remote_program } ==> stage_command(
            ConnectStage::Deploy,
            config,
            token,
        ) == spec_command(
            token,
            "interpreter-exec"@,
            seq![
                SpecMiArgument::Raw("console"@),
                SpecMiArgument::Quoted(
                    "upload "@ + console_quoted(config.program@) + seq![' '] + console_quoted(
                        remote_program@,
                    ),
                ),
            ],
        ),
{
}

/// The breakpoint numbers that GDB assigned, in order.
pub open spec fn installed_numbers(breakpoints: Seq<GdbBreakpoint>) -> Seq<u64>
    decreases breakpoints.len(),
{
    if breakpoints.len() == 0 {
        Seq::empty()
    } else {
        let rest = installed_numbers(breakpoints.drop_last());
        match breakpoints.last().number {
            Some(n) => rest.push(n),
            None => rest,
        }
    }
}

/// The decisions of a configured remote QNX GDB session, apart from the
/// GDB process itself: the configuration, the session state, the progress
/// of initialization and the breakpoints installed per source file.
#[derive(Debug)]
pub struct GdbSessionCore {
    config: GdbSessionConfig,
    state: GdbSessionState,
    stage: ConnectStage,
    breakpoints: BreakpointTable,
}

impl GdbSessionCore {
    /// The session configuration.
    pub closed spec fn spec_config(&self) -> GdbSessionConfig {
        self.config
    }

    /// The session state.
    pub closed spec fn spec_state(&self) -> GdbSessionState {
        self.state
    }

    /// The progress of initialization.
    pub closed spec fn spec_stage(&self) -> ConnectStage {
        self.stage
    }

    /// The breakpoint numbers installed for the file that `source` names,
    /// if any. Spellings of one path that `Path` compares equal share one
    /// entry.
    pub closed spec fn installed(&self, source: Seq<char>) -> Option<Seq<u64>> {
        self.breakpoints.lookup(path_key(source))
    }

    /// A table change confined to the key of `source` leaves the entries of
    /// every other file as they were.
    proof fn lemma_other_files_kept(&self, before: GdbSessionCore, source: Seq<char>)
        requires
            forall|k: Seq<char>| k != path_key(source) ==> #[trigger] self.breakpoints.lookup(k)
                == before.breakpoints.lookup(k),
        ensures
            forall|s: Seq<char>| path_key(s) != path_key(source) ==> #[trigger] self.installed(s)
                == before.installed(s),
    {
        assert forall|s: Seq<char>| path_key(s) != path_key(source) implies #[trigger] self.installed(s)
            == before.installed(s) by {
            assert(self.breakpoints.lookup(path_key(s)) == before.breakpoints.lookup(path_key(s)));
        }
    }

    /// Two spellings of one path, such as `/p/main.c` and `/p//main.c/`,
    /// name one entry of the breakpoint table.
    pub proof fn law_same_file_same_entry(&self, a: Seq<char>, b: Seq<char>)
        requires
            path_key(a) == path_key(b),
        ensures
            self.installed(a) == self.installed(b),
    {
    }

    /// A session whose GDB process has reached its first prompt.
    pub fn new(config: GdbSessionConfig) -> (res: GdbSessionCore)
        ensures
            res.spec_config() == config,
            res.spec_state() == GdbSessionState::Ready,
            res.spec_stage() == ConnectStage::CheckVersion,
            forall|s: Seq<char>| #[trigger] res.installed(s) is None,
    {
        let res = GdbSessionCore {
            config,
            state: GdbSessionState::Ready,
            stage: ConnectStage::CheckVersion,
            breakpoints: BreakpointTable::new(),
        };
        assert forall|s: Seq<char>| #[trigger] res.installed(s) is None by {
            assert(res.breakpoints.lookup(s) is None);
        }
        res
    }

    /// Returns the current session state.
    pub fn state(&self) -> (res: GdbSessionState)
        ensures
            res == self.spec_state(),
    {
        self.state
    }

    /// Returns the session configuration.
    pub fn config(&self) -> (res: &GdbSessionConfig)
        ensures
            *res == self.spec_config(),
    {
        &self.config
    }

    /// Returns the progress of initialization.
    pub fn stage(&self) -> (res: ConnectStage)
        ensures
            res == self.spec_stage(),
    {
        self.stage
    }

    /// Requires the session to be in one of `accepted_states`.
    pub fn require_state(&self, operation: &'static str, accepted_states: &[GdbSessionState]) -> (res: Result<(), GdbSessionError>)
        ensures
            accepted_states@.contains(self.spec_state()) ==> res is Ok,
            !accepted_states@.contains(self.spec_state()) ==> (res matches Err(
                GdbSessionError::InvalidSessionState { operation: op, actual, expected },
            ) && op == operation && actual == self.spec_state() && expected@ == accepted_states@),
    {
        let mut i: usize = 0;
        while i < accepted_states.len()
            invariant
                i <= accepted_states.len(),
                forall|k: int| 0 <= k < i ==> accepted_states@[k] != self.spec_state(),
            decreases accepted_states.len() - i,
        {
            if accepted_states[i] == self.state {
                return Ok(());
            }
            i = i + 1;
        }
        let mut expected: Vec<GdbSessionState> = Vec::new();
        let mut j: usize = 0;
        while j < accepted_states.len()
            invariant
                j <= accepted_states.len(),
                expected@ == accepted_states@.take(j as int),
            decreases accepted_states.len() - j,
        {
            expected.push(accepted_states[j]);
            assert(accepted_states@.take(j + 1) =~= accepted_states@.take(j as int).push(accepted_states@[j as int]));
            j = j + 1;
        }
        assert(accepted_states@.take(accepted_states.len() as int) =~= accepted_states@);
        Err(GdbSessionError::InvalidSessionState { operation, actual: self.state, expected })
    }

    /// The command of the current initialization stage. Before the
    /// deployment command, the session must be connected and the remote
    /// program path valid.
    pub fn connect_command(&self, token: u64) -> (res: Result<MiCommand, GdbSessionError>)
        requires
            self.spec_stage() != ConnectStage::Complete,
        ensures
            self.spec_stage() != ConnectStage::Deploy ==> (res matches Ok(c) && c@ == stage_command(
                self.spec_stage(),
                self.spec_config(),
                token,
            )),
            self.spec_stage() == ConnectStage::Deploy ==> {
                let remote = self.spec_config().deployment.spec_remote_program();
                if self.spec_state() != GdbSessionState::Connected {
                    res matches Err(GdbSessionError::InvalidSessionState { operation: op, actual, expected })
                        && op == "prepare deployment" && actual == self.spec_state() && expected@
                        == seq![GdbSessionState::Connected]
                } else if all_whitespace(remote) {
                    res == Err::<MiCommand, GdbSessionError>(GdbSessionError::EmptyRemoteProgram)
                } else if remote.contains('\0') {
                    res matches Err(GdbSessionError::InvalidRemoteProgram { remote_program: r })
                        && r@ == remote
                } else {
                    res matches Ok(c) && c@ == stage_command(ConnectStage::Deploy, self.spec_config(), token)
                }
            },
    {
        match self.stage {
            ConnectStage::CheckVersion => Ok(gdb_version(token)),
            ConnectStage::LoadSymbols => Ok(file_exec_and_symbols(token, self.config.program.as_str())),
            ConnectStage::SelectTarget => Ok(target_select_qnx(token, self.config.target.as_str())),
            _ => {
                let accepted: [GdbSessionState; 1] = [GdbSessionState::Connected];
                proof {
                    assert(accepted@ =~= seq![GdbSessionState::Connected]);
                }
                self.require_state("prepare deployment", accepted.as_slice())?;
                validate_remote_program(self.config.deployment.remote_program())?;
                match &self.config.deployment {
                    GdbDeployment::Upload { remote_program } => Ok(
                        qnx_upload(token, self.config.program.as_str(), remote_program.as_str()),
                    ),
                    GdbDeployment::Existing { remote_program } => Ok(
                        qnx_set_executable(token, remote_program.as_str()),
                    ),
                }
            },
        }
    }

    /// Accepts the result of the current stage's command: an accepted result
    /// class completes the stage and updates the session state; any other
    /// result fails and changes nothing.
    pub fn accept_connect_result(&mut self, result: &MiResultRecord) -> (res: Result<(), GdbSessionError>)
        requires
            old(self).spec_stage() != ConnectStage::Complete,
        ensures
            class_check(
                res,
                stage_operation(old(self).spec_stage(), old(self).spec_config().deployment),
                *result,
                stage_classes(old(self).spec_stage()),
            ),
            final(self).spec_config() == old(self).spec_config(),
            forall|s: Seq<char>| #[trigger] final(self).installed(s) == old(self).installed(s),
            res is Ok ==> final(self).spec_stage() == next_stage(old(self).spec_stage())
                && final(self).spec_state() == state_after(old(self).spec_stage(), old(self).spec_state()),
            res is Err ==> final(self).spec_stage() == old(self).spec_stage()
                && final(self).spec_state() == old(self).spec_state(),
    {
        let outcome = match self.stage {
            ConnectStage::CheckVersion => {
                let accepted: [&str; 1] = ["done"];
                proof {
                    assert(texts(accepted@) =~= seq!["done"@]);
                }
                require_result_class("gdb-version", result, accepted.as_slice())
            },
            ConnectStage::LoadSymbols => {
                let accepted: [&str; 1] = ["done"];
                proof {
                    assert(texts(accepted@) =~= seq!["done"@]);
                }
                require_result_class("file-exec-and-symbols", result, accepted.as_slice())
            },
            ConnectStage::SelectTarget => {
                let accepted: [&str; 2] = ["connected", "done"];
                proof {
                    assert(texts(accepted@) =~= seq!["connected"@, "done"@]);
                }
                require_result_class("target-select", result, accepted.as_slice())
            },
            _ => {
                let accepted: [&str; 1] = ["done"];
                proof {
                    assert(texts(accepted@) =~= seq!["done"@]);
                }
                let operation = match &self.config.deployment {
                    GdbDeployment::Upload { .. } => "upload",
                    GdbDeployment::Existing { .. } => "set nto-executable",
                };
                require_result_class(operation, result, accepted.as_slice())
            },
        };
        if outcome.is_err() {
            return outcome;
        }
        match self.stage {
            ConnectStage::CheckVersion => {
                self.stage = ConnectStage::LoadSymbols;
            },
            ConnectStage::LoadSymbols => {
                self.state = GdbSessionState::SymbolsLoaded;
                self.stage = ConnectStage::SelectTarget;
            },
            ConnectStage::SelectTarget => {
                self.state = GdbSessionState::Connected;
                self.stage = ConnectStage::Deploy;
            },
            _ => {
                self.state = GdbSessionState::Deployed;
                self.stage = ConnectStage::Complete;
            },
        }
        outcome
    }

    /// Description of the prepared target executable.
    pub fn deployment_result(&self) -> (res: GdbDeploymentResult)
        ensures
            res.local_program@ == self.spec_config().program@,
            res.remote_program@ == self.spec_config().deployment.spec_remote_program(),
            res.uploaded == (self.spec_config().deployment is Upload),
    {
        let uploaded = match &self.config.deployment {
            GdbDeployment::Upload { .. } => true,
            GdbDeployment::Existing { .. } => false,
        };
        GdbDeploymentResult {
            local_program: self.config.program.clone(),
            remote_program: self.config.deployment.remote_program().to_owned(),
            uploaded,
        }
    }

    /// Starts replacing the breakpoints of `source`: requires a deployed
    /// session, and returns the breakpoint numbers to delete first. An entry
    /// without numbers is dropped at once.
    pub fn begin_breakpoint_update(&mut self, source: &str) -> (res: Result<Option<Vec<u64>>, GdbSessionError>)
        ensures
            final(self).spec_config() == old(self).spec_config(),
            final(self).spec_state() == old(self).spec_state(),
            final(self).spec_stage() == old(self).spec_stage(),
            forall|s: Seq<char>| path_key(s) != path_key(source@) ==> #[trigger] final(self).installed(s) == old(self).installed(s),
            old(self).spec_state() != GdbSessionState::Deployed ==> (res matches Err(
                GdbSessionError::InvalidSessionState { operation: op, actual, expected },
            ) && op == "set source breakpoints" && actual == old(self).spec_state() && expected@
                == seq![GdbSessionState::Deployed]) && final(self).installed(source@) == old(
                self,
            ).installed(source@),
            old(self).spec_state() == GdbSessionState::Deployed ==> match old(self).installed(source@) {
                None => res matches Ok(None) && final(self).installed(source@) is None,
                Some(numbers) => if numbers.len() == 0 {
                    res matches Ok(None) && final(self).installed(source@) is None
                } else {
                    res matches Ok(Some(v)) && v@ == numbers && final(self).installed(source@)
                        == Some(numbers)
                },
            },
    {
        let accepted: [GdbSessionState; 1] = [GdbSessionState::Deployed];
        proof {
            assert(accepted@ =~= seq![GdbSessionState::Deployed]);
        }
        self.require_state("set source breakpoints", accepted.as_slice())?;
        let key = path_key_text(source);
        match self.breakpoints.get(key.as_str()) {
            None => Ok(None),
            Some(numbers) => {
                if numbers.len() == 0 {
                    self.breakpoints.remove(key.as_str());
                    proof {
                        self.lemma_other_files_kept(*old(self), source@);
                    }
                    Ok(None)
                } else {
                    Ok(Some(numbers))
                }
            },
        }
    }

    /// Accepts the result of deleting the previous breakpoints of `source`:
    /// `done` forgets them; any other result fails and keeps them.
    pub fn finish_breakpoint_removal(&mut self, source: &str, result: &MiResultRecord) -> (res: Result<(), GdbSessionError>)
        ensures
            class_check(res, "break-delete", *result, seq!["done"@]),
            final(self).spec_config() == old(self).spec_config(),
            final(self).spec_state() == old(self).spec_state(),
            final(self).spec_stage() == old(self).spec_stage(),
            forall|s: Seq<char>| path_key(s) != path_key(source@) ==> #[trigger] final(self).installed(s) == old(self).installed(s),
            res is Ok ==> final(self).installed(source@) is None,
            res is Err ==> final(self).installed(source@) == old(self).installed(source@),
    {
        let accepted: [&str; 1] = ["done"];
        proof {
            assert(texts(accepted@) =~= seq!["done"@]);
        }
        require_result_class("break-delete", result, accepted.as_slice())?;
        let key = path_key_text(source);
        self.breakpoints.remove(key.as_str());
        proof {
            self.lemma_other_files_kept(*old(self), source@);
        }
        Ok(())
    }

    /// Records the breakpoints just created for `source`: the numbers that
    /// GDB assigned replace the entry when there are any.
    pub fn complete_breakpoint_update(&mut self, source: &str, breakpoints: &[GdbBreakpoint])
        ensures
            final(self).spec_config() == old(self).spec_config(),
            final(self).spec_state() == old(self).spec_state(),
            final(self).spec_stage() == old(self).spec_stage(),
            forall|s: Seq<char>| path_key(s) != path_key(source@) ==> #[trigger] final(self).installed(s) == old(self).installed(s),
            installed_numbers(breakpoints@).len() > 0 ==> final(self).installed(source@) == Some(
                installed_numbers(breakpoints@),
            ),
            installed_numbers(breakpoints@).len() == 0 ==> final(self).installed(source@) == old(
                self,
            ).installed(source@),
    {
        let mut numbers: Vec<u64> = Vec::new();
        let mut i: usize = 0;
        while i < breakpoints.len()
            invariant
                i <= breakpoints.len(),
                numbers@ == installed_numbers(breakpoints@.take(i as int)),
            decreases breakpoints.len() - i,
        {
            assert(breakpoints@.take(i + 1).drop_last() =~= breakpoints@.take(i as int));
            if let Some(n) = breakpoints[i].number {
                numbers.push(n);
            }
            i = i + 1;
        }
        assert(breakpoints@.take(breakpoints.len() as int) =~= breakpoints@);
        if numbers.len() > 0 {
            let key = path_key_text(source);
            self.breakpoints.insert(key.as_str(), numbers);
            proof {
                self.lemma_other_files_kept(*old(self), source@);
            }
        }
    }

    /// Whether GDB still has to be shut down.
    pub fn needs_shutdown(&self) -> (b: bool)
        ensures
            b == (self.spec_state() != GdbSessionState::Terminated),
    {
        self.state != GdbSessionState::Terminated
    }

    /// Records that GDB has terminated.
    pub fn mark_terminated(&mut self)
        ensures
            final(self).spec_state() == GdbSessionState::Terminated,
            final(self).spec_config() == old(self).spec_config(),
            final(self).spec_stage() == old(self).spec_stage(),
            forall|s: Seq<char>| #[trigger] final(self).installed(s) == old(self).installed(s),
    {
        self.state = GdbSessionState::Terminated;
    }
}

/// The GDB location of a source line: `FILE:LINE`.
pub open spec fn location_text(source: Seq<char>, line: u64) -> Seq<char> {
    source + seq![':'] + decimal(line as nat)
}

/// Builds the `-break-insert` location for a source line.
pub fn breakpoint_location(source: &str, line: u64) -> (res: String)
    ensures
        res@ == location_text(source@, line),
{
    let mut text = String::new();
    push_str(&mut text, source);
    push_char(&mut text, ':');
    push_decimal(&mut text, line);
    assert(text@ =~= location_text(source@, line));
    text
}

/// Interprets the result of inserting one source breakpoint: a GDB error
/// becomes an unverified breakpoint carrying GDB's message, so that the
/// remaining lines are still processed; other failures are errors.
pub fn insert_outcome(source: &str, line: u64, result: &MiResultRecord) -> (res: Result<GdbBreakpoint, GdbSessionError>)
    ensures
        result.class@ == "error"@ ==> (res matches Ok(b) && b@ == (SpecBreakpoint {
            number: None,
            source: source@,
            line,
            verified: false,
            function: None,
            resolved_file: None,
            address: None,
            message: Some(command_error_message(result.results@)),
        })),
        result.class@ != "error"@ ==> breakpoint_outcome(res, source@, line, *result),
{
    proof {
        reveal_strlit("error");
        reveal_strlit("done");
        assert("error"@[0] != "done"@[0]);
        assert("error"@ != "done"@);
    }
    match parse_breakpoint_result(source, line, result) {
        Ok(breakpoint) => Ok(breakpoint),
        Err(GdbSessionError::GdbCommand { message, .. }) => Ok(GdbBreakpoint::unverified(source, line, message.as_str())),
        Err(error) => Err(error),
    }
}

} // verus!
