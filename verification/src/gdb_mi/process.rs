use vstd::prelude::*;

use super::command::{MiCommand, MiTokenGenerator};
use super::parser::{parse_record, MiParseError};
use super::parser_spec::{spec_parse_record, SpecParseError};
use super::record::{MiRecord, MiResultRecord, SpecMiRecord};
use super::strings::str_equal;
use super::value::{find_result, first_named, MiValue};
use super::session::FileStatus;
use crate::text::{trim_line_end, trim_line_end_str};

verus! {

/// Configuration used to start a GDB/MI process.
#[derive(Debug, Clone, PartialEq, Eq)]
pub struct GdbProcessConfig {
    /// Path to the QNX GDB executable.
    pub executable: String,
    /// Additional command-line arguments passed to GDB.
    pub arguments: Vec<String>,
    /// Optional working directory for the GDB process.
    pub working_directory: Option<String>,
}

impl GdbProcessConfig {
    /// Creates a configuration for the specified GDB executable.
    pub fn new(executable: &str) -> (res: GdbProcessConfig)
        ensures
            res.executable@ == executable@,
            res.arguments@.len() == 0,
            res.working_directory is None,
    {
        GdbProcessConfig {
            executable: executable.to_owned(),
            arguments: Vec::new(),
            working_directory: None,
        }
    }

    /// Appends a command-line argument.
    pub fn argument(self, argument: &str) -> (res: GdbProcessConfig)
        ensures
            res.executable == self.executable,
            res.arguments@.len() == self.arguments@.len() + 1,
            res.arguments@.drop_last() == self.arguments@,
            res.arguments@.last()@ == argument@,
            res.working_directory == self.working_directory,
    {
        let mut arguments = self.arguments;
        arguments.push(argument.to_owned());
        GdbProcessConfig {
            executable: self.executable,
            arguments,
            working_directory: self.working_directory,
        }
    }

    /// Sets the GDB process working directory.
    pub fn working_directory(self, working_directory: &str) -> (res: GdbProcessConfig)
        ensures
            res.executable == self.executable,
            res.arguments == self.arguments,
            res.working_directory matches Some(w) && w@ == working_directory@,
    {
        GdbProcessConfig {
            executable: self.executable,
            arguments: self.arguments,
            working_directory: Some(working_directory.to_owned()),
        }
    }
}

/// A record observed while waiting for a command result.
#[derive(Debug, PartialEq, Eq)]
pub enum GdbEvent {
    /// An asynchronous MI record.
    Async(MiRecord),
    /// Console, target or log stream output.
    Stream(MiRecord),
}

/// Result of one GDB/MI command.
#[derive(Debug, PartialEq, Eq)]
pub struct GdbCommandResult {
    /// Final result record associated with the command token.
    pub result: MiResultRecord,
    /// Records received before the final command result.
    pub events: Vec<GdbEvent>,
}

/// The message of an `error` result: the first `msg` result, when it is a
/// constant.
pub open spec fn error_message_of(result: MiResultRecord) -> Option<Seq<char>> {
    if result.class@ != "error"@ {
        None
    } else {
        match first_named(result.results@, "msg"@) {
            Some(i) => match result.results@[i].value {
                MiValue::Const(text) => Some(text@),
                _ => None,
            },
            None => None,
        }
    }
}

impl GdbCommandResult {
    /// Returns whether the command completed with the specified result class.
    pub fn is_class(&self, class: &str) -> (b: bool)
        ensures
            b == (self.result.class@ == class@),
    {
        str_equal(self.result.class.as_str(), class)
    }

    /// Returns the GDB error message when the result class is `error`.
    pub fn error_message(&self) -> (res: Option<&str>)
        ensures
            match error_message_of(self.result) {
                Some(m) => res matches Some(text) && text@ == m,
                None => res is None,
            },
    {
        if !str_equal(self.result.class.as_str(), "error") {
            return None;
        }
        match find_result(self.result.results.as_slice(), "msg") {
            Some(value) => value.as_const(),
            None => None,
        }
    }
}

/// Parses one line read from GDB, without its trailing `\r` and `\n`.
pub fn parse_output_line(line: &str) -> (res: Result<MiRecord, MiParseError>)
    ensures
        match spec_parse_record(trim_line_end(line@)) {
            Ok(r) => res matches Ok(x) && x@ == r,
            Err(e) => res matches Err(x) && x@ == e,
        },
{
    let trimmed = trim_line_end_str(line);
    parse_record(trimmed.as_str())
}

/// What to do with one record read while waiting for the initial prompt.
#[derive(Debug, PartialEq, Eq)]
pub enum StartupStep {
    /// The prompt arrived: startup output is complete.
    Ready,
    /// The record is an empty line and is dropped.
    Skip,
    /// The record belongs to the startup output.
    Collect(MiRecord),
    /// A result record arrived before the prompt.
    UnexpectedResult { token: Option<u64>, class: String },
}

/// What to do with one record read while waiting for a command result.
#[derive(Debug, PartialEq, Eq)]
pub enum ResultStep {
    /// The awaited result record arrived.
    Finished(MiResultRecord),
    /// A result record with another token arrived.
    UnexpectedToken { actual: Option<u64>, class: String },
    /// An asynchronous or stream record to report with the result.
    Event(GdbEvent),
    /// A prompt or empty line, which is dropped.
    Skip,
}

/// Faults in the use of a GDB/MI channel, independent of I/O.
#[derive(Debug, PartialEq, Eq)]
pub enum ChannelFault {
    /// A command was sent before the initial prompt.
    NotSynchronized,
    /// Startup synchronization was requested twice.
    AlreadySynchronized,
    /// The command builder did not use the assigned token.
    UnexpectedCommandToken { expected: u64, actual: Option<u64> },
    /// A result record for another token arrived.
    UnexpectedResultToken { expected: u64, actual: Option<u64>, class: String },
    /// A result record arrived before the initial prompt.
    UnexpectedResultDuringSynchronization { token: Option<u64>, class: String },
}

/// The state of a GDB/MI channel apart from its streams: whether startup
/// output has been consumed, whether GDB has terminated, and the next token.
#[derive(Debug)]
pub struct GdbChannel {
    tokens: MiTokenGenerator,
    synchronized: bool,
    terminated: bool,
}

impl GdbChannel {
    /// Whether the initial prompt has been seen.
    pub closed spec fn spec_synchronized(&self) -> bool {
        self.synchronized
    }

    /// Whether GDB is known to have terminated.
    pub closed spec fn spec_terminated(&self) -> bool {
        self.terminated
    }

    /// The token of the next command.
    pub closed spec fn spec_upcoming(&self) -> u64 {
        self.tokens.upcoming()
    }

    /// A channel that has not yet seen the initial prompt.
    pub fn new() -> (res: GdbChannel)
        ensures
            !res.spec_synchronized(),
            !res.spec_terminated(),
            res.spec_upcoming() == 1,
    {
        GdbChannel { tokens: MiTokenGenerator::new(), synchronized: false, terminated: false }
    }

    /// Whether the initial prompt has been seen.
    pub fn is_synchronized(&self) -> (b: bool)
        ensures
            b == self.spec_synchronized(),
    {
        self.synchronized
    }

    /// Whether GDB is known to have terminated.
    pub fn is_terminated(&self) -> (b: bool)
        ensures
            b == self.spec_terminated(),
    {
        self.terminated
    }

    /// Records that GDB has terminated.
    pub fn mark_terminated(&mut self)
        ensures
            final(self).spec_terminated(),
            final(self).spec_synchronized() == old(self).spec_synchronized(),
            final(self).spec_upcoming() == old(self).spec_upcoming(),
    {
        self.terminated = true;
    }

    /// Whether the token space is exhausted, so that no command can be sent.
    pub fn tokens_exhausted(&self) -> (b: bool)
        ensures
            b == (self.spec_upcoming() == u64::MAX),
    {
        proof {
            assert(self.spec_upcoming() == self.tokens.upcoming());
        }
        self.tokens.peek() == u64::MAX
    }

    /// Checks that startup synchronization has not happened yet.
    pub fn begin_synchronization(&self) -> (res: Result<(), ChannelFault>)
        ensures
            self.spec_synchronized() ==> res == Err::<(), ChannelFault>(
                ChannelFault::AlreadySynchronized,
            ),
            !self.spec_synchronized() ==> res is Ok,
    {
        if self.synchronized {
            Err(ChannelFault::AlreadySynchronized)
        } else {
            Ok(())
        }
    }

    /// Handles one record read before the initial prompt. The prompt
    /// completes synchronization; empty lines are dropped; a result record is
    /// a fault; all other records are startup output.
    pub fn startup_step(&mut self, record: MiRecord) -> (step: StartupStep)
        ensures
            final(self).spec_terminated() == old(self).spec_terminated(),
            final(self).spec_upcoming() == old(self).spec_upcoming(),
            final(self).spec_synchronized() == (old(self).spec_synchronized() || record is Prompt),
            match record {
                MiRecord::Prompt => step is Ready,
                MiRecord::Empty => step is Skip,
                MiRecord::Result(r) => step == (StartupStep::UnexpectedResult {
                    token: r.token,
                    class: r.class,
                }),
                other => step == StartupStep::Collect(other),
            },
    {
        match record {
            MiRecord::Prompt => {
                self.synchronized = true;
                StartupStep::Ready
            },
            MiRecord::Empty => StartupStep::Skip,
            MiRecord::Result(result) => StartupStep::UnexpectedResult {
                token: result.token,
                class: result.class,
            },
            other => StartupStep::Collect(other),
        }
    }

    /// Assigns the token of the next command; fails before synchronization.
    pub fn next_command_token(&mut self) -> (res: Result<u64, ChannelFault>)
        requires
            old(self).spec_upcoming() < u64::MAX,
        ensures
            final(self).spec_synchronized() == old(self).spec_synchronized(),
            final(self).spec_terminated() == old(self).spec_terminated(),
            !old(self).spec_synchronized() ==> res == Err::<u64, ChannelFault>(
                ChannelFault::NotSynchronized,
            ) && final(self).spec_upcoming() == old(self).spec_upcoming(),
            old(self).spec_synchronized() ==> res == Ok::<u64, ChannelFault>(
                old(self).spec_upcoming(),
            ) && final(self).spec_upcoming() == old(self).spec_upcoming() + 1,
    {
        if !self.synchronized {
            return Err(ChannelFault::NotSynchronized);
        }
        Ok(self.tokens.next_token())
    }

    /// Checks that a command may be written: startup output must have been
    /// consumed.
    pub fn check_can_send(&self) -> (res: Result<(), ChannelFault>)
        ensures
            self.spec_synchronized() ==> res is Ok,
            !self.spec_synchronized() ==> res == Err::<(), ChannelFault>(
                ChannelFault::NotSynchronized,
            ),
    {
        if self.synchronized {
            Ok(())
        } else {
            Err(ChannelFault::NotSynchronized)
        }
    }
}

/// Checks that a built command carries the assigned token.
pub fn check_command_token(command: &MiCommand, expected: u64) -> (res: Result<(), ChannelFault>)
    ensures
        command@.token == Some(expected) ==> res is Ok,
        command@.token != Some(expected) ==> res == Err::<(), ChannelFault>(
            ChannelFault::UnexpectedCommandToken { expected, actual: command@.token },
        ),
{
    let actual = command.token();
    match actual {
        Some(t) => {
            if t == expected {
                return Ok(());
            }
        },
        None => {},
    }
    Err(ChannelFault::UnexpectedCommandToken { expected, actual })
}

/// Handles one record read while waiting for the result of the command with
/// token `expected`.
pub fn result_step(record: MiRecord, expected: u64) -> (step: ResultStep)
    ensures
        match record {
            MiRecord::Result(r) => if r.token == Some(expected) {
                step == ResultStep::Finished(r)
            } else {
                step == (ResultStep::UnexpectedToken { actual: r.token, class: r.class })
            },
            MiRecord::ExecAsync(_) | MiRecord::StatusAsync(_) | MiRecord::NotifyAsync(_) => step
                == ResultStep::Event(GdbEvent::Async(record)),
            MiRecord::ConsoleStream(_) | MiRecord::TargetStream(_) | MiRecord::LogStream(_) => step
                == ResultStep::Event(GdbEvent::Stream(record)),
            MiRecord::Prompt | MiRecord::Empty => step is Skip,
        },
{
    match record {
        MiRecord::Result(result) => {
            let matches = match result.token {
                Some(t) => t == expected,
                None => false,
            };
            if matches {
                ResultStep::Finished(result)
            } else {
                ResultStep::UnexpectedToken { actual: result.token, class: result.class }
            }
        },
        MiRecord::ExecAsync(_) | MiRecord::StatusAsync(_) | MiRecord::NotifyAsync(_) => {
            ResultStep::Event(GdbEvent::Async(record))
        },
        MiRecord::ConsoleStream(_) | MiRecord::TargetStream(_) | MiRecord::LogStream(_) => {
            ResultStep::Event(GdbEvent::Stream(record))
        },
        MiRecord::Prompt | MiRecord::Empty => ResultStep::Skip,
    }
}

/// Whether a `-gdb-exit` result has the expected `exit` class.
pub fn is_exit_result(result: &MiResultRecord) -> (b: bool)
    ensures
        b == (result.class@ == "exit"@),
{
    str_equal(result.class.as_str(), "exit")
}

/// Whether a path reported by the file system may be used as the GDB
/// executable: only that it is a regular file is checked; the operating
/// system checks execute permission when GDB is started.
pub fn is_gdb_file(status: FileStatus) -> (b: bool)
    ensures
        b == status.is_file,
{
    status.is_file
}

} // verus!
