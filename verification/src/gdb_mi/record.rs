use vstd::prelude::*;

use super::value::{results_view, MiResult, SpecMiResult};

verus! {

/// Mathematical model of the body shared by result and asynchronous records.
pub struct SpecRecordBody {
    pub token: Option<u64>,
    pub class: Seq<char>,
    pub results: Seq<SpecMiResult>,
}

/// Mathematical model of one GDB/MI output record.
pub enum SpecMiRecord {
    Result(SpecRecordBody),
    ExecAsync(SpecRecordBody),
    StatusAsync(SpecRecordBody),
    NotifyAsync(SpecRecordBody),
    ConsoleStream(Seq<char>),
    TargetStream(Seq<char>),
    LogStream(Seq<char>),
    Prompt,
    Empty,
}

/// A complete output record produced by GDB/MI.
#[derive(Debug, PartialEq, Eq)]
pub enum MiRecord {
    /// Result of a command, prefixed by `^`.
    Result(MiResultRecord),
    /// Asynchronous execution state, prefixed by `*`.
    ExecAsync(MiAsyncRecord),
    /// Asynchronous status information, prefixed by `+`.
    StatusAsync(MiAsyncRecord),
    /// Asynchronous notification, prefixed by `=`.
    NotifyAsync(MiAsyncRecord),
    /// GDB console stream output, prefixed by `~`.
    ConsoleStream(String),
    /// Inferior target output, prefixed by `@`.
    TargetStream(String),
    /// GDB diagnostic/log output, prefixed by `&`.
    LogStream(String),
    /// GDB prompt.
    Prompt,
    /// An empty line.
    Empty,
}

/// A command result record.
#[derive(Debug, PartialEq, Eq)]
pub struct MiResultRecord {
    /// Optional numeric command token.
    pub token: Option<u64>,
    /// Result class, for example `done`, `running`, `connected` or `error`.
    pub class: String,
    /// Named result values.
    pub results: Vec<MiResult>,
}

/// An asynchronous MI record.
#[derive(Debug, PartialEq, Eq)]
pub struct MiAsyncRecord {
    /// Optional numeric token.
    pub token: Option<u64>,
    /// Async class, for example `stopped`, `running` or `thread-created`.
    pub class: String,
    /// Named result values.
    pub results: Vec<MiResult>,
}

impl View for MiResultRecord {
    type V = SpecRecordBody;

    open spec fn view(&self) -> SpecRecordBody {
        SpecRecordBody { token: self.token, class: self.class@, results: results_view(self.results@) }
    }
}

impl View for MiAsyncRecord {
    type V = SpecRecordBody;

    open spec fn view(&self) -> SpecRecordBody {
        SpecRecordBody { token: self.token, class: self.class@, results: results_view(self.results@) }
    }
}

impl View for MiRecord {
    type V = SpecMiRecord;

    open spec fn view(&self) -> SpecMiRecord {
        match self {
            MiRecord::Result(r) => SpecMiRecord::Result(r@),
            MiRecord::ExecAsync(r) => SpecMiRecord::ExecAsync(r@),
            MiRecord::StatusAsync(r) => SpecMiRecord::StatusAsync(r@),
            MiRecord::NotifyAsync(r) => SpecMiRecord::NotifyAsync(r@),
            MiRecord::ConsoleStream(s) => SpecMiRecord::ConsoleStream(s@),
            MiRecord::TargetStream(s) => SpecMiRecord::TargetStream(s@),
            MiRecord::LogStream(s) => SpecMiRecord::LogStream(s@),
            MiRecord::Prompt => SpecMiRecord::Prompt,
            MiRecord::Empty => SpecMiRecord::Empty,
        }
    }
}

} // verus!
