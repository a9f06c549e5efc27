use vstd::prelude::*;

verus! {

/// A requested source breakpoint.
#[derive(Debug, Clone, Copy, PartialEq, Eq)]
pub struct SourceBreakpoint {
    /// One-based source line number.
    pub line: u64,
}

impl SourceBreakpoint {
    /// Creates a source breakpoint request.
    pub fn new(line: u64) -> (res: SourceBreakpoint)
        ensures
            res.line == line,
    {
        SourceBreakpoint { line }
    }
}

/// Result of attempting to create one source breakpoint. Paths are held as
/// the UTF-8 text that GDB and the DAP client exchange.
#[derive(Debug, Clone, PartialEq, Eq)]
pub struct GdbBreakpoint {
    /// GDB breakpoint number, when GDB created the breakpoint.
    pub number: Option<u64>,
    /// Source file associated with the request.
    pub source: String,
    /// Requested or resolved source line.
    pub line: u64,
    /// Whether GDB verified the breakpoint.
    pub verified: bool,
    /// Function name reported by GDB.
    pub function: Option<String>,
    /// Resolved source file reported by GDB.
    pub resolved_file: Option<String>,
    /// Address reported by GDB.
    pub address: Option<String>,
    /// Diagnostic message for an unverified breakpoint.
    pub message: Option<String>,
}

impl GdbBreakpoint {
    /// Creates an unverified breakpoint result.
    pub fn unverified(source: &str, line: u64, message: &str) -> (res: GdbBreakpoint)
        ensures
            res.number is None,
            res.source@ == source@,
            res.line == line,
            !res.verified,
            res.function is None,
            res.resolved_file is None,
            res.address is None,
            res.message matches Some(m) && m@ == message@,
    {
        GdbBreakpoint {
            number: None,
            source: source.to_owned(),
            line,
            verified: false,
            function: None,
            resolved_file: None,
            address: None,
            message: Some(message.to_owned()),
        }
    }
}

} // verus!
