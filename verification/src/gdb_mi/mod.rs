//! GDB Machine Interface: values, records, the record parser and commands.

pub mod breakpoint;
pub mod breakpoint_update;
pub mod command;
pub mod commands;
pub mod deployment;
pub mod execution;
pub mod inspection;
pub mod parser;
pub mod path_key;
pub mod parser_spec;
pub mod process;
pub mod quoting;
pub mod record;
pub mod session;
pub mod session_core;
pub mod shutdown;
pub mod strings;
pub mod value;

pub use breakpoint::{GdbBreakpoint, SourceBreakpoint};
pub use command::{MiCommand, MiTokenGenerator};
pub use deployment::{GdbDeployment, GdbDeploymentResult};
pub use execution::{GdbRunStarted, GdbSessionEvent, GdbStopReason, GdbStoppedFrame};
pub use inspection::{GdbStackFrame, GdbThread};
pub use session::{GdbSessionConfig, GdbSessionError, GdbSessionOutput, GdbSessionState};
pub use shutdown::GdbDisconnectMode;
pub use parser::{parse_record, MiParseError};
pub use process::{is_gdb_file, GdbCommandResult, GdbEvent, GdbProcessConfig};
pub use record::{MiAsyncRecord, MiRecord, MiResultRecord};
pub use value::{find_result, MiListItem, MiResult, MiValue};

use vstd::prelude::*;

verus! {

/// GDB version against which the MI client is developed.
pub const REFERENCE_GDB_VERSION: &'static str = "GNU gdb 6.8 qnx-nto (rev. 506)";

} // verus!
