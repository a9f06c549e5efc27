//! Verified core of a QNX GDB debug adapter: GDB/MI records, commands and
//! session decisions, and the Debug Adapter Protocol framing and state machine.

pub mod adapter;
pub mod dap;
pub mod gdb_mi;
pub mod text;

pub use adapter::{
    AdapterCore, AdapterState, DapBreakpoint, DapSource, DapSourceBreakpoint, DisconnectArguments,
    LaunchArguments, SetBreakpointsArguments,
};
pub use gdb_mi::{
    commands, find_result, parse_record, MiAsyncRecord, MiCommand, MiListItem, MiParseError,
    MiRecord, MiResult, MiResultRecord, MiTokenGenerator, MiValue, REFERENCE_GDB_VERSION,
};
