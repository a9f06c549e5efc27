//! The QNX GDB debug adapter: request arguments, breakpoints in DAP form,
//! the messages the adapter sends and its request and event decisions.

pub mod breakpoints;
pub mod config;
pub mod machine;
pub mod messages;
pub mod run;

pub use breakpoints::{DapBreakpoint, DapSource, DapSourceBreakpoint, SetBreakpointsArguments};
pub use config::{DeploymentArguments, DisconnectArguments, LaunchArguments};
pub use machine::{
    AdapterCore, AdapterState, ArgumentsInput, BreakpointsStep, ConfigurationStep,
    DisconnectStep, GdbPoll, LaunchStep, RequestKind,
};
pub use messages::{AdapterMessage, Capabilities, MessageBody, StoppedEventBody};
