use vstd::prelude::*;

verus! {

/// Target deployment configuration of a `launch` request.
#[derive(Debug, Clone, PartialEq, Eq)]
pub enum DeploymentArguments {
    /// Upload the local program to `remote_program`.
    Upload { remote_program: String },
    /// Use the program that already exists at `remote_program`.
    Existing { remote_program: String },
}

/// Arguments of the DAP `launch` request.
#[derive(Debug, Clone, PartialEq, Eq)]
pub struct LaunchArguments {
    /// Path to the QNX GDB executable.
    pub gdb: String,
    /// Local executable containing symbols.
    pub program: String,
    /// QNX remote target in `HOST:PORT` form.
    pub target: String,
    /// How the program reaches the target.
    pub deployment: DeploymentArguments,
    /// Optional host-side working directory for GDB.
    pub working_directory: Option<String>,
    /// Additional command-line arguments passed to GDB.
    pub gdb_arguments: Vec<String>,
}

/// Arguments of the DAP `disconnect` request.
#[derive(Debug, Clone, Copy, PartialEq, Eq)]
pub struct DisconnectArguments {
    /// Whether the debug adapter should terminate the inferior.
    ///
    /// Inferior termination is not implemented yet, but the field is accepted
    /// for DAP compatibility.
    pub terminate_debuggee: bool,
    /// Whether the debug adapter should suspend the inferior.
    ///
    /// This is not supported.
    pub suspend_debuggee: bool,
}

impl Default for DisconnectArguments {
    fn default() -> (res: DisconnectArguments)
        ensures
            !res.terminate_debuggee,
            !res.suspend_debuggee,
    {
        DisconnectArguments { terminate_debuggee: false, suspend_debuggee: false }
    }
}

} // verus!
