use vstd::prelude::*;

verus! {

/// Action performed with the inferior before closing GDB.
#[derive(Debug, Clone, Copy, PartialEq, Eq)]
pub enum GdbDisconnectMode {
    /// Detach from the inferior and allow it to continue running.
    Detach,
    /// Terminate the inferior before closing GDB.
    Terminate,
}

} // verus!
