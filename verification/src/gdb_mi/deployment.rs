use vstd::prelude::*;

verus! {

/// Method used to make an executable available on the QNX target.
#[derive(Debug, Clone, PartialEq, Eq)]
pub enum GdbDeployment {
    /// Upload the local executable through `pdebug`.
    Upload {
        /// Destination path on the QNX target.
        remote_program: String,
    },
    /// Use an executable that already exists on the target.
    Existing {
        /// Existing executable path on the QNX target.
        remote_program: String,
    },
}

impl GdbDeployment {
    /// The target executable path of either method.
    pub open spec fn spec_remote_program(&self) -> Seq<char> {
        match self {
            GdbDeployment::Upload { remote_program } => remote_program@,
            GdbDeployment::Existing { remote_program } => remote_program@,
        }
    }

    /// Creates upload deployment.
    pub fn upload(remote_program: &str) -> (res: GdbDeployment)
        ensures
            res is Upload,
            res.spec_remote_program() == remote_program@,
    {
        GdbDeployment::Upload { remote_program: remote_program.to_owned() }
    }

    /// Creates deployment using an existing remote executable.
    pub fn existing(remote_program: &str) -> (res: GdbDeployment)
        ensures
            res is Existing,
            res.spec_remote_program() == remote_program@,
    {
        GdbDeployment::Existing { remote_program: remote_program.to_owned() }
    }

    /// Returns the target executable path.
    pub fn remote_program(&self) -> (res: &str)
        ensures
            res@ == self.spec_remote_program(),
    {
        match self {
            GdbDeployment::Upload { remote_program } => remote_program.as_str(),
            GdbDeployment::Existing { remote_program } => remote_program.as_str(),
        }
    }
}

/// Result of preparing the executable on the target.
#[derive(Debug, Clone, PartialEq, Eq)]
pub struct GdbDeploymentResult {
    /// Local ELF used for symbols.
    pub local_program: String,
    /// Executable selected on the QNX target.
    pub remote_program: String,
    /// Whether the executable was uploaded by this session.
    pub uploaded: bool,
}

} // verus!
