use vstd::prelude::*;

verus! {

/// How a batch run over a directory of scripts ends.
#[derive(Debug, Clone, Copy, PartialEq, Eq, Structural)]
pub enum ExitCode {
    /// Every script was processed.
    Success,
    /// The environment variable naming the directory is not set.
    EnvVarNotFound,
    /// The directory cannot be read.
    InvalidDir,
    /// A script cannot be read.
    FileReadError,
    /// Anything else.
    UnexpectedError,
}

/// The process exit status of each way a run ends: 0 to 4, in the order they are declared.
pub open spec fn exit_status(code: ExitCode) -> i32 {
    match code {
        ExitCode::Success => 0,
        ExitCode::EnvVarNotFound => 1,
        ExitCode::InvalidDir => 2,
        ExitCode::FileReadError => 3,
        ExitCode::UnexpectedError => 4,
    }
}

impl From<ExitCode> for i32 {
    fn from(code: ExitCode) -> (r: i32) {
        match code {
            ExitCode::Success => 0,
            ExitCode::EnvVarNotFound => 1,
            ExitCode::InvalidDir => 2,
            ExitCode::FileReadError => 3,
            ExitCode::UnexpectedError => 4,
        }
    }
}

impl vstd::std_specs::convert::FromSpecImpl<ExitCode> for i32 {
    open spec fn obeys_from_spec() -> bool {
        true
    }

    open spec fn from_spec(code: ExitCode) -> i32 {
        exit_status(code)
    }
}

} // verus!
