//! Exit codes of the Ricer binary.

use vstd::prelude::*;

verus! {

/// How the binary ends.
#[derive(Debug, Clone, Copy, PartialEq, Eq, Structural)]
pub enum ExitCode {
    Success,
    Failure,
}

/// Process exit status of an exit code.
pub open spec fn exit_status(code: ExitCode) -> i32 {
    match code {
        ExitCode::Success => 0,
        ExitCode::Failure => 1,
    }
}

impl From<ExitCode> for i32 {
    fn from(code: ExitCode) -> (res: i32) {
        match code {
            ExitCode::Success => 0,
            ExitCode::Failure => 1,
        }
    }
}

impl vstd::std_specs::convert::FromSpecImpl<ExitCode> for i32 {
    open spec fn obeys_from_spec() -> bool {
        true
    }

    open spec fn from_spec(code: ExitCode) -> i32 {
        exit_status(code)
    }
}

} // verus!
