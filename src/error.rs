//! The failures that running one command can end in.
use vstd::prelude::*;
use vstd::string::StringExecFns;

verus! {

/// Why a command could not be run to a successful end. The variants are
/// disjoint, so a caller can tell each class apart.
#[derive(Debug, PartialEq, Eq)]
pub enum ExecutionError {
    /// The final process exited with a non-zero status.
    CommandFailure(String),
    /// An operating-system spawn, read or write failed.
    IoError(String),
    /// The tool could not be checked for or installed.
    DependencyFailure(String),
    /// The tool is known not to run on this platform.
    UnsupportedPlatform(String),
    /// A pipeline of several processes failed as a whole.
    PipelineFailure(String),
    /// The worker that runs a blocking pipeline could not be used.
    BlockingTaskError(String),
    /// The command line or a pipeline segment holds no command.
    CommandParsingError(String),
}

/// The leading words of the message of each kind of failure.
pub open spec fn error_prefix(e: ExecutionError) -> Seq<char> {
    match e {
        ExecutionError::CommandFailure(_) => "Command execution failed: "@,
        ExecutionError::IoError(_) => "IO error during execution: "@,
        ExecutionError::DependencyFailure(_) => "Dependency installation failed: "@,
        ExecutionError::UnsupportedPlatform(_) => "Unsupported tool on this platform: "@,
        ExecutionError::PipelineFailure(_) => "Pipeline execution failed: "@,
        ExecutionError::BlockingTaskError(_) => "Blocking task failed: "@,
        ExecutionError::CommandParsingError(_) => "Command parsing failed: "@,
    }
}

/// The detail text carried by a failure.
pub open spec fn error_detail(e: ExecutionError) -> Seq<char> {
    match e {
        ExecutionError::CommandFailure(s) => s@,
        ExecutionError::IoError(s) => s@,
        ExecutionError::DependencyFailure(s) => s@,
        ExecutionError::UnsupportedPlatform(s) => s@,
        ExecutionError::PipelineFailure(s) => s@,
        ExecutionError::BlockingTaskError(s) => s@,
        ExecutionError::CommandParsingError(s) => s@,
    }
}

/// The human-readable message of a failure.
pub open spec fn error_message(e: ExecutionError) -> Seq<char> {
    error_prefix(e) + error_detail(e)
}

impl ExecutionError {
    /// The message that describes this failure.
    pub fn message(&self) -> (r: String)
        ensures
            r@ == error_message(*self),
    {
        let (prefix, detail) = match self {
            ExecutionError::CommandFailure(s) => ("Command execution failed: ", s),
            ExecutionError::IoError(s) => ("IO error during execution: ", s),
            ExecutionError::DependencyFailure(s) => ("Dependency installation failed: ", s),
            ExecutionError::UnsupportedPlatform(s) => ("Unsupported tool on this platform: ", s),
            ExecutionError::PipelineFailure(s) => ("Pipeline execution failed: ", s),
            ExecutionError::BlockingTaskError(s) => ("Blocking task failed: ", s),
            ExecutionError::CommandParsingError(s) => ("Command parsing failed: ", s),
        };
        String::from_str(prefix).concat(detail.as_str())
    }

    /// Whether this failure only means the tool does not run here, which
    /// demotes a plan step to skipped instead of ending the plan.
    pub fn is_unsupported_platform(&self) -> (r: bool)
        ensures
            r == (*self is UnsupportedPlatform),
    {
        match self {
            ExecutionError::UnsupportedPlatform(_) => true,
            _ => false,
        }
    }
}

} // verus!
