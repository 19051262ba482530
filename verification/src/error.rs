//! The error taxonomy of the build pipeline. Every error is fatal to the
//! enclosing build: no component attempts recovery or retry.

use vstd::prelude::*;

verus! {

/// The ways the pipeline can fail. Each variant names the failing step;
/// the pipeline aborts on the first one raised.
#[derive(Clone, Debug, PartialEq, Eq)]
pub enum BuildError {
    /// The external executable could not be located by the operating system.
    /// Carries the program name, so the message can suggest installing it.
    ToolNotFound(String),
    /// The external process ran but exited unsuccessfully.
    /// Carries the exit code where the OS reported one.
    ToolExecution(Option<i32>),
    /// The network fetch of a prebuilt archive failed.
    /// Carries the HTTP status where the transport produced a response.
    Download(Option<u16>),
    /// The platform triple did not split into at least an architecture
    /// and a system component.
    MalformedTarget,
    /// An expected file was absent after a reportedly successful build
    /// step, or an archive lacked an expected entry. Carries the path.
    UnexpectedBuildLayout(String),
    /// An explicitly rejected platform/toolchain combination was requested.
    UnsupportedConfiguration,
}

} // verus!
