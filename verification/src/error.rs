//! The failures of the render pipeline and the categories they fall under.

use vstd::prelude::*;

verus! {

/// A failure of one component of the pipeline.
#[derive(Clone, Copy, Debug, PartialEq, Eq, Structural)]
pub enum PipelineError {
    /// The compute backend could not provide the frame buffer.
    DeviceAllocation,
    /// The kernel source did not compile.
    Compile,
    /// An argument does not match the kernel's signature.
    Bind,
    /// The kernel could not be enqueued.
    Dispatch,
    /// The frame could not be copied from the device to the host.
    Transfer,
    /// The display surface could not be locked for writing.
    SurfaceLock,
    /// The frame could not be written to the display surface or shown.
    Present,
    /// An input event was malformed or unexpected.
    Input,
}

/// The category of a failure, which decides how the frame loop treats it.
#[derive(Clone, Copy, Debug, PartialEq, Eq, Structural)]
pub enum ErrorCategory {
    Initialization,
    Dispatch,
    Transfer,
    Surface,
    Input,
}

impl PipelineError {
    /// The category of this failure.
    pub open spec fn category_spec(self) -> ErrorCategory {
        match self {
            PipelineError::DeviceAllocation => ErrorCategory::Initialization,
            PipelineError::Compile => ErrorCategory::Initialization,
            PipelineError::Bind => ErrorCategory::Initialization,
            PipelineError::Dispatch => ErrorCategory::Dispatch,
            PipelineError::Transfer => ErrorCategory::Transfer,
            PipelineError::SurfaceLock => ErrorCategory::Surface,
            PipelineError::Present => ErrorCategory::Surface,
            PipelineError::Input => ErrorCategory::Input,
        }
    }

    /// A failure is fatal unless it is an input error.
    pub open spec fn is_fatal_spec(self) -> bool {
        self != PipelineError::Input
    }

    /// The category of this failure.
    #[verifier::when_used_as_spec(category_spec)]
    pub fn category(self) -> (c: ErrorCategory)
        ensures
            c == self.category_spec(),
    {
        match self {
            PipelineError::DeviceAllocation => ErrorCategory::Initialization,
            PipelineError::Compile => ErrorCategory::Initialization,
            PipelineError::Bind => ErrorCategory::Initialization,
            PipelineError::Dispatch => ErrorCategory::Dispatch,
            PipelineError::Transfer => ErrorCategory::Transfer,
            PipelineError::SurfaceLock => ErrorCategory::Surface,
            PipelineError::Present => ErrorCategory::Surface,
            PipelineError::Input => ErrorCategory::Input,
        }
    }

    /// Whether this failure ends the frame loop: every failure does, but an
    /// input error, which is skipped.
    #[verifier::when_used_as_spec(is_fatal_spec)]
    pub fn is_fatal(self) -> (fatal: bool)
        ensures
            fatal == self.is_fatal_spec(),
            fatal <==> self.category_spec() != ErrorCategory::Input,
    {
        match self {
            PipelineError::Input => false,
            _ => true,
        }
    }
}

} // verus!
