use vstd::prelude::*;

verus! {

/// Failures of the instrumentation layer.
#[derive(Debug, Clone, Copy, PartialEq, Eq, Structural)]
pub enum PerfError {
    /// The operating system refused to allocate or operate a hardware counter.
    ResourceUnavailable,
    /// The operation does not fit the current lifecycle phase.
    InvalidState,
    /// A counter is already registered under this name.
    DuplicateName,
    /// No counter is registered under this name.
    NotFound,
}

} // verus!
