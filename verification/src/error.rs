use vstd::prelude::*;

verus! {

/// Faults that can terminate a syscall or a whole run.
///
/// Remote-lookup failures are not here: the resolver recovers them locally
/// into an `Unknown` cell status instead of raising a fault.
#[derive(Debug, PartialEq, Eq, Structural, Clone, Copy)]
pub enum VmError {
    /// A malformed mode or source selector in a syscall register.
    ParseError,
    /// Backing data for a requested dataset is unavailable.
    IoError,
    /// A memory access or mapping range violation.
    MemoryFault,
}

} // verus!
