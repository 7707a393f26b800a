//! The error taxonomy. Sub-probe failures are deliberately absent: a failed
//! metric degrades to a zero value inside a complete result instead of
//! becoming an error.

use vstd::prelude::*;

verus! {

/// OS-level interface listing failed; the fault is caught at the enumeration
/// boundary and converted rather than allowed to cross into the caller.
#[derive(Debug, Clone, Copy, PartialEq, Eq, Structural)]
pub enum EnumerationError {
    /// The platform enumeration call faulted.
    OsQueryFailed,
}

/// A classification call failed because its underlying enumeration failed.
#[derive(Debug, Clone, Copy, PartialEq, Eq, Structural)]
pub enum ClassificationError {
    /// The wrapped enumeration failure.
    Enumeration(EnumerationError),
}

/// A speed test could not even start: reserved for process-level faults,
/// never for network faults.
#[derive(Debug, Clone, Copy, PartialEq, Eq, Structural)]
pub enum TestError {
    /// The wall-clock timestamp could not be obtained.
    ClockUnavailable,
}

impl EnumerationError {
    /// A rendering of the error for callers that display it.
    pub fn message(&self) -> (m: &'static str)
        ensures
            m@ == "Failed to retrieve network interfaces"@,
    {
        "Failed to retrieve network interfaces"
    }
}

impl ClassificationError {
    /// The enumeration failure this classification failure wraps.
    pub fn cause(&self) -> (e: EnumerationError)
        ensures
            *self == ClassificationError::Enumeration(e),
    {
        match self {
            ClassificationError::Enumeration(e) => *e,
        }
    }

    /// A rendering of the error for callers that display it.
    pub fn message(&self) -> (m: &'static str)
        ensures
            m@ == "Failed to retrieve network interfaces"@,
    {
        match self {
            ClassificationError::Enumeration(e) => e.message(),
        }
    }
}

impl TestError {
    /// A rendering of the error for callers that display it.
    pub fn message(&self) -> (m: &'static str)
        ensures
            m@ == "Failed to read the system clock"@,
    {
        "Failed to read the system clock"
    }
}

/// Wrap an enumeration failure for a classification caller.
pub fn classification_from_enumeration(e: EnumerationError) -> (c: ClassificationError)
    ensures
        c == ClassificationError::Enumeration(e),
{
    ClassificationError::Enumeration(e)
}

} // verus!
