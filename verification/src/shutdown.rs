//! The process-wide cancellation signal.
//!
//! One signal is created at startup.  It is raised by a termination
//! request or by a fatal ingestion error, observed by every
//! long-running task, and never reset.

use vstd::prelude::*;

verus! {

/// A write-once-effective, observe-many shutdown flag.
#[derive(Debug)]
pub struct CancellationSignal {
    cancelled: bool,
}

impl View for CancellationSignal {
    type V = bool;

    closed spec fn view(&self) -> bool {
        self.cancelled
    }
}

impl CancellationSignal {
    /// A fresh signal, not yet raised.
    pub fn new() -> (r: Self)
        ensures
            !r@,
    {
        Self { cancelled: false }
    }

    /// Raises the signal.  Raising it again changes nothing: the
    /// signal is set at most once, and further sets are no-ops.
    pub fn cancel(&mut self)
        ensures
            final(self)@,
    {
        self.cancelled = true;
    }

    /// Observes the signal without changing it.
    pub fn is_cancelled(&self) -> (r: bool)
        ensures
            r == self@,
    {
        self.cancelled
    }
}

} // verus!
