//! Generator capabilities and their implementations.

use vstd::prelude::*;

verus! {

/// Fatal resource-exhaustion condition of an acknowledged counter:
/// raised when more than a window's worth of keys is in flight at once,
/// which includes acknowledging the same key twice.
#[derive(Debug, Clone, Copy, PartialEq, Eq, Structural)]
pub struct AckError;

/// A [`Generator`] generates values following some distribution.
pub trait Generator {
    /// Output type of the generator.
    type Output;

    /// When the generator may be asked for another value.
    spec fn next_ready(&self) -> bool;

    /// Generate the next value.
    fn next(&mut self) -> Self::Output
        requires
            old(self).next_ready(),
    ;
}

/// A [`Counter`] generates a sequence of integers and remembers the
/// most recently issued one.
pub trait Counter: Generator {
    /// When the last generated value may be asked for.
    spec fn last_ready(&self) -> bool;

    /// Get the last generated value.
    fn last(&self) -> Self::Output
        requires
            self.last_ready(),
    ;
}

/// An [`AcknowledgedCounter`] only moves the value reported by `last`
/// forward through `acknowledge` calls.
pub trait AcknowledgedCounter: Counter {
    /// When a value may be acknowledged.
    spec fn ack_ready(&self, val: Self::Output) -> bool;

    /// Report completion of `val`, possibly advancing the watermark
    /// that `last` reports.
    fn acknowledge(&mut self, val: Self::Output) -> Result<(), AckError>
        requires
            old(self).ack_ready(val),
    ;
}

} // verus!

/// Acknowledged atomic counters.
pub mod acknowledge;
/// Constant value generator.
pub mod constant;
/// Atomic counters.
pub mod counter;
/// Discrete value generator.
pub mod discrete;
/// Sequential generator.
pub mod sequential;
/// Uniform value generator.
pub mod uniform;
