//! Cooperative cancellation: one flag, set by the interrupt handler and
//! observed before every step.
use vstd::prelude::*;

verus! {

/// The cancellation flag of a process.
pub struct CancelFlag {
    pub cancelled: bool,
}

impl CancelFlag {
    /// A flag that is not set.
    pub fn new() -> (r: CancelFlag)
        ensures
            !r.cancelled,
    {
        CancelFlag { cancelled: false }
    }
}

/// Sets the flag; it stays set.
pub fn set_cancelled(flag: &mut CancelFlag)
    ensures
        final(flag).cancelled,
{
    flag.cancelled = true;
}

/// Whether cancellation was requested.
pub fn is_cancelled(flag: &CancelFlag) -> (r: bool)
    ensures
        r == flag.cancelled,
{
    flag.cancelled
}

/// A step that is only taken while the flag is clear.
pub struct CancellableFuture<Fut> {
    pub inner: Fut,
}

impl<Fut> CancellableFuture<Fut> {
    pub fn new(inner: Fut) -> (r: Self)
        ensures
            r.inner == inner,
    {
        CancellableFuture { inner }
    }

    /// Whether the wrapped step may run: only while not cancelled.
    pub fn may_proceed(&self, flag: &CancelFlag) -> (r: bool)
        ensures
            r == !flag.cancelled,
    {
        !flag.cancelled
    }

    pub fn into_inner(self) -> (r: Fut)
        ensures
            r == self.inner,
    {
        self.inner
    }
}

} // verus!
