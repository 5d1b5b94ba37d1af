//! A value that its maker promises is never the zero pattern.
use vstd::prelude::*;

verus! {

/// Holds a value that is never zero, so that the zero pattern stays free for
/// an absent wrapper.
#[derive(Clone, Copy)]
pub struct NonZero<T> {
    zeroable: T,
}

impl<T> NonZero<T> {
    /// The value held.
    pub closed spec fn value(self) -> T {
        self.zeroable
    }

    /// Wraps `not_zero`; the caller promises that it is not zero.
    pub fn new(not_zero: T) -> (r: Self)
        ensures
            r.value() == not_zero,
    {
        NonZero { zeroable: not_zero }
    }

    /// The value held.
    pub fn get(&self) -> (r: &T)
        ensures
            *r == self.value(),
    {
        &self.zeroable
    }
}

} // verus!
