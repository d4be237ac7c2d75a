//! The mark of values that a driver keeps from one call to the next.

use vstd::prelude::*;
use crate::tetris::tetris::Tetris;

verus! {

/// Where a kept value comes from. There is one origin only.
pub struct PersistedOrigin;

/// A value that a driver can keep from one call to the next: it can be
/// copied and borrows nothing.
pub trait Persist: Clone + 'static {
    /// The origin of the value.
    fn ptr(&self) -> PersistedOrigin {
        PersistedOrigin
    }
}

impl Persist for Tetris {
    fn ptr(&self) -> PersistedOrigin {
        PersistedOrigin
    }
}

} // verus!
