//! The shared-state guard: a busy-wait read/write lock around a state object.
//!
//! Acquisition retries a non-blocking attempt in a tight loop and returns only
//! once it succeeds; there is no timeout, no fairness guarantee and no
//! cancellation.  Every value stored in a guard satisfies the state's own
//! well-formedness condition, so every reader observes a well-formed state.

use vstd::prelude::*;
use vstd::rwlock::{ReadHandle, RwLock, RwLockPredicate, WriteHandle};

verus! {

/// A state object that may live inside a [`SharedState`] guard.  `inv` is the
/// well-formedness condition that every stored value satisfies.
pub trait GuardedState: Sized {
    spec fn inv(&self) -> bool;
}

/// The lock predicate of a guard: the stored value satisfies its own `inv`.
pub struct StateInv;

impl<V: GuardedState> RwLockPredicate<V> for StateInv {
    open spec fn inv(self, v: V) -> bool {
        v.inv()
    }
}

/// A busy-wait read/write guard wrapping one state object.
///
/// The task executor and the renderer each wrap their own independent state
/// object in one of these; there is no cross-locking between the two.
pub struct SharedState<V: GuardedState> {
    lock: RwLock<V, StateInv>,
}

impl<V: GuardedState> SharedState<V> {
    #[verifier::type_invariant]
    spec fn wf(&self) -> bool {
        self.lock.pred() == StateInv
    }

    /// Construct a guard around an initial, well-formed state value.
    pub fn new(value: V) -> Self
        requires
            value.inv(),
    {
        SharedState { lock: RwLock::new(value, Ghost(StateInv)) }
    }

    /// Acquire shared read access, spinning until no writer holds the lock.
    /// The handle must be released with `release_read`.
    pub fn read(&self) -> (handle: ReadHandle<'_, V, StateInv>)
        ensures
            handle.view().inv(),
            handle.rwlock().pred() == StateInv,
    {
        proof {
            use_type_invariant(self);
        }
        self.lock.acquire_read()
    }

    /// Acquire exclusive write access, spinning until every other holder has
    /// released.  The value handed out is well-formed; the handle must be
    /// released with `release_write`, with a value that is well-formed again.
    pub fn write(&self) -> (ret: (V, WriteHandle<'_, V, StateInv>))
        ensures
            ret.0.inv(),
            ret.1.rwlock().pred() == StateInv,
    {
        proof {
            use_type_invariant(self);
        }
        self.lock.acquire_write()
    }
}

} // verus!
