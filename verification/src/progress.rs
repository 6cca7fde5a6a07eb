//! Progress callbacks: a generic trait, a callback that always continues,
//! and one that wraps a closure.

use vstd::prelude::*;

use std::marker::PhantomData;

verus! {

/// Generic progress callback. `T` is the progress data type.
pub trait ProgressCallback<T>: Send + Sync {
    /// Called with progress updates; returns `true` to continue the
    /// operation and `false` to cancel it.
    fn on_progress(&self, progress: &T) -> bool;
}

/// A no-op progress callback that always continues.
pub struct NoOpProgress;

impl<T> ProgressCallback<T> for NoOpProgress {
    fn on_progress(&self, _progress: &T) -> (r: bool)
        ensures
            r,
    {
        true
    }
}

/// A progress callback that wraps a closure.
pub struct FnProgress<F: Fn(&T) -> bool + Send + Sync, T> {
    callback: F,
    _marker: PhantomData<T>,
}

impl<F: Fn(&T) -> bool + Send + Sync, T> FnProgress<F, T> {
    #[verifier::type_invariant]
    spec fn callable(&self) -> bool {
        forall|p: &T| self.callback.requires((p,))
    }

    /// The wrapped closure.
    pub closed spec fn closure(&self) -> F {
        self.callback
    }

    /// Create a new closure-based progress callback.
    pub fn new(callback: F) -> (r: Self)
        requires
            forall|p: &T| callback.requires((p,)),
        ensures
            r.closure() == callback,
    {
        FnProgress { callback, _marker: PhantomData }
    }
}

impl<F: Fn(&T) -> bool + Send + Sync, T: Send + Sync> ProgressCallback<T> for FnProgress<F, T> {
    fn on_progress(&self, progress: &T) -> (r: bool)
        ensures
            self.closure().ensures((progress,), r),
    {
        proof {
            use_type_invariant(self);
        }
        (self.callback)(progress)
    }
}

/// Create a progress callback from a closure.
pub fn progress_fn<F: Fn(&T) -> bool + Send + Sync, T>(f: F) -> (r: FnProgress<F, T>)
    requires
        forall|p: &T| f.requires((p,)),
    ensures
        r.closure() == f,
{
    FnProgress::new(f)
}

} // verus!
