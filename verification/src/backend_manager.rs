//! Shared access to the daemon's backends.
//!
//! The backends live behind a mutex shared by every connection. Whoever
//! takes the lock hands its outcome to [`lock_outcome`], which turns a
//! poisoned lock into an internal error, so handlers never deal with lock
//! poisoning themselves.

use std::sync::{Arc, Mutex};

use vstd::prelude::*;

use crate::errors::DispatchError;

verus! {

/// `std::sync::Mutex`, carried through opaquely.
#[verifier::external_type_specification]
#[verifier::external_body]
#[verifier::reject_recursive_types(T)]
pub struct ExMutex<T: ?Sized>(Mutex<T>);

/// What a run under the backends lock gives the caller: the closure's
/// result, or `Internal("backends lock poisoned")` when the lock was
/// poisoned.
pub fn lock_outcome<R>(outcome: Option<R>) -> (r: Result<R, DispatchError>)
    ensures
        match outcome {
            Some(v) => r == Ok::<R, DispatchError>(v),
            None => r matches Err(DispatchError::Internal { message }) && message@
                == "backends lock poisoned"@,
        },
{
    match outcome {
        Some(v) => Ok(v),
        None => Err(DispatchError::internal("backends lock poisoned")),
    }
}

/// Manager of the daemon's shared backends.
#[derive(Debug, Clone)]
#[verifier::reject_recursive_types(B)]
pub struct BackendManager<B> {
    inner: Arc<Mutex<B>>,
}

impl<B> BackendManager<B> {
    /// Creates a manager over the shared backends.
    pub fn new(backends: Arc<Mutex<B>>) -> (m: Self)
        ensures
            m.shared() == backends,
    {
        BackendManager { inner: backends }
    }

    /// The shared backends.
    pub closed spec fn shared(&self) -> Arc<Mutex<B>> {
        self.inner
    }

    /// The shared, locked backends.
    pub fn backends(&self) -> (r: &Arc<Mutex<B>>)
        ensures
            *r == self.shared(),
    {
        &self.inner
    }
}

} // verus!
