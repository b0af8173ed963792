//! Cooperative cancellation: a flag that long operations look at between
//! their phases.

use vstd::prelude::*;
use std::sync::atomic::AtomicBool;
use std::sync::atomic::Ordering;
use std::sync::Arc;
use crate::error::{StoreError, StoreErrorView};

verus! {

/// The flag by which the owner of a long operation asks it to stop. Copies
/// of a handle share one flag, so the request can come from another thread
/// while the operation runs.
pub struct CancelHandle {
    canceled: Arc<AtomicBool>,
}

impl Clone for CancelHandle {
    fn clone(&self) -> Self {
        CancelHandle { canceled: self.canceled.clone() }
    }
}

impl CancelHandle {
    /// A handle whose flag is not raised.
    pub fn new() -> Self {
        CancelHandle { canceled: Arc::new(AtomicBool::new(false)) }
    }

    /// Asks the operation to stop at its next checkpoint.
    pub fn cancel(&self) {
        self.canceled.store(true, Ordering::SeqCst);
    }

    /// Whether a stop was asked for when the flag was read. The flag can be
    /// raised at any time, so nothing is known of the answer beforehand.
    pub fn is_canceled(&self) -> bool {
        self.canceled.load(Ordering::SeqCst)
    }

    /// A checkpoint: fails with `Canceled`, and with no other error, when a
    /// stop was asked for.
    pub fn check_cancel(&self) -> (res: Result<(), StoreError>)
        ensures
            res matches Err(e) ==> e@ == StoreErrorView::Canceled,
    {
        checkpoint(self.is_canceled())
    }
}

/// What a checkpoint answers when the flag was read as `canceled`.
pub fn checkpoint(canceled: bool) -> (res: Result<(), StoreError>)
    ensures
        canceled ==> (res matches Err(e) && e@ == StoreErrorView::Canceled),
        !canceled ==> res is Ok,
{
    if canceled {
        Err(StoreError::Canceled)
    } else {
        Ok(())
    }
}

} // verus!
