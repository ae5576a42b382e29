//! Shared ownership of lock-protected state.
use std::sync::Arc;
use vstd::prelude::*;

verus! {

/// `Arc::clone`: another pointer to the same value (std documents that it
/// produces a new `Arc` pointing to the same allocation).
#[verifier::external_body]
pub(crate) fn share<T>(a: &Arc<T>) -> (r: Arc<T>)
    ensures
        r == *a,
{
    Arc::clone(a)
}

} // verus!
