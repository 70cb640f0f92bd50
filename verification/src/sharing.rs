//! Sharing a value between owners.
use vstd::prelude::*;

use std::sync::Arc;

verus! {

/// `Arc::clone`: a second handle to the same shared value.
#[verifier::external_body]
pub(crate) fn share_arc<T>(shared: &Arc<T>) -> (r: Arc<T>)
    ensures
        r == *shared,
{
    Arc::clone(shared)
}

} // verus!
