//! What callers of the API send.

use vstd::prelude::*;

verus! {

/// Asks for a URL to be queued.
#[derive(Debug)]
pub struct QueueItemParam {
    pub url: String,
}

/// Asks for the lenses whose name begins with `query`.
#[derive(Debug)]
pub struct SearchLensesParam {
    pub query: String,
}

} // verus!
