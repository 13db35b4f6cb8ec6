//! What the API answers.

use vstd::prelude::*;
use crate::models::crawl_queue::CrawlTask;

verus! {

/// Figures about the application.
#[derive(Clone, Copy, Debug, PartialEq, Eq, Structural)]
pub struct AppStatus {
    /// Number of documents in the index.
    pub num_docs: u64,
    /// Number of tasks waiting in the queue.
    pub num_queued: u64,
    /// Number of tasks in flight; 0 while the crawler is paused.
    pub num_in_progress: u64,
    pub is_paused: bool,
}

/// A lens, as a search for lenses shows it.
#[derive(Debug)]
pub struct LensResult {
    pub title: String,
    pub description: String,
}

/// The lenses that a search for lenses found.
#[derive(Debug)]
pub struct SearchLensesResp {
    pub results: Vec<LensResult>,
}

/// The crawl queue, row by row.
#[derive(Debug)]
pub struct ListQueue {
    pub queue: Vec<CrawlTask>,
}

} // verus!
