//! The kinds of failure the crawl core knows.

use vstd::prelude::*;

verus! {

/// What can go wrong. Only some kinds reach a caller: a malformed or
/// duplicate URL is skipped within its batch, and a failed fetch or a plugin
/// request that breaks the sandbox rules is recorded and otherwise ignored.
#[derive(Clone, Copy, Debug, PartialEq, Eq, Structural)]
pub enum CrawlError {
    /// A candidate URL is malformed.
    InvalidUrl,
    /// The queue already holds the URL.
    DuplicateTask,
    /// No task has the id that was given.
    NotFound,
    /// The persistence layer cannot be reached.
    StoreUnavailable,
    /// A plugin's request failed validation.
    SandboxViolation,
    /// The fetcher could not fetch the page.
    FetchFailure,
}

impl CrawlError {
    /// The category names, as text.
    pub open spec fn spec_category(self) -> Seq<char> {
        match self {
            CrawlError::InvalidUrl => "invalid_url"@,
            CrawlError::DuplicateTask => "duplicate_task"@,
            CrawlError::NotFound => "not_found"@,
            CrawlError::StoreUnavailable => "store_unavailable"@,
            CrawlError::SandboxViolation => "sandbox_violation"@,
            CrawlError::FetchFailure => "fetch_failure"@,
        }
    }

    /// A machine-readable name for the kind of failure.
    pub fn category(&self) -> (res: &'static str)
        ensures
            res@ == self.spec_category(),
    {
        match self {
            CrawlError::InvalidUrl => "invalid_url",
            CrawlError::DuplicateTask => "duplicate_task",
            CrawlError::NotFound => "not_found",
            CrawlError::StoreUnavailable => "store_unavailable",
            CrawlError::SandboxViolation => "sandbox_violation",
            CrawlError::FetchFailure => "fetch_failure",
        }
    }

    /// The messages, as text.
    pub open spec fn spec_message(self) -> Seq<char> {
        match self {
            CrawlError::InvalidUrl => "the URL is malformed"@,
            CrawlError::DuplicateTask => "the URL is already in the queue"@,
            CrawlError::NotFound => "no task has this id"@,
            CrawlError::StoreUnavailable => "the task store cannot be reached"@,
            CrawlError::SandboxViolation => "the plugin's request was turned down"@,
            CrawlError::FetchFailure => "the page could not be fetched"@,
        }
    }

    /// A message for people.
    pub fn message(&self) -> (res: &'static str)
        ensures
            res@ == self.spec_message(),
    {
        match self {
            CrawlError::InvalidUrl => "the URL is malformed",
            CrawlError::DuplicateTask => "the URL is already in the queue",
            CrawlError::NotFound => "no task has this id",
            CrawlError::StoreUnavailable => "the task store cannot be reached",
            CrawlError::SandboxViolation => "the plugin's request was turned down",
            CrawlError::FetchFailure => "the page could not be fetched",
        }
    }

    /// Whether a failure of this kind is handed to the caller, rather than
    /// skipped or recorded where it happens.
    pub open spec fn spec_surfaces(self) -> bool {
        self == CrawlError::NotFound || self == CrawlError::StoreUnavailable
    }

    /// Whether a failure of this kind is handed to the caller, rather than
    /// skipped or recorded where it happens.
    pub fn surfaces(&self) -> (res: bool)
        ensures
            res == self.spec_surfaces(),
    {
        match self {
            CrawlError::NotFound => true,
            CrawlError::StoreUnavailable => true,
            _ => false,
        }
    }
}

} // verus!
