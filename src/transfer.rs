//! The decisions around object-store transfers: paging through a listing,
//! and retrying an upload a bounded number of times.

use vstd::prelude::*;
use crate::catalog::ObjectRecord;

verus! {

/// How a listing treats a page that fails to load.
#[derive(Clone, Copy, Debug, PartialEq, Eq, Structural)]
pub enum ListingMode {
    /// Keep what was gathered and stop.
    BestEffort,
    /// Fail the whole listing.
    Strict,
}

/// A listing that broke off on a failed page in strict mode.
#[derive(Clone, Copy, Debug, PartialEq, Eq, Structural)]
pub struct ListingFailed {
    /// Number of pages that had been read.
    pub pages: u64,
}

/// The state of a paginated listing of the object store.
pub struct Listing {
    pub objects: Vec<ObjectRecord>,
    /// The continuation token for the next page, if any.
    pub token: Option<String>,
    pub pages: u64,
    pub finished: bool,
    /// Whether the listing stopped on a failed page.
    pub truncated: bool,
}

impl Listing {
    /// A listing that has read nothing and will ask for the first page.
    pub fn new() -> (r: Listing)
        ensures
            r.objects@.len() == 0,
            r.token.is_none(),
            r.pages == 0,
            !r.finished,
            !r.truncated,
    {
        Listing { objects: Vec::new(), token: None, pages: 0, finished: false, truncated: false }
    }

    /// The continuation token of the next request: `None` once finished,
    /// `Some(None)` for the first page.
    pub fn next_request(&self) -> (r: Option<Option<String>>)
        ensures
            self.finished ==> r.is_none(),
            !self.finished ==> r == Some(self.token),
    {
        if self.finished {
            None
        } else {
            match &self.token {
                Some(t) => Some(Some(t.clone())),
                None => Some(None),
            }
        }
    }

    /// Takes in one page: its objects are appended, and the listing goes on
    /// exactly while the page carries a continuation token.
    pub fn on_page(&mut self, contents: Vec<ObjectRecord>, next: Option<String>)
        requires
            !old(self).finished,
            old(self).pages < u64::MAX,
        ensures
            final(self).objects@ == old(self).objects@ + contents@,
            final(self).finished == next.is_none(),
            final(self).token == next,
            final(self).pages == old(self).pages + 1,
            final(self).truncated == old(self).truncated,
    {
        let mut contents = contents;
        self.objects.append(&mut contents);
        self.finished = next.is_none();
        self.token = next;
        self.pages = self.pages + 1;
    }

    /// Takes in a failed page: the listing stops with what it has; in strict
    /// mode the failure is also returned.
    pub fn on_error(&mut self, mode: ListingMode) -> (r: Result<(), ListingFailed>)
        ensures
            final(self).objects@ == old(self).objects@,
            final(self).finished,
            final(self).truncated,
            final(self).pages == old(self).pages,
            mode == ListingMode::BestEffort ==> r is Ok,
            mode == ListingMode::Strict ==> r == Err::<(), ListingFailed>(ListingFailed { pages: old(self).pages }),
    {
        self.finished = true;
        self.truncated = true;
        match mode {
            ListingMode::BestEffort => Ok(()),
            ListingMode::Strict => Err(ListingFailed { pages: self.pages }),
        }
    }
}

/// How many times an upload is tried in all.
#[derive(Clone, Copy, Debug, PartialEq, Eq, Structural)]
pub struct RetryPolicy {
    pub max_attempts: u32,
}

/// What follows one upload attempt.
#[derive(Clone, Copy, Debug, PartialEq, Eq, Structural)]
pub enum UploadStep {
    /// Try again at once.
    Retry,
    /// The file is stored.
    Stored,
    /// Attempts are exhausted: mark the file failed and go on.
    GiveUp,
}

impl RetryPolicy {
    /// Three attempts in all, with no pause between them.
    pub fn standard() -> (r: RetryPolicy)
        ensures
            r.max_attempts == 3,
    {
        RetryPolicy { max_attempts: 3 }
    }

    /// The step after attempt number `attempt` (counted from 1) ended with `ok`.
    pub fn after_attempt(&self, attempt: u32, ok: bool) -> (r: UploadStep)
        requires
            1 <= attempt <= self.max_attempts,
        ensures
            ok ==> r == UploadStep::Stored,
            !ok && attempt < self.max_attempts ==> r == UploadStep::Retry,
            !ok && attempt == self.max_attempts ==> r == UploadStep::GiveUp,
    {
        if ok {
            UploadStep::Stored
        } else if attempt < self.max_attempts {
            UploadStep::Retry
        } else {
            UploadStep::GiveUp
        }
    }
}

} // verus!
