//! The background tasks of the desktop window: the events a task raises
//! when the library service answers. A task raises `LoadingStart` before it
//! asks the service (all but loading one file's details), and the events
//! below once the answer is in.

use vstd::prelude::*;

use crate::library::{SearchResult, StoredFile};
use crate::session::AppEvent;
use crate::text::push_str;

verus! {

broadcast use vstd::string::group_string_axioms;

/// The text of a failed task: what failed, ": " and the reason.
pub open spec fn failure_text(what: Seq<char>, reason: Seq<char>) -> Seq<char> {
    what + ": "@ + reason
}

/// The text of a failed task.
fn failure_message(what: &str, reason: &str) -> (r: String)
    ensures
        r@ == failure_text(what@, reason@),
{
    let mut r = String::new();
    push_str(&mut r, what);
    push_str(&mut r, ": ");
    push_str(&mut r, reason);
    r
}

/// The events after a search of any kind ("Search failed", "Advanced
/// search failed", "Category search failed" or "Failed to load files" name
/// the failure): the results or the error, then the end of loading.
pub fn search_finished(outcome: Result<SearchResult, String>, failure: &str) -> (r: Vec<AppEvent>)
    ensures
        r@.len() == 2,
        r@[1] == AppEvent::LoadingEnd,
        match outcome {
            Ok(res) => r@[0] == AppEvent::SearchResults(res),
            Err(e) => r@[0] matches AppEvent::Error(m) && m@ == failure_text(failure@, e@),
        },
{
    let first = match outcome {
        Ok(res) => AppEvent::SearchResults(res),
        Err(e) => AppEvent::Error(failure_message(failure, e.as_str())),
    };
    let mut r = Vec::new();
    r.push(first);
    r.push(AppEvent::LoadingEnd);
    r
}

/// The event after loading one file's details: the file, or the error
/// ("Load file failed").
pub fn file_load_finished(outcome: Result<StoredFile, String>) -> (r: AppEvent)
    ensures
        match outcome {
            Ok(f) => r == AppEvent::FileLoaded(f),
            Err(e) => r matches AppEvent::Error(m) && m@ == failure_text("Load file failed"@, e@),
        },
{
    match outcome {
        Ok(f) => AppEvent::FileLoaded(f),
        Err(e) => AppEvent::Error(failure_message("Load file failed", e.as_str())),
    }
}

/// The events after importing one file: the imported file and a refresh,
/// or the error ("Import failed"); then the end of loading.
pub fn import_finished(outcome: Result<StoredFile, String>) -> (r: Vec<AppEvent>)
    ensures
        r@.last() == AppEvent::LoadingEnd,
        match outcome {
            Ok(f) => r@ == seq![AppEvent::FileImported(f), AppEvent::RefreshView, AppEvent::LoadingEnd],
            Err(e) => r@.len() == 2 && (r@[0] matches AppEvent::Error(m) && m@ == failure_text(
                "Import failed"@,
                e@,
            )),
        },
{
    let mut r = Vec::new();
    match outcome {
        Ok(f) => {
            r.push(AppEvent::FileImported(f));
            r.push(AppEvent::RefreshView);
        },
        Err(e) => {
            r.push(AppEvent::Error(failure_message("Import failed", e.as_str())));
        },
    }
    r.push(AppEvent::LoadingEnd);
    r
}

/// An import of several files, one after the other: how many were
/// imported and how many failed so far.
#[derive(Clone, Copy, Debug)]
pub struct BatchImport {
    pub total: usize,
    pub successful: usize,
    pub failed: usize,
}

impl BatchImport {
    /// The start of an import of `total` files.
    pub fn new(total: usize) -> (r: Self)
        ensures
            r.total == total && r.successful == 0 && r.failed == 0,
    {
        BatchImport { total, successful: 0, failed: 0 }
    }

    /// One file's import ended: the imported file, or the error naming the
    /// file ("Failed to import <path>"); the counts follow.
    pub fn record(&mut self, path: &str, outcome: Result<StoredFile, String>) -> (r: AppEvent)
        requires
            old(self).successful + old(self).failed < usize::MAX,
        ensures
            final(self).total == old(self).total,
            match outcome {
                Ok(f) => r == AppEvent::FileImported(f) && final(self).successful == old(self).successful + 1
                    && final(self).failed == old(self).failed,
                Err(e) => (r matches AppEvent::Error(m) && m@ == failure_text("Failed to import "@ + path@, e@))
                    && final(self).failed == old(self).failed + 1
                    && final(self).successful == old(self).successful,
            },
    {
        match outcome {
            Ok(f) => {
                self.successful = self.successful + 1;
                AppEvent::FileImported(f)
            },
            Err(e) => {
                self.failed = self.failed + 1;
                let mut what = String::new();
                push_str(&mut what, "Failed to import ");
                push_str(&mut what, path);
                AppEvent::Error(failure_message(what.as_str(), e.as_str()))
            },
        }
    }

    /// The events after the last file: a refresh, then the end of loading.
    pub fn finish(&self) -> (r: Vec<AppEvent>)
        ensures
            r@ == seq![AppEvent::RefreshView, AppEvent::LoadingEnd],
    {
        let mut r = Vec::new();
        r.push(AppEvent::RefreshView);
        r.push(AppEvent::LoadingEnd);
        r
    }
}

} // verus!
