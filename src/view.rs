use vstd::prelude::*;

use crate::fetch::{FetchResource, FetchResult, settled};
use crate::filter::{filter_by_text, filter_torrents, lemma_filter_empty_keeps_all, lower_of};
use crate::gateway::FetchError;
use crate::order::{sort_by_name, sort_torrents};
use crate::torrent::MyTorrent;

verus! {

/// The list to show: the fetched torrents sorted by name and filtered by the text, or
/// nothing while the fetch is pending or after it failed.
pub open spec fn derived(result: FetchResult, filter: Seq<char>) -> Seq<MyTorrent> {
    match result {
        FetchResult::Ready(v) => filter_by_text(sort_by_name(v@), filter),
        _ => Seq::empty(),
    }
}

/// The state of the torrent list page: the filter text and the fetch.
pub struct ViewState {
    pub filter: String,
    pub fetch: FetchResource,
}

impl ViewState {
    /// The state of a new page: an empty filter and a fetch not yet requested.
    pub fn new() -> (r: ViewState)
        ensures
            r.filter@.len() == 0,
            r.fetch.wf(),
            r.fetch.result is Pending,
            !r.fetch.requested,
    {
        ViewState { filter: String::new(), fetch: FetchResource::new() }
    }

    /// Replaces the filter text.
    pub fn set_filter(&mut self, text: String)
        ensures
            final(self).filter == text,
            final(self).fetch == old(self).fetch,
    {
        self.filter = text;
    }

    /// Hands the outcome of the fetch to the page. Only the first outcome counts.
    pub fn settle(&mut self, outcome: Result<Vec<MyTorrent>, FetchError>)
        requires
            old(self).fetch.wf(),
        ensures
            final(self).fetch.wf(),
            final(self).fetch.requested,
            final(self).fetch.result == settled(old(self).fetch.result, outcome),
            final(self).filter == old(self).filter,
    {
        self.fetch.settle(outcome);
    }

    /// The list to show now, recomputed from the fetch and the filter text.
    pub fn derived_list(&self) -> (r: Vec<MyTorrent>)
        ensures
            r@ == derived(self.fetch.result, self.filter@),
            self.filter@.len() == 0 && self.fetch.result is Ready ==> r@ == sort_by_name(
                self.fetch.result->Ready_0@,
            ),
    {
        match &self.fetch.result {
            FetchResult::Ready(v) => {
                let sorted = sort_torrents(v);
                filter_torrents(&sorted, self.filter.as_str())
            },
            _ => Vec::new(),
        }
    }
}

/// Sorting and then filtering by a text that lowercases to nothing gives the sorted
/// sequence itself.
pub proof fn lemma_empty_filter_after_sort(s: Seq<MyTorrent>, f: Seq<char>)
    requires
        lower_of(f).len() == 0,
    ensures
        filter_by_text(sort_by_name(s), f) == sort_by_name(s),
{
    lemma_filter_empty_keeps_all(sort_by_name(s), f);
}

/// While the fetch is pending or has failed, the list to show is empty, whatever the
/// filter text.
pub proof fn lemma_unsettled_or_failed_shows_nothing(e: FetchError, f: Seq<char>)
    ensures
        derived(FetchResult::Pending, f).len() == 0,
        derived(FetchResult::Failed(e), f).len() == 0,
{
}

} // verus!
