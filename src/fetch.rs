use vstd::prelude::*;

use crate::gateway::FetchError;
use crate::torrent::MyTorrent;

verus! {

/// The state of the single fetch of the torrent list.
pub enum FetchResult {
    Pending,
    Ready(Vec<MyTorrent>),
    Failed(FetchError),
}

/// The state after an outcome arrives: a pending fetch takes the outcome, a settled
/// one keeps what it has.
pub open spec fn settled(state: FetchResult, outcome: Result<Vec<MyTorrent>, FetchError>) -> FetchResult {
    match state {
        FetchResult::Pending => match outcome {
            Ok(v) => FetchResult::Ready(v),
            Err(e) => FetchResult::Failed(e),
        },
        _ => state,
    }
}

/// The one load of the torrent list in a page session: it is requested once, on the
/// first observation, and settles once, to `Ready` or `Failed`.
pub struct FetchResource {
    pub result: FetchResult,
    pub requested: bool,
}

impl FetchResource {
    /// A state has settled only once its load has been requested.
    pub open spec fn wf(&self) -> bool {
        !self.requested ==> self.result is Pending
    }

    /// A resource whose load has not been requested yet.
    pub fn new() -> (r: FetchResource)
        ensures
            r.wf(),
            r.result is Pending,
            !r.requested,
    {
        FetchResource { result: FetchResult::Pending, requested: false }
    }

    /// Observes the resource: returns whether the caller must start the load now,
    /// which is so on the first observation only.
    pub fn observe(&mut self) -> (start: bool)
        requires
            old(self).wf(),
        ensures
            final(self).wf(),
            start == !old(self).requested,
            final(self).requested,
            final(self).result == old(self).result,
    {
        let start = !self.requested;
        self.requested = true;
        start
    }

    /// Hands the outcome of the load to the resource. Only the first outcome counts.
    pub fn settle(&mut self, outcome: Result<Vec<MyTorrent>, FetchError>)
        requires
            old(self).wf(),
        ensures
            final(self).wf(),
            final(self).requested,
            final(self).result == settled(old(self).result, outcome),
    {
        self.requested = true;
        if let FetchResult::Pending = self.result {
            self.result = match outcome {
                Ok(v) => FetchResult::Ready(v),
                Err(e) => FetchResult::Failed(e),
            };
        }
    }

    /// Whether the load is still pending.
    pub fn is_pending(&self) -> (r: bool)
        ensures
            r == self.result is Pending,
    {
        match self.result {
            FetchResult::Pending => true,
            _ => false,
        }
    }
}

/// A pending fetch settles once: to `Ready` with every record of a successful load, or
/// to `Failed` with the error of a failed one; a later outcome changes nothing.
pub proof fn lemma_fetch_settles_once(
    first: Result<Vec<MyTorrent>, FetchError>,
    later: Result<Vec<MyTorrent>, FetchError>,
)
    ensures
        !(settled(FetchResult::Pending, first) is Pending),
        settled(settled(FetchResult::Pending, first), later) == settled(FetchResult::Pending, first),
        first is Ok ==> settled(FetchResult::Pending, first) is Ready
            && settled(FetchResult::Pending, first)->Ready_0@.len() == first->Ok_0@.len(),
        first is Err ==> settled(FetchResult::Pending, first) == FetchResult::Failed(first->Err_0),
{
}

} // verus!
