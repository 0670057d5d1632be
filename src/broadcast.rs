//! Decisions of the search for the livestream whose title is updated: the
//! active broadcast is preferred, then an upcoming one; when neither exists
//! the user is asked whether to search again.
use vstd::prelude::*;

verus! {

/// Which broadcasts a listing asks for.
#[derive(Clone, Copy, Debug, PartialEq, Eq, Structural)]
pub enum BroadcastStatus {
    Active,
    Upcoming,
}

/// What the search does next.
#[derive(Debug)]
pub enum SearchStep {
    /// List the broadcasts of this status.
    List(BroadcastStatus),
    /// Ask the user whether to search again.
    AskRetry,
    /// Use the broadcast with this id.
    Use(String),
    /// Stop without updating any title.
    GiveUp,
}

/// The first step of a search.
pub fn first_step() -> (r: SearchStep)
    ensures
        r matches SearchStep::List(BroadcastStatus::Active),
{
    SearchStep::List(BroadcastStatus::Active)
}

/// The step after listing the broadcasts of `status`, whose first entry has
/// id `first_id` (`None` when the listing is empty).
pub fn after_listing(status: BroadcastStatus, first_id: Option<String>) -> (r: SearchStep)
    ensures
        first_id matches Some(id) ==> (r matches SearchStep::Use(u) && u@ == id@),
        first_id is None && status == BroadcastStatus::Active ==> r matches SearchStep::List(
            BroadcastStatus::Upcoming,
        ),
        first_id is None && status == BroadcastStatus::Upcoming ==> r matches SearchStep::AskRetry,
{
    match first_id {
        Some(id) => SearchStep::Use(id),
        None => match status {
            BroadcastStatus::Active => SearchStep::List(BroadcastStatus::Upcoming),
            BroadcastStatus::Upcoming => SearchStep::AskRetry,
        },
    }
}

/// The step after the user answered whether to search again.
pub fn after_retry_answer(retry: bool) -> (r: SearchStep)
    ensures
        retry ==> r matches SearchStep::List(BroadcastStatus::Active),
        !retry ==> r matches SearchStep::GiveUp,
{
    if retry {
        SearchStep::List(BroadcastStatus::Active)
    } else {
        SearchStep::GiveUp
    }
}

} // verus!
