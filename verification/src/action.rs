use crate::models::{Review, ReviewListItem};
use vstd::prelude::*;

verus! {

/// What happened to, or is asked of, the review screens.  Two values compare
/// equal when they are the same kind of action: the reviews carried by
/// `AddReviews` and `NextReview` do not take part in the comparison.
#[derive(Debug, Clone)]
pub enum GitHubPrAction {
    Normal,
    EnterProcessing,
    AddReviews { items: Vec<ReviewListItem> },
    ExitProcessing,
    NextReview { pr: Review },
    DoneReview,
}

impl PartialEq for GitHubPrAction {
    fn eq(&self, other: &Self) -> (r: bool) {
        match (self, other) {
            (GitHubPrAction::Normal, GitHubPrAction::Normal) => true,
            (GitHubPrAction::EnterProcessing, GitHubPrAction::EnterProcessing) => true,
            (GitHubPrAction::AddReviews { .. }, GitHubPrAction::AddReviews { .. }) => true,
            (GitHubPrAction::ExitProcessing, GitHubPrAction::ExitProcessing) => true,
            (GitHubPrAction::NextReview { .. }, GitHubPrAction::NextReview { .. }) => true,
            (GitHubPrAction::DoneReview, GitHubPrAction::DoneReview) => true,
            _ => false,
        }
    }
}

impl vstd::std_specs::cmp::PartialEqSpecImpl for GitHubPrAction {
    open spec fn obeys_eq_spec() -> bool {
        true
    }

    open spec fn eq_spec(&self, other: &Self) -> bool {
        match (self, other) {
            (GitHubPrAction::Normal, GitHubPrAction::Normal) => true,
            (GitHubPrAction::EnterProcessing, GitHubPrAction::EnterProcessing) => true,
            (GitHubPrAction::AddReviews { .. }, GitHubPrAction::AddReviews { .. }) => true,
            (GitHubPrAction::ExitProcessing, GitHubPrAction::ExitProcessing) => true,
            (GitHubPrAction::NextReview { .. }, GitHubPrAction::NextReview { .. }) => true,
            (GitHubPrAction::DoneReview, GitHubPrAction::DoneReview) => true,
            _ => false,
        }
    }
}

impl Eq for GitHubPrAction {

}

/// A message routed through the application's event loop: timer ticks, render
/// requests, terminal events, navigation, and the review-list actions.
#[derive(Debug, Clone, PartialEq, Eq)]
pub enum Action {
    Tick,
    Render,
    Resize(u16, u16),
    Suspend,
    Resume,
    Quit,
    Refresh,
    Error(String),
    Help,
    GotoPage(String),
    GitHubPrs(GitHubPrAction),
    BeginReview,
    SkipReview,
}

/// Whether the review-list screen should schedule another fetch: it keeps
/// asking until thirty reviews are on hand.
pub fn wants_more_reviews(have: usize) -> (r: bool)
    ensures
        r == (have < 30),
{
    have < 30
}

/// Whether one drain batch is full: a screen folds at most four items in per
/// wake-up before yielding back to the event loop.
pub fn drain_batch_full(drained: usize) -> (r: bool)
    ensures
        r == (drained > 3),
{
    drained > 3
}

} // verus!
