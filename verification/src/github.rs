//! GitHub's notions: pull-request groups, checks, reviews and timelines.
use vstd::prelude::*;

verus! {

/// The lane of the inbox that a pull request belongs to.
#[derive(Debug, Clone, Copy, PartialEq, Eq, Hash, Structural)]
pub enum PrGroup {
    AuthoredActionNeeded,
    AuthoredReadyToMerge,
    AuthoredWaiting,
    ReviewNeeded,
    ReviewUpdate,
    ReviewDone,
    Draft,
    Other,
}

/// The groups from the most to the least urgent.
pub open spec fn priority_order() -> Seq<PrGroup> {
    seq![
        PrGroup::AuthoredActionNeeded,
        PrGroup::AuthoredReadyToMerge,
        PrGroup::AuthoredWaiting,
        PrGroup::ReviewNeeded,
        PrGroup::ReviewUpdate,
        PrGroup::ReviewDone,
        PrGroup::Draft,
        PrGroup::Other,
    ]
}

impl PrGroup {
    /// The groups from the most to the least urgent.
    pub fn all_in_priority_order() -> (r: Vec<PrGroup>)
        ensures
            r@ == priority_order(),
    {
        let mut r: Vec<PrGroup> = Vec::new();
        r.push(PrGroup::AuthoredActionNeeded);
        r.push(PrGroup::AuthoredReadyToMerge);
        r.push(PrGroup::AuthoredWaiting);
        r.push(PrGroup::ReviewNeeded);
        r.push(PrGroup::ReviewUpdate);
        r.push(PrGroup::ReviewDone);
        r.push(PrGroup::Draft);
        r.push(PrGroup::Other);
        proof {
            assert(r@ =~= priority_order());
        }
        r
    }
}

/// Priority given to a pull request by the language model.
#[derive(Debug, Clone, Copy, PartialEq, Eq, Hash, Structural)]
pub enum Priority {
    High,
    Medium,
    Low,
}

/// The combined state of the checks; `Absent` where there are none.
#[derive(Debug, Clone, Copy, PartialEq, Eq, Hash, Structural)]
pub enum CheckStatus {
    Success,
    Failure,
    Pending,
    Neutral,
    Absent,
}

#[derive(Debug, Clone, Copy, PartialEq, Eq, Hash, Structural)]
pub enum MergeableState {
    Mergeable,
    Conflicting,
    Unknown,
}

#[derive(Debug, Clone, Copy, PartialEq, Eq, Hash, Structural)]
pub enum ReviewDecision {
    Approved,
    ChangesRequested,
    ReviewRequired,
}

#[derive(Debug, Clone, Copy, PartialEq, Eq, Hash, Structural)]
pub enum TimelineEventType {
    Comment,
    Review,
    Commit,
    ForcePush,
    ReadyForReview,
    ReviewRequested,
    Merged,
    Closed,
    Reopened,
    Other,
}

/// One entry of a pull request's timeline.
#[derive(Debug, Clone)]
pub struct TimelineEvent {
    pub event_type: TimelineEventType,
    pub actor: String,
    pub created_at: String,
    pub detail: String,
    pub url: String,
}

/// One comment of a review thread; `line` is `None` once it is outdated.
#[derive(Debug, Clone)]
pub struct ReviewComment {
    pub author: String,
    pub body: String,
    pub path: String,
    pub line: Option<u64>,
    pub created_at: String,
    pub url: String,
}

/// A comment over the characters of its texts.
#[verifier::ext_equal]
pub struct CommentView {
    pub author: Seq<char>,
    pub body: Seq<char>,
    pub path: Seq<char>,
    pub line: Option<u64>,
    pub created_at: Seq<char>,
    pub url: Seq<char>,
}

impl View for ReviewComment {
    type V = CommentView;

    open spec fn view(&self) -> CommentView {
        CommentView {
            author: self.author@,
            body: self.body@,
            path: self.path@,
            line: self.line,
            created_at: self.created_at@,
            url: self.url@,
        }
    }
}

pub open spec fn comments_view(comments: Seq<ReviewComment>) -> Seq<CommentView> {
    comments.map_values(|c: ReviewComment| c@)
}

#[derive(Debug, Clone)]
pub struct ReviewThread {
    pub is_resolved: bool,
    pub is_outdated: bool,
    pub comments: Vec<ReviewComment>,
}

/// One check run on the head commit.
#[derive(Debug, Clone)]
pub struct CheckEntry {
    pub name: String,
    pub status: String,
    pub conclusion: Option<String>,
    pub url: String,
}

} // verus!
