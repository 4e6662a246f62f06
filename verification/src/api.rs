//! What the daemon answers: pull-request lists and details, diffs, health and
//! setup status.
use vstd::prelude::*;

use crate::github::{
    priority_order, CheckEntry, CheckStatus, MergeableState, PrGroup, Priority, ReviewDecision,
    ReviewThread, TimelineEvent,
};
use crate::text::{contained, contains_text, decimal, decimal_string, lowercased, to_lower};

verus! {

/// A point in time: seconds and nanoseconds since the Unix epoch.
#[derive(Debug, Clone, Copy, PartialEq, Eq, Structural)]
pub struct Moment {
    pub seconds: i64,
    pub nanos: u32,
}

/// One row of the pull-request list.
#[derive(Debug, Clone)]
pub struct PrSummary {
    pub id: String,
    pub node_id: String,
    pub owner: String,
    pub repo: String,
    pub number: u64,
    pub title: String,
    pub author: String,
    pub author_is_bot: bool,
    pub group: PrGroup,
    pub next_action: String,
    pub check_status: CheckStatus,
    pub llm_priority: Option<Priority>,
    pub updated_at: String,
    pub url: String,
    pub comments: u64,
    pub head_ref: String,
    pub llm_one_line: Option<String>,
}

/// Whether `needle`, already in lower case, stands in `field` in any case.
pub open spec fn field_matches(field: Seq<char>, needle: Seq<char>) -> bool {
    contained(lowercased(field), needle)
}

fn has_match(field: &str, needle: &str) -> (r: bool)
    ensures
        r == field_matches(field@, needle@),
{
    contains_text(to_lower(field).as_str(), needle)
}

impl PrSummary {
    /// Whether the filter stands, in any case, in one of the searched fields.
    /// The empty filter lets every pull request through.
    pub open spec fn passes(self, filter: Seq<char>) -> bool {
        let needle = lowercased(filter);
        ||| filter.len() == 0
        ||| field_matches(self.title@, needle)
        ||| field_matches(self.author@, needle)
        ||| field_matches(self.owner@, needle)
        ||| field_matches(self.repo@, needle)
        ||| field_matches(self.id@, needle)
        ||| field_matches(self.next_action@, needle)
        ||| field_matches(decimal(self.number as nat), needle)
    }

    /// Whether the pull request passes the inbox filter.
    pub fn matches_filter(&self, filter: &str) -> (r: bool)
        ensures
            r == self.passes(filter@),
    {
        if filter.is_empty() {
            return true;
        }
        let needle = to_lower(filter);
        has_match(self.title.as_str(), needle.as_str())
            || has_match(self.author.as_str(), needle.as_str())
            || has_match(self.owner.as_str(), needle.as_str())
            || has_match(self.repo.as_str(), needle.as_str())
            || has_match(self.id.as_str(), needle.as_str())
            || has_match(self.next_action.as_str(), needle.as_str())
            || has_match(decimal_string(self.number).as_str(), needle.as_str())
    }
}

/// The pull requests of one group.
#[derive(Debug, Clone)]
pub struct Lane {
    pub group: PrGroup,
    pub prs: Vec<PrSummary>,
}

/// The pull requests of the last lane for `group` among `lanes`.
pub open spec fn lane_lookup(lanes: Seq<Lane>, group: PrGroup) -> Option<Seq<PrSummary>>
    decreases lanes.len(),
{
    if lanes.len() == 0 {
        None
    } else if lanes.last().group == group {
        Some(lanes.last().prs@)
    } else {
        lane_lookup(lanes.drop_last(), group)
    }
}

/// The pull requests by group.
#[derive(Debug, Clone)]
pub struct PrGroups {
    pub lanes: Vec<Lane>,
}

impl PrGroups {
    /// The pull requests of `group`, `None` where the group is absent.
    pub open spec fn lane(self, group: PrGroup) -> Option<Seq<PrSummary>> {
        lane_lookup(self.lanes@, group)
    }

    /// The pull requests of `group`; none where the group is absent.
    pub open spec fn members(self, group: PrGroup) -> Seq<PrSummary> {
        match self.lane(group) {
            Some(prs) => prs,
            None => Seq::empty(),
        }
    }

    /// No group is present.
    pub fn new() -> (r: PrGroups)
        ensures
            forall|g: PrGroup| #[trigger] r.lane(g) is None,
    {
        PrGroups { lanes: Vec::new() }
    }

    /// How many of the groups in `order` are present.
    pub open spec fn present(self, order: Seq<PrGroup>) -> nat {
        order.filter(|g: PrGroup| self.lane(g) is Some).len()
    }

    /// How many groups are present.
    pub fn len(&self) -> (r: usize)
        ensures
            r == self.present(priority_order()),
    {
        let order = PrGroup::all_in_priority_order();
        let ghost here = |g: PrGroup| self.lane(g) is Some;
        let mut n: usize = 0;
        let mut i: usize = 0;
        proof {
            reveal(Seq::filter);
            assert(order@.take(0).filter(here) =~= Seq::empty());
        }
        while i < order.len()
            invariant
                here == (|g: PrGroup| self.lane(g) is Some),
                i <= order@.len(),
                n == order@.take(i as int).filter(here).len(),
                n <= i,
            decreases order@.len() - i,
        {
            proof {
                reveal(Seq::filter);
                assert(order@.take(i + 1).drop_last() =~= order@.take(i as int));
            }
            if self.get(order[i]).is_some() {
                n += 1;
            }
            i += 1;
        }
        proof {
            assert(order@.take(i as int) =~= order@);
        }
        n
    }

    /// Empties the table: no group is present.
    pub fn clear(&mut self)
        ensures
            forall|g: PrGroup| #[trigger] final(self).lane(g) is None,
    {
        self.lanes.clear();
    }

    /// Puts `prs` in the place of what `group` held before.
    pub fn insert(&mut self, group: PrGroup, prs: Vec<PrSummary>)
        ensures
            final(self).lane(group) == Some(prs@),
            forall|g: PrGroup|
                g != group ==> #[trigger] final(self).lane(g) == old(self).lane(g),
    {
        self.lanes.push(Lane { group, prs });
        proof {
            assert(self.lanes@.drop_last() =~= old(self).lanes@);
        }
    }

    /// The pull requests of `group`.
    pub fn get(&self, group: PrGroup) -> (r: Option<&Vec<PrSummary>>)
        ensures
            r is Some <==> self.lane(group) is Some,
            r matches Some(prs) ==> self.lane(group) == Some(prs@),
    {
        let mut i: usize = self.lanes.len();
        proof {
            assert(self.lanes@.take(i as int) =~= self.lanes@);
        }
        while i > 0
            invariant
                i <= self.lanes@.len(),
                lane_lookup(self.lanes@.take(i as int), group) == self.lane(group),
            decreases i,
        {
            i -= 1;
            proof {
                assert(self.lanes@.take(i + 1).drop_last() =~= self.lanes@.take(i as int));
            }
            if self.lanes[i].group == group {
                return Some(&self.lanes[i].prs);
            }
        }
        None
    }
}

#[derive(Debug, Clone)]
pub struct PrListResponse {
    pub groups: PrGroups,
    pub updated_at: String,
}

/// One changed file; `status` is the letter GitHub gives it.
#[derive(Debug, Clone)]
pub struct FileDto {
    pub path: String,
    pub additions: u64,
    pub deletions: u64,
    pub status: char,
}

/// The language model's catch-up on a pull request.
#[derive(Debug, Clone)]
pub struct RichSummary {
    pub one_line: String,
    pub catch_up: String,
    pub next_steps: String,
    pub generated_at: Moment,
}

#[derive(Debug, Clone)]
pub struct PrDetailResponse {
    pub id: String,
    pub node_id: String,
    pub owner: String,
    pub repo: String,
    pub number: u64,
    pub title: String,
    pub body: String,
    pub url: String,
    pub author: String,
    pub is_draft: bool,
    pub updated_at: String,
    pub head_ref: String,
    pub base_ref: String,
    pub mergeable: MergeableState,
    pub review_decision: Option<ReviewDecision>,
    pub review_requests: Vec<String>,
    pub team_review_requests: Vec<String>,
    pub viewer_latest_review: Option<String>,
    pub latest_reviews: Vec<String>,
    pub check_status: CheckStatus,
    pub checks: Vec<CheckEntry>,
    pub review_threads: Vec<ReviewThread>,
    pub files: Vec<FileDto>,
    pub timeline: Vec<TimelineEvent>,
    pub llm_priority: Option<Priority>,
    pub llm_summary: Option<String>,
    pub llm_rich_summary: Option<RichSummary>,
    pub last_seen_at: Option<Moment>,
}

#[derive(Debug, Clone)]
pub struct DiffResponse {
    pub diff: String,
    pub cached: bool,
}

#[derive(Debug, Clone)]
pub struct HealthResponse {
    pub service: String,
    pub version: String,
    pub status: String,
    pub current_user: String,
    pub last_poll_at: Option<String>,
    pub last_poll_error: Option<String>,
    pub rate_limit_remaining: Option<u64>,
    pub refresh_in_progress: bool,
    pub setup_status: String,
    pub setup_message: Option<String>,
    pub binary_mtime: Option<u64>,
}

#[derive(Debug, Clone)]
pub struct AuthStatus {
    pub resolved: bool,
    pub source: Option<String>,
    pub user: Option<String>,
}

#[derive(Debug, Clone)]
pub struct LlmSetupStatus {
    pub enabled: bool,
    pub reachable: Option<bool>,
    pub model: Option<String>,
    pub message: Option<String>,
}

#[derive(Debug, Clone)]
pub struct SetupStatusResponse {
    pub ready: bool,
    pub status: String,
    pub auth: AuthStatus,
    pub llm: LlmSetupStatus,
    pub next_steps: Vec<String>,
}

impl Default for AuthStatus {
    /// No credentials were found.
    fn default() -> (r: AuthStatus)
        ensures
            !r.resolved,
            r.source is None,
            r.user is None,
    {
        AuthStatus { resolved: false, source: None, user: None }
    }
}

impl Default for LlmSetupStatus {
    /// The language model is off and was not asked.
    fn default() -> (r: LlmSetupStatus)
        ensures
            !r.enabled,
            r.reachable is None,
            r.model is None,
            r.message is None,
    {
        LlmSetupStatus { enabled: false, reachable: None, model: None, message: None }
    }
}

impl Default for SetupStatusResponse {
    /// Nothing is set up, and no step is known.
    fn default() -> (r: SetupStatusResponse)
        ensures
            !r.ready,
            r.status@.len() == 0,
            !r.auth.resolved,
            r.auth.source is None,
            r.auth.user is None,
            !r.llm.enabled,
            r.llm.reachable is None,
            r.llm.model is None,
            r.llm.message is None,
            r.next_steps@.len() == 0,
    {
        SetupStatusResponse {
            ready: false,
            status: String::new(),
            auth: AuthStatus::default(),
            llm: LlmSetupStatus::default(),
            next_steps: Vec::new(),
        }
    }
}

#[derive(Debug, Clone)]
pub struct TeamMembership {
    pub slug: String,
    pub name: String,
}

#[derive(Debug, Clone)]
pub struct OrgMembership {
    pub login: String,
    pub teams: Vec<TeamMembership>,
}

#[derive(Debug, Clone)]
pub struct MembershipsResponse {
    pub orgs: Vec<OrgMembership>,
    pub truncated: bool,
}

#[derive(Debug, Clone)]
pub struct ConfigPreviewCountsResponse {
    pub total_matched_prs: usize,
    pub queries: Vec<String>,
    pub errors: Vec<String>,
}

} // verus!
