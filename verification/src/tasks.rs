//! Work done in several steps against the daemon: starting up, refreshing,
//! asking for a summary, and putting a new configuration to use. Each step says
//! what to do next, given how the last one ended.
use vstd::prelude::*;

use crate::api::{HealthResponse, PrDetailResponse, PrGroups, PrListResponse, SetupStatusResponse};
use crate::config::Config;
use crate::events::{StartupLoad, TuiEvent};
use crate::github::PrGroup;
use crate::text::joined;

verus! {

/// Where starting up stands: what is to be asked next, and what is known.
#[derive(Debug)]
pub enum Startup {
    /// See to it that the daemon runs.
    Daemon,
    SetupStatus,
    Config { setup: SetupStatusResponse },
    Prs { setup: SetupStatusResponse, config: Config },
    Health { setup: SetupStatusResponse, config: Config, prs: PrListResponse },
    Loaded(StartupLoad),
    Failed(String),
}

/// The answer to what was asked last.
#[derive(Debug)]
pub enum StartupReply {
    Daemon(Result<(), String>),
    SetupStatus(Result<SetupStatusResponse, String>),
    Config(Result<Config, String>),
    Prs(Result<PrListResponse, String>),
    /// `None` where the daemon did not answer.
    Health(Option<HealthResponse>),
}

/// A list without pull requests.
pub open spec fn is_empty_list(prs: PrListResponse) -> bool {
    &&& forall|g: PrGroup| #[trigger] prs.groups.lane(g) is None
    &&& prs.updated_at@.len() == 0
}

impl Startup {
    /// Whether this is a failure, reported as `what` followed by `error`.
    pub open spec fn fails_with(self, what: Seq<char>, error: String) -> bool {
        self matches Startup::Failed(text) && text@ == what + error@
    }

    /// Where things stand after `reply`. The pull requests are asked for only
    /// once the setup is ready. Without a health answer the rest is shown.
    /// A reply to another question changes nothing.
    pub open spec fn follows(self, reply: StartupReply, r: Startup) -> bool {
        match (self, reply) {
            (Startup::Daemon, StartupReply::Daemon(Ok(()))) => r == Startup::SetupStatus,
            (Startup::Daemon, StartupReply::Daemon(Err(e))) => {
                r.fails_with("Failed to start daemon: "@, e)
            },
            (Startup::SetupStatus, StartupReply::SetupStatus(Ok(setup))) => {
                r == Startup::Config { setup }
            },
            (Startup::SetupStatus, StartupReply::SetupStatus(Err(e))) => {
                r.fails_with("Failed to fetch setup status: "@, e)
            },
            (Startup::Config { setup }, StartupReply::Config(Ok(config))) => if setup.ready {
                r == Startup::Prs { setup, config }
            } else {
                &&& r is Health
                &&& r->Health_setup == setup
                &&& r->Health_config == config
                &&& is_empty_list(r->Health_prs)
            },
            (Startup::Config { setup }, StartupReply::Config(Err(e))) => {
                r.fails_with("Failed to fetch config: "@, e)
            },
            (Startup::Prs { setup, config }, StartupReply::Prs(Ok(prs))) => {
                r == Startup::Health { setup, config, prs }
            },
            (Startup::Prs { setup, config }, StartupReply::Prs(Err(e))) => {
                r.fails_with("Failed to fetch PRs: "@, e)
            },
            (Startup::Health { setup, config, prs }, StartupReply::Health(health)) => {
                r == Startup::Loaded(StartupLoad { setup_status: setup, config, prs, health })
            },
            _ => r == self,
        }
    }

    pub fn next(self, reply: StartupReply) -> (r: Startup)
        ensures
            self.follows(reply, r),
    {
        match (self, reply) {
            (Startup::Daemon, StartupReply::Daemon(Ok(()))) => Startup::SetupStatus,
            (Startup::Daemon, StartupReply::Daemon(Err(e))) => {
                Startup::Failed(joined("Failed to start daemon: ", e.as_str()))
            },
            (Startup::SetupStatus, StartupReply::SetupStatus(Ok(setup))) => {
                Startup::Config { setup }
            },
            (Startup::SetupStatus, StartupReply::SetupStatus(Err(e))) => {
                Startup::Failed(joined("Failed to fetch setup status: ", e.as_str()))
            },
            (Startup::Config { setup }, StartupReply::Config(Ok(config))) => {
                if setup.ready {
                    Startup::Prs { setup, config }
                } else {
                    let prs = PrListResponse { groups: PrGroups::new(), updated_at: String::new() };
                    Startup::Health { setup, config, prs }
                }
            },
            (Startup::Config { setup: _ }, StartupReply::Config(Err(e))) => {
                Startup::Failed(joined("Failed to fetch config: ", e.as_str()))
            },
            (Startup::Prs { setup, config }, StartupReply::Prs(Ok(prs))) => {
                Startup::Health { setup, config, prs }
            },
            (Startup::Prs { setup: _, config: _ }, StartupReply::Prs(Err(e))) => {
                Startup::Failed(joined("Failed to fetch PRs: ", e.as_str()))
            },
            (Startup::Health { setup, config, prs }, StartupReply::Health(health)) => {
                Startup::Loaded(StartupLoad { setup_status: setup, config, prs, health })
            },
            (state, _) => state,
        }
    }
}

/// Whether `reply` answers what `state` asks for.
pub open spec fn answers(state: Startup, reply: StartupReply) -> bool {
    match state {
        Startup::Daemon => reply is Daemon,
        Startup::SetupStatus => reply is SetupStatus,
        Startup::Config { setup } => reply is Config,
        Startup::Prs { setup, config } => reply is Prs,
        Startup::Health { setup, config, prs } => reply is Health,
        _ => false,
    }
}

/// How many questions may still be left.
pub open spec fn questions_left(state: Startup) -> nat {
    match state {
        Startup::Daemon => 5,
        Startup::SetupStatus => 4,
        Startup::Config { setup } => 3,
        Startup::Prs { setup, config } => 2,
        Startup::Health { setup, config, prs } => 1,
        _ => 0,
    }
}

/// Starting up comes to an end: every answer leaves fewer questions.
pub proof fn startup_ends(state: Startup, reply: StartupReply, next: Startup)
    requires
        state.follows(reply, next),
        answers(state, reply),
    ensures
        questions_left(next) < questions_left(state),
{
}

/// While the setup is not ready no pull requests are asked for, and none are
/// shown.
pub proof fn unready_setup_shows_no_prs(
    setup: SetupStatusResponse,
    config: Config,
    health: Option<HealthResponse>,
    middle: Startup,
    end: Startup,
)
    requires
        !setup.ready,
        (Startup::Config { setup }).follows(StartupReply::Config(Ok(config)), middle),
        middle.follows(StartupReply::Health(health), end),
    ensures
        end matches Startup::Loaded(load) && is_empty_list(load.prs) && load.setup_status == setup
            && load.config == config && load.health == health,
{
}

/// What a refresh of the list comes back as. `trigger` is how asking the daemon
/// to poll ended, where it was asked.
pub open spec fn refresh_reply(
    trigger: Option<Result<(), String>>,
    prs: Result<PrListResponse, String>,
    health: Option<HealthResponse>,
    r: TuiEvent,
) -> bool {
    &&& r is PrsRefreshed
    &&& r->prs == prs
    &&& r->health == health
    &&& match trigger {
        Some(Err(e)) => r->trigger_error matches Some(text) && text@ == "Refresh failed: "@ + e@,
        _ => r->trigger_error is None,
    }
}

pub fn refreshed(
    trigger: Option<Result<(), String>>,
    prs: Result<PrListResponse, String>,
    health: Option<HealthResponse>,
) -> (r: TuiEvent)
    ensures
        refresh_reply(trigger, prs, health, r),
{
    let trigger_error = match trigger {
        Some(Err(e)) => Some(joined("Refresh failed: ", e.as_str())),
        _ => None,
    };
    TuiEvent::PrsRefreshed { trigger_error, prs, health }
}

/// What is sent once a summary was asked for with the outcome `asked`. `None`
/// where the pull request is to be marked seen and its detail fetched.
pub fn after_classify(id: String, asked: Result<(), String>) -> (r: Option<TuiEvent>)
    ensures
        match asked {
            Ok(()) => r is None,
            Err(e) => r == Some(TuiEvent::LlmClassified(id, Err(e))),
        },
{
    match asked {
        Ok(()) => None,
        Err(e) => Some(TuiEvent::LlmClassified(id, Err(e))),
    }
}

/// What is sent once the detail with the new summary was fetched: the detail,
/// then the end of the wait; where the fetch failed, the failure alone.
pub fn after_summary(id: &str, detail: Result<PrDetailResponse, String>) -> (r: Vec<TuiEvent>)
    ensures
        match detail {
            Ok(d) => {
                &&& r@.len() == 2
                &&& r@[0] matches TuiEvent::DetailLoaded(i, Ok(e)) && i@ == id@ && e == d
                &&& r@[1] matches TuiEvent::LlmClassified(i, Ok(())) && i@ == id@
            },
            Err(e) => {
                &&& r@.len() == 1
                &&& r@[0] matches TuiEvent::LlmClassified(i, Err(f)) && i@ == id@ && f == e
            },
        },
{
    let mut out: Vec<TuiEvent> = Vec::new();
    match detail {
        Ok(d) => {
            out.push(TuiEvent::DetailLoaded(id.to_owned(), Ok(d)));
            out.push(TuiEvent::LlmClassified(id.to_owned(), Ok(())));
        },
        Err(e) => {
            out.push(TuiEvent::LlmClassified(id.to_owned(), Err(e)));
        },
    }
    out
}

/// Where putting a new configuration to use stands.
#[derive(Debug)]
pub enum Commit {
    Validate,
    Write,
    Reload,
    /// Have the daemon poll at once, so that the new scope shows.
    Refresh,
    Done(Result<(), String>),
}

impl Commit {
    /// Validated, written, reloaded, refreshed: the first failure ends it,
    /// except that the configuration stands where only the refresh failed.
    pub open spec fn next_spec(self, result: Result<(), String>) -> Commit {
        match self {
            Commit::Validate => match result {
                Ok(()) => Commit::Write,
                Err(e) => Commit::Done(Err(e)),
            },
            Commit::Write => match result {
                Ok(()) => Commit::Reload,
                Err(e) => Commit::Done(Err(e)),
            },
            Commit::Reload => match result {
                Ok(()) => Commit::Refresh,
                Err(e) => Commit::Done(Err(e)),
            },
            Commit::Refresh => Commit::Done(Ok(())),
            Commit::Done(r) => Commit::Done(r),
        }
    }

    pub fn next(self, result: Result<(), String>) -> (r: Commit)
        ensures
            r == self.next_spec(result),
    {
        match self {
            Commit::Refresh => Commit::Done(Ok(())),
            Commit::Done(r) => Commit::Done(r),
            step => match result {
                Err(e) => Commit::Done(Err(e)),
                Ok(()) => match step {
                    Commit::Validate => Commit::Write,
                    Commit::Write => Commit::Reload,
                    _ => Commit::Refresh,
                },
            },
        }
    }
}

/// A configuration that does not pass is never written, and one that was not
/// written is never reloaded: each is reported as it failed.
pub proof fn failed_commit_stops(error: String, refreshed: Result<(), String>)
    ensures
        Commit::Validate.next_spec(Err(error)) == Commit::Done(Err(error)),
        Commit::Write.next_spec(Err(error)) == Commit::Done(Err(error)),
        Commit::Reload.next_spec(Err(error)) == Commit::Done(Err(error)),
        Commit::Validate.next_spec(Ok(())).next_spec(Ok(())).next_spec(Ok(())).next_spec(refreshed)
            == Commit::Done(Ok(())),
{
}

} // verus!
