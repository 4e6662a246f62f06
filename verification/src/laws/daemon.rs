//! The daemon: when it is used, restarted or given up, and what it is asked.
use vstd::prelude::*;

use crate::api::{HealthResponse, PrListResponse, SetupStatusResponse};
use crate::client::Endpoint;
use crate::clipboard::{platform_programs, CopyOutcome, CopyView, Platform};
use crate::config::Config;
use crate::daemon::{
    daemon_arguments, daemon_plan, exit_step, start_step, ChildState, DaemonPlan, StartView,
    WaitStep,
};
use crate::events::{StartupLoad, TuiEvent};
use crate::tasks::{refresh_reply, Commit, Startup, StartupReply};

verus! {

/// A daemon is used where one of ours answers, unless it is known to be of
/// another build; what answers under another name is not ours.
pub proof fn running_daemon_is_used(h: HealthResponse, ours: Option<u64>)
    ensures
        daemon_plan(None, ours) == DaemonPlan::Spawn,
        h.service@ != "brunson"@ ==> daemon_plan(Some(h), ours) == DaemonPlan::Spawn,
        h.service@ == "brunson"@ && (h.binary_mtime is None || ours is None || h.binary_mtime
            == ours) ==> daemon_plan(Some(h), ours) == DaemonPlan::UseRunning,
        h.service@ == "brunson"@ && h.binary_mtime is Some && ours is Some && h.binary_mtime != ours
            ==> daemon_plan(Some(h), ours) == DaemonPlan::Restart,
{
}

/// A daemon that is to stop is looked at again while it answers, and one that
/// was started while it does not; both for ten seconds and no longer. One that
/// ended or cannot be watched has failed.
pub proof fn waiting_ends(
    ms: u64,
    child: ChildState,
    h: HealthResponse,
    log: Seq<char>,
)
    ensures
        ms < 10000 ==> exit_step(ms, true) == WaitStep::Again(200),
        ms < 10000 ==> exit_step(ms, false) == WaitStep::Done,
        ms >= 10000 ==> exit_step(ms, true) == WaitStep::GiveUp && exit_step(ms, false)
            == WaitStep::GiveUp,
        ms >= 10000 ==> start_step(ms, child, Some(h), log) == StartView::TimedOut(
            "Daemon did not become ready within 10s. Check log: "@ + log,
        ),
        ms < 10000 && child is Running && h.service@ == "brunson"@ ==> start_step(
            ms,
            child,
            Some(h),
            log,
        ) is Ready,
        ms < 10000 && child is Running && h.service@ != "brunson"@ ==> start_step(
            ms,
            child,
            Some(h),
            log,
        ) == StartView::Again(500),
        ms < 10000 && child is Running ==> start_step(ms, child, None, log) == StartView::Again(500),
        ms < 10000 ==> (child matches ChildState::Exited(status) ==> start_step(
            ms,
            child,
            Some(h),
            log,
        ) == StartView::Failed(
            "Daemon exited early with status "@ + status@ + ". Check log: "@ + log,
        )),
        ms < 10000 ==> (child matches ChildState::Unknown(e) ==> start_step(
            ms,
            child,
            Some(h),
            log,
        ) == StartView::Failed("Failed to check daemon status: "@ + e@)),
{
}

/// The daemon reads the configuration that the interface was given.
pub proof fn daemon_gets_the_configuration(path: Seq<char>)
    ensures
        daemon_arguments(Some(path)) == seq!["daemon"@, "--config"@, path],
        daemon_arguments(None) == seq!["daemon"@],
{
}

/// A request about a pull request names it in its path, and different requests
/// about it go to different paths.
pub proof fn requests_name_their_pull_request(id: String)
    ensures
        Endpoint::PrDetail(id).path_text() == "/prs/"@ + id@,
        Endpoint::PrDiff(id).path_text() == "/prs/"@ + id@ + "/diff"@,
        Endpoint::Classify(id).path_text() == "/prs/"@ + id@ + "/classify"@,
        Endpoint::MarkSeen(id).path_text() == "/prs/"@ + id@ + "/seen"@,
{
    reveal_strlit("");
    assert("/prs/"@ + id@ + ""@ =~= "/prs/"@ + id@);
}

/// The other requests go to their own paths.
pub proof fn requests_have_their_paths()
    ensures
        Endpoint::Health.path_text() == "/health"@,
        Endpoint::Shutdown.path_text() == "/shutdown"@,
        Endpoint::Prs.path_text() == "/prs"@,
        Endpoint::Refresh.path_text() == "/prs/refresh"@,
        Endpoint::SetupStatus.path_text() == "/setup/status"@,
        Endpoint::Config.path_text() == "/config"@,
        Endpoint::ConfigPreview.path_text() == "/config/preview"@,
        Endpoint::OrgMemberships.path_text() == "/setup/memberships"@,
        Endpoint::ValidateConfig.path_text() == "/config/validate"@,
        Endpoint::PreviewConfigCounts.path_text() == "/config/preview_counts"@,
        Endpoint::ReloadConfig.path_text() == "/config/reload"@,
{
}

/// What only reads is asked for with GET, what does something with POST; only
/// classifying may take longer.
pub proof fn requests_that_act_are_posted(e: Endpoint)
    ensures
        e is Health || e is Prs || e is PrDetail || e is PrDiff || e is SetupStatus || e is Config
            || e is ConfigPreview || e is OrgMemberships <==> !e.posts(),
        e is Classify ==> e.time_allowed() == 300000,
        !(e is Classify) ==> e.time_allowed() == 30000,
{
}

/// A refused request is reported with its method, path, status and the reply;
/// a refused reload in the daemon's own words.
pub proof fn refusal_tells_the_request(e: Endpoint, status: Seq<char>, body: Seq<char>)
    ensures
        e is ReloadConfig ==> e.refusal_text(status, body) == body,
        !(e is ReloadConfig) && e.posts() ==> e.refusal_text(status, body) == "POST "@
            + e.path_text() + " failed ("@ + status + "): "@ + body,
        !(e is ReloadConfig) && !e.posts() ==> e.refusal_text(status, body) == "GET "@
            + e.path_text() + " failed ("@ + status + "): "@ + body,
{
}

/// Starting up with everything answered ends with what was answered: daemon,
/// setup, configuration, list and health, in this order.
pub proof fn startup_gathers_the_answers(
    setup: SetupStatusResponse,
    config: Config,
    prs: PrListResponse,
    health: Option<HealthResponse>,
    a: Startup,
    b: Startup,
    c: Startup,
    d: Startup,
    e: Startup,
)
    requires
        setup.ready,
        Startup::Daemon.follows(StartupReply::Daemon(Ok(())), a),
        a.follows(StartupReply::SetupStatus(Ok(setup)), b),
        b.follows(StartupReply::Config(Ok(config)), c),
        c.follows(StartupReply::Prs(Ok(prs)), d),
        d.follows(StartupReply::Health(health), e),
    ensures
        e == Startup::Loaded(StartupLoad { setup_status: setup, config, prs, health }),
{
}

/// Whatever fails first ends starting up, and is told with what failed.
pub proof fn startup_tells_what_failed(
    setup: SetupStatusResponse,
    config: Config,
    e: String,
    r: Startup,
)
    ensures
        Startup::Daemon.follows(StartupReply::Daemon(Err(e)), r) ==> r is Failed && r->Failed_0@
            == "Failed to start daemon: "@ + e@,
        Startup::SetupStatus.follows(StartupReply::SetupStatus(Err(e)), r) ==> r is Failed
            && r->Failed_0@ == "Failed to fetch setup status: "@ + e@,
        (Startup::Config { setup }).follows(StartupReply::Config(Err(e)), r) ==> r is Failed
            && r->Failed_0@ == "Failed to fetch config: "@ + e@,
        (Startup::Prs { setup, config }).follows(StartupReply::Prs(Err(e)), r) ==> r is Failed
            && r->Failed_0@ == "Failed to fetch PRs: "@ + e@,
{
}

/// A refresh brings the list and the health as they were fetched; a poll that
/// failed is told, one that was not asked for or went well is not.
pub proof fn refresh_brings_what_was_fetched(
    e: String,
    prs: Result<PrListResponse, String>,
    health: Option<HealthResponse>,
    r: TuiEvent,
)
    ensures
        refresh_reply(Some(Err(e)), prs, health, r) ==> r is PrsRefreshed && r->prs == prs
            && r->health == health && r->trigger_error is Some && r->trigger_error->0@
            == "Refresh failed: "@ + e@,
        refresh_reply(Some(Ok(())), prs, health, r) ==> r is PrsRefreshed && r->prs == prs
            && r->health == health && r->trigger_error is None,
        refresh_reply(None, prs, health, r) ==> r is PrsRefreshed && r->prs == prs && r->health
            == health && r->trigger_error is None,
{
}

/// A configuration is put to use in the order validate, write, reload and
/// refresh.
pub proof fn configuration_is_validated_before_it_is_written()
    ensures
        Commit::Validate.next_spec(Ok(())) == Commit::Write,
        Commit::Write.next_spec(Ok(())) == Commit::Reload,
        Commit::Reload.next_spec(Ok(())) == Commit::Refresh,
        Commit::Refresh.next_spec(Ok(())) == Commit::Done(Ok(())),
{
}

/// What the last program that failed is reported as stays, until another one
/// fails; each failure names the program and the reason.
pub proof fn last_failure_is_reported(
    steps: Seq<(Seq<char>, CopyOutcome)>,
    program: Seq<char>,
    e: String,
)
    requires
        forall|i: int| 0 <= i < steps.len() ==> !((#[trigger] steps[i]).1 is Copied),
    ensures
        CopyView::after(steps.push((program, CopyOutcome::NotStarted(e)))).verdict() == Err::<
            (),
            Seq<char>,
        >("could not start "@ + program + ": "@ + e@),
        CopyView::after(steps.push((program, CopyOutcome::NoInput))).verdict() == Err::<
            (),
            Seq<char>,
        >("could not open "@ + program + " input"@),
        CopyView::after(steps.push((program, CopyOutcome::NotWritten(e)))).verdict() == Err::<
            (),
            Seq<char>,
        >("could not write to "@ + program + ": "@ + e@),
        CopyView::after(steps.push((program, CopyOutcome::Exited(e)))).verdict() == Err::<
            (),
            Seq<char>,
        >(program + " exited with "@ + e@),
        CopyView::after(steps.push((program, CopyOutcome::NotAwaited(e)))).verdict() == Err::<
            (),
            Seq<char>,
        >("could not wait for "@ + program + ": "@ + e@),
        CopyView::after(steps.push((program, CopyOutcome::Missing))).verdict() == CopyView::after(
            steps,
        ).verdict(),
{
    crate::clipboard::copy_succeeds_where_one_program_does(steps);
    assert(!CopyView::after(steps).copied);
    let a = steps.push((program, CopyOutcome::NotStarted(e)));
    let b = steps.push((program, CopyOutcome::NoInput));
    let c = steps.push((program, CopyOutcome::NotWritten(e)));
    let d = steps.push((program, CopyOutcome::Exited(e)));
    let f = steps.push((program, CopyOutcome::NotAwaited(e)));
    let g = steps.push((program, CopyOutcome::Missing));
    assert(a.drop_last() =~= steps && b.drop_last() =~= steps && c.drop_last() =~= steps
        && d.drop_last() =~= steps && f.drop_last() =~= steps && g.drop_last() =~= steps);
}

/// Each system has its clipboard programs, tried in this order.
pub proof fn systems_have_their_programs()
    ensures
        platform_programs(Platform::Mac) == seq![("pbcopy"@, Seq::<Seq<char>>::empty())],
        platform_programs(Platform::Windows) == seq![("clip"@, Seq::<Seq<char>>::empty())],
        platform_programs(Platform::OtherUnix) == seq![
            ("wl-copy"@, Seq::<Seq<char>>::empty()),
            ("xclip"@, seq!["-selection"@, "clipboard"@]),
            ("xsel"@, seq!["--clipboard"@, "--input"@]),
        ],
{
}

} // verus!
