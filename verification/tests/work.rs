//! Requests, step-by-step work, the daemon's process and the clipboard.
use brunson::api::{
    HealthResponse, PrDetailResponse, PrGroups, PrListResponse, SetupStatusResponse,
};
use brunson::client::{ConfigReloadError, DaemonClient, Endpoint};
use brunson::clipboard::{clipboard_programs, CopyAttempt, CopyOutcome, Platform};
use brunson::config::Config;
use brunson::daemon::{
    daemon_args, daemon_url, exit_wait, plan_daemon, spawn_failure, start_wait, ChildState,
    DaemonPlan, StartStep, WaitStep, SERVICE_NAME,
};
use brunson::events::TuiEvent;
use brunson::github::{CheckStatus, MergeableState};
use brunson::tasks::{after_classify, after_summary, refreshed, Commit, Startup, StartupReply};

fn health(service: &str, binary_mtime: Option<u64>) -> HealthResponse {
    HealthResponse {
        service: service.to_string(),
        version: "0.1.0".to_string(),
        status: "ok".to_string(),
        current_user: "me".to_string(),
        last_poll_at: None,
        last_poll_error: None,
        rate_limit_remaining: None,
        refresh_in_progress: false,
        setup_status: "ready".to_string(),
        setup_message: None,
        binary_mtime,
    }
}

fn empty_list() -> PrListResponse {
    PrListResponse { groups: PrGroups::new(), updated_at: "t".to_string() }
}

fn detail(id: &str) -> PrDetailResponse {
    PrDetailResponse {
        id: id.to_string(),
        node_id: String::new(),
        owner: "org".to_string(),
        repo: "repo".to_string(),
        number: 1,
        title: "T".to_string(),
        body: String::new(),
        url: String::new(),
        author: "a".to_string(),
        is_draft: false,
        updated_at: String::new(),
        head_ref: String::new(),
        base_ref: String::new(),
        mergeable: MergeableState::Unknown,
        review_decision: None,
        review_requests: vec![],
        team_review_requests: vec![],
        viewer_latest_review: None,
        latest_reviews: vec![],
        check_status: CheckStatus::Absent,
        checks: vec![],
        review_threads: vec![],
        files: vec![],
        timeline: vec![],
        llm_priority: None,
        llm_summary: None,
        llm_rich_summary: None,
        last_seen_at: None,
    }
}

#[test]
fn endpoints_name_their_addresses() {
    let client = DaemonClient::new(17890);
    assert_eq!(client.base_url(), "http://127.0.0.1:17890");
    assert_eq!(client.url(&Endpoint::Health), "http://127.0.0.1:17890/health");
    let id = "myorg~myrepo~123".to_string();
    assert_eq!(Endpoint::PrDetail(id.clone()).path(), "/prs/myorg~myrepo~123");
    assert_eq!(Endpoint::PrDiff(id.clone()).path(), "/prs/myorg~myrepo~123/diff");
    assert_eq!(Endpoint::Classify(id.clone()).path(), "/prs/myorg~myrepo~123/classify");
    assert_eq!(Endpoint::MarkSeen(id).path(), "/prs/myorg~myrepo~123/seen");
    assert_eq!(Endpoint::Refresh.path(), "/prs/refresh");
    assert_eq!(Endpoint::PreviewConfigCounts.path(), "/config/preview_counts");
    assert_eq!(daemon_url(0), "http://127.0.0.1:0");
}

#[test]
fn classifying_may_take_longer() {
    assert!(Endpoint::Refresh.is_post());
    assert!(!Endpoint::Prs.is_post());
    assert_eq!(Endpoint::Prs.timeout_ms(), 30_000);
    assert_eq!(Endpoint::Classify("x".to_string()).timeout_ms(), 300_000);
}

#[test]
fn refused_requests_are_reported_with_status_and_body() {
    assert_eq!(
        Endpoint::Prs.refusal("500 Internal Server Error", "boom"),
        "GET /prs failed (500 Internal Server Error): boom"
    );
    assert_eq!(
        Endpoint::Shutdown.refusal("404 Not Found", ""),
        "POST /shutdown failed (404 Not Found): "
    );
    assert_eq!(Endpoint::ReloadConfig.refusal("400 Bad Request", "bad watch"), "bad watch");
    assert_eq!(ConfigReloadError { body: "why".to_string() }.message(), "why");
}

#[test]
fn daemon_is_restarted_only_for_a_known_other_build() {
    assert_eq!(plan_daemon(None, Some(1)), DaemonPlan::Spawn);
    assert_eq!(plan_daemon(Some(&health("other", Some(1))), Some(1)), DaemonPlan::Spawn);
    assert_eq!(plan_daemon(Some(&health(SERVICE_NAME, Some(1))), Some(1)), DaemonPlan::UseRunning);
    assert_eq!(plan_daemon(Some(&health(SERVICE_NAME, None)), Some(1)), DaemonPlan::UseRunning);
    assert_eq!(plan_daemon(Some(&health(SERVICE_NAME, Some(2))), Some(1)), DaemonPlan::Restart);
}

#[test]
fn waiting_for_the_daemon_to_stop_is_bounded() {
    assert_eq!(exit_wait(0, true), WaitStep::Again(200));
    assert_eq!(exit_wait(9_999, false), WaitStep::Done);
    assert_eq!(exit_wait(10_000, false), WaitStep::GiveUp);
}

#[test]
fn waiting_for_the_daemon_to_start_tells_each_end() {
    let ours = health(SERVICE_NAME, None);
    let log = "/tmp/daemon.log";
    assert!(matches!(start_wait(0, &ChildState::Running, None, log), StartStep::Again(500)));
    assert!(matches!(start_wait(0, &ChildState::Running, Some(&ours), log), StartStep::Ready));
    match start_wait(0, &ChildState::Exited("exit status: 1".to_string()), Some(&ours), log) {
        StartStep::Failed(e) => assert_eq!(
            e,
            "Daemon exited early with status exit status: 1. Check log: /tmp/daemon.log"
        ),
        other => panic!("unexpected {other:?}"),
    }
    match start_wait(0, &ChildState::Unknown("no child".to_string()), None, log) {
        StartStep::Failed(e) => assert_eq!(e, "Failed to check daemon status: no child"),
        other => panic!("unexpected {other:?}"),
    }
    match start_wait(10_000, &ChildState::Running, Some(&ours), log) {
        StartStep::TimedOut(e) => assert_eq!(
            e,
            "Daemon did not become ready within 10s. Check log: /tmp/daemon.log"
        ),
        other => panic!("unexpected {other:?}"),
    }
    assert_eq!(
        spawn_failure("no such file", log),
        "Failed to spawn daemon: no such file. Check log: /tmp/daemon.log"
    );
}

#[test]
fn daemon_is_given_the_configuration_path() {
    assert_eq!(daemon_args(&None), vec!["daemon"]);
    assert_eq!(daemon_args(&Some("/c.toml".to_string())), vec!["daemon", "--config", "/c.toml"]);
}

#[test]
fn startup_asks_in_order_and_loads() {
    let ready = SetupStatusResponse { ready: true, ..Default::default() };
    let mut step = Startup::Daemon;
    step = step.next(StartupReply::Daemon(Ok(())));
    assert!(matches!(step, Startup::SetupStatus));
    step = step.next(StartupReply::SetupStatus(Ok(ready)));
    assert!(matches!(step, Startup::Config { .. }));
    step = step.next(StartupReply::Config(Ok(Config::default())));
    assert!(matches!(step, Startup::Prs { .. }));
    step = step.next(StartupReply::Prs(Ok(empty_list())));
    assert!(matches!(step, Startup::Health { .. }));
    step = step.next(StartupReply::Health(None));
    match step {
        Startup::Loaded(load) => {
            assert!(load.setup_status.ready);
            assert_eq!(load.prs.updated_at, "t");
            assert!(load.health.is_none());
        }
        other => panic!("unexpected {other:?}"),
    }
}

#[test]
fn startup_without_setup_asks_for_no_pull_requests() {
    let setup = SetupStatusResponse::default();
    let step = Startup::Config { setup }.next(StartupReply::Config(Ok(Config::default())));
    match step.next(StartupReply::Health(Some(health("x", None)))) {
        Startup::Loaded(load) => {
            assert_eq!(load.prs.groups.len(), 0);
            assert!(load.health.is_some());
        }
        other => panic!("unexpected {other:?}"),
    }
}

#[test]
fn startup_reports_the_step_that_failed() {
    let fail = || "boom".to_string();
    let said = |s: Startup| match s {
        Startup::Failed(e) => e,
        other => panic!("unexpected {other:?}"),
    };
    assert_eq!(
        said(Startup::Daemon.next(StartupReply::Daemon(Err(fail())))),
        "Failed to start daemon: boom"
    );
    assert_eq!(
        said(Startup::SetupStatus.next(StartupReply::SetupStatus(Err(fail())))),
        "Failed to fetch setup status: boom"
    );
    let setup = SetupStatusResponse::default();
    assert_eq!(
        said(Startup::Config { setup }.next(StartupReply::Config(Err(fail())))),
        "Failed to fetch config: boom"
    );
    let setup = SetupStatusResponse::default();
    let at = Startup::Prs { setup, config: Config::default() };
    assert_eq!(said(at.next(StartupReply::Prs(Err(fail())))), "Failed to fetch PRs: boom");
}

#[test]
fn refresh_reports_a_failed_trigger() {
    match refreshed(Some(Err("down".to_string())), Ok(empty_list()), None) {
        TuiEvent::PrsRefreshed { trigger_error, prs, health } => {
            assert_eq!(trigger_error.as_deref(), Some("Refresh failed: down"));
            assert!(prs.is_ok());
            assert!(health.is_none());
        }
        other => panic!("unexpected {other:?}"),
    }
    match refreshed(None, Err("gone".to_string()), None) {
        TuiEvent::PrsRefreshed { trigger_error, prs, .. } => {
            assert!(trigger_error.is_none());
            assert_eq!(prs.err().as_deref(), Some("gone"));
        }
        other => panic!("unexpected {other:?}"),
    }
}

#[test]
fn summary_is_followed_by_the_detail() {
    assert!(after_classify("a".to_string(), Ok(())).is_none());
    match after_classify("a".to_string(), Err("slow".to_string())) {
        Some(TuiEvent::LlmClassified(id, Err(e))) => assert_eq!((id, e), ("a".into(), "slow".into())),
        other => panic!("unexpected {other:?}"),
    }
    let events = after_summary("a", Ok(detail("a")));
    assert_eq!(events.len(), 2);
    assert!(matches!(&events[0], TuiEvent::DetailLoaded(id, Ok(d)) if id == "a" && d.id == "a"));
    assert!(matches!(&events[1], TuiEvent::LlmClassified(id, Ok(())) if id == "a"));
    let events = after_summary("a", Err("lost".to_string()));
    assert_eq!(events.len(), 1);
    assert!(matches!(&events[0], TuiEvent::LlmClassified(_, Err(e)) if e == "lost"));
}

#[test]
fn commit_stops_at_the_first_failure() {
    let all = Commit::Validate.next(Ok(())).next(Ok(())).next(Ok(()));
    assert!(matches!(all, Commit::Refresh));
    assert!(matches!(all.next(Err("ignored".to_string())), Commit::Done(Ok(()))));
    match Commit::Validate.next(Err("empty target".to_string())) {
        Commit::Done(Err(e)) => assert_eq!(e, "empty target"),
        other => panic!("unexpected {other:?}"),
    }
    assert!(matches!(Commit::Write.next(Err("disk".to_string())), Commit::Done(Err(_))));
    assert!(matches!(Commit::Reload.next(Err("400".to_string())), Commit::Done(Err(_))));
}

#[test]
fn clipboard_programs_are_tried_in_order() {
    let linux = clipboard_programs(Platform::OtherUnix);
    let names: Vec<&str> = linux.iter().map(|p| p.name).collect();
    assert_eq!(names, vec!["wl-copy", "xclip", "xsel"]);
    assert_eq!(linux[1].args, vec!["-selection", "clipboard"]);
    assert_eq!(linux[2].args, vec!["--clipboard", "--input"]);
    assert_eq!(clipboard_programs(Platform::Mac)[0].name, "pbcopy");
    assert_eq!(clipboard_programs(Platform::Windows)[0].name, "clip");
}

#[test]
fn copying_ends_with_the_first_program_that_takes_the_text() {
    let mut attempt = CopyAttempt::new();
    assert!(attempt.record("wl-copy", CopyOutcome::Exited("exit status: 1".to_string())));
    assert!(!attempt.record("xclip", CopyOutcome::Copied));
    assert_eq!(attempt.finish(), Ok(()));
}

#[test]
fn failed_copying_reports_the_last_failure() {
    let report = |outcome: CopyOutcome| {
        let mut attempt = CopyAttempt::new();
        assert!(attempt.record("xclip", outcome));
        assert!(attempt.record("xsel", CopyOutcome::Missing));
        attempt.finish().unwrap_err()
    };
    assert_eq!(report(CopyOutcome::Missing), "no supported clipboard utility was found");
    assert_eq!(
        report(CopyOutcome::NotStarted("denied".to_string())),
        "could not start xclip: denied"
    );
    assert_eq!(report(CopyOutcome::NoInput), "could not open xclip input");
    assert_eq!(
        report(CopyOutcome::NotWritten("broken pipe".to_string())),
        "could not write to xclip: broken pipe"
    );
    assert_eq!(
        report(CopyOutcome::Exited("exit status: 2".to_string())),
        "xclip exited with exit status: 2"
    );
    assert_eq!(
        report(CopyOutcome::NotAwaited("gone".to_string())),
        "could not wait for xclip: gone"
    );
}
