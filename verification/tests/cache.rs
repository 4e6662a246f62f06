//! What the blades show, and when it is built anew.
use brunson::api::PrDetailResponse;
use brunson::cache::{build_activity_events, build_problems_lines, ActivityEvent, RenderCache};
use brunson::diff::{find_file_boundaries, parse_diff};
use brunson::draw::Line;
use brunson::github::{
    CheckEntry, CheckStatus, MergeableState, ReviewComment, ReviewThread, TimelineEvent,
    TimelineEventType,
};

#[test]
fn diff_file_boundaries_account_for_wrapped_lines() {
    let long_line = "x".repeat(200);
    let diff_text = format!(
        "diff --git a/one.rs b/one.rs\n@@ -1,1 +1,1 @@\n+{}\ndiff --git a/two.rs b/two.rs\n@@ -1,1 +1,1 @@\n+short\n",
        long_line
    );

    let mut cache = RenderCache::new();
    cache.rebuild_diff(None, Some(&diff_text), 40, false);

    let parsed = parse_diff(&diff_text);
    let raw_boundaries = find_file_boundaries(&parsed);
    assert_eq!(raw_boundaries, vec![0, 3]);

    // The long line wraps into more than one rendered row at width 40, so
    // the second file's rendered-space boundary must be pushed past its
    // raw parsed-line index of 2.
    assert_eq!(cache.diff_file_boundaries.len(), 2);
    assert_eq!(cache.diff_file_boundaries[0], 0);
    assert!(
        cache.diff_file_boundaries[1] > raw_boundaries[1],
        "expected wrapped rendering to push the second file's boundary past {}, got {}",
        raw_boundaries[1],
        cache.diff_file_boundaries[1]
    );
}

fn make_detail(id: &str, updated_at: &str) -> PrDetailResponse {
    PrDetailResponse {
        id: id.to_string(),
        node_id: "node".to_string(),
        owner: "org".to_string(),
        repo: "repo".to_string(),
        number: 1,
        title: "Test PR".to_string(),
        body: String::new(),
        url: "https://example.com".to_string(),
        author: "author".to_string(),
        is_draft: false,
        updated_at: updated_at.to_string(),
        head_ref: "feature".to_string(),
        base_ref: "main".to_string(),
        mergeable: MergeableState::Mergeable,
        review_decision: None,
        review_requests: vec![],
        team_review_requests: vec![],
        viewer_latest_review: None,
        latest_reviews: vec![],
        check_status: CheckStatus::Absent,
        checks: vec![],
        review_threads: vec![],
        files: vec![],
        timeline: vec![],
        llm_priority: None,
        llm_summary: None,
        llm_rich_summary: None,
        last_seen_at: None,
    }
}

#[test]
fn rebuild_is_a_noop_when_the_key_is_unchanged() {
    let detail = make_detail("org~repo~1", "2024-01-01T00:00:00Z");
    let mut cache = RenderCache::new();
    cache.rebuild_activity(Some(&detail), 80);
    cache.rebuild_overview(Some(&detail), 80);
    cache.rebuild_diff(
        Some(&detail),
        Some("diff --git a/f b/f\n@@ -1 +1 @@\n+x\n"),
        80,
        false,
    );

    // Mutate the cached output directly; if a rebuild with an identical
    // key were to run again it would overwrite this sentinel.
    cache.activity_events = vec![ActivityEvent {
        raw_body: "sentinel-activity".to_string(),
        ..Default::default()
    }];
    cache.overview_summary = vec![Line::raw("sentinel-overview")];
    cache.diff_lines = vec![Line::raw("sentinel-diff")];

    cache.rebuild_activity(Some(&detail), 80);
    cache.rebuild_overview(Some(&detail), 80);
    cache.rebuild_diff(
        Some(&detail),
        Some("diff --git a/f b/f\n@@ -1 +1 @@\n+x\n"),
        80,
        false,
    );

    assert_eq!(cache.activity_events.len(), 1);
    assert_eq!(cache.activity_events[0].raw_body, "sentinel-activity");
    assert_eq!(cache.overview_summary.len(), 1);
    assert_eq!(
        cache.overview_summary[0].spans[0].content,
        "sentinel-overview"
    );
    assert_eq!(cache.diff_lines.len(), 1);
    assert_eq!(cache.diff_lines[0].spans[0].content, "sentinel-diff");
}

#[test]
fn overview_rebuilds_when_llm_summary_arrives_with_unchanged_updated_at() {
    let mut detail = make_detail("org~repo~1", "2024-01-01T00:00:00Z");
    let mut cache = RenderCache::new();
    cache.rebuild_overview(Some(&detail), 80);
    assert!(
        cache.overview_summary.is_empty(),
        "no summary yet, so overview_summary should be empty"
    );

    // The daemon classifies the PR and the detail refetch has the same
    // `updated_at` but a newly populated `llm_summary`.
    detail.llm_summary = Some("A concise summary.".to_string());
    cache.rebuild_overview(Some(&detail), 80);

    assert!(
        !cache.overview_summary.is_empty(),
        "a newly-arrived llm_summary at unchanged updated_at must trigger a rebuild"
    );
}

#[test]
fn overview_does_not_rebuild_every_call_when_content_is_legitimately_empty() {
    // A PR with no LLM summary and no body: `overview_summary` is `[]`
    // both before and after, but the rebuild must still be recognized as
    // a no-op via the key, not re-run `markdown_lines` every frame.
    let detail = make_detail("org~repo~1", "2024-01-01T00:00:00Z");
    let mut cache = RenderCache::new();
    cache.rebuild_overview(Some(&detail), 80);
    assert!(cache.overview_summary.is_empty());
    assert!(cache.overview_description.is_empty());

    // Poison the checks section (unrelated to summary/description) to
    // prove the second call is a no-op rather than an "empty so rebuild
    // anyway" fallback.
    cache.overview_problems = vec![Line::raw("sentinel-problems")];
    cache.rebuild_overview(Some(&detail), 80);

    assert_eq!(cache.overview_problems.len(), 1);
    assert_eq!(
        cache.overview_problems[0].spans[0].content,
        "sentinel-problems"
    );
}

fn timeline_event(actor: &str, created_at: &str, detail: &str) -> TimelineEvent {
    TimelineEvent {
        event_type: TimelineEventType::Comment,
        actor: actor.to_string(),
        created_at: created_at.to_string(),
        detail: detail.to_string(),
        url: String::new(),
    }
}

fn thread_comment(author: &str, body: &str, created_at: &str) -> ReviewComment {
    ReviewComment {
        author: author.to_string(),
        body: body.to_string(),
        path: "src/lib.rs".to_string(),
        line: Some(7),
        created_at: created_at.to_string(),
        url: String::new(),
    }
}

#[test]
fn activity_events_sorted_by_real_timestamp() {
    let mut detail = make_detail("org~repo~1", "2024-01-03T00:00:00Z");
    detail.timeline = vec![
        timeline_event("early", "2024-01-01T00:00:00Z", "first comment"),
        timeline_event("late", "2024-01-03T00:00:00Z", "third comment"),
    ];
    // Thread timestamp lands between the two timeline events.
    detail.review_threads = vec![ReviewThread {
        is_resolved: false,
        is_outdated: false,
        comments: vec![thread_comment("mid", "thread body", "2024-01-02T00:00:00Z")],
    }];

    let events = build_activity_events(Some(&detail), 80);
    let actors: Vec<&str> = events.iter().map(|e| e.actor.as_str()).collect();
    assert_eq!(
        actors,
        vec!["late", "mid", "early"],
        "descending real timestamps, threads interleaved"
    );
}

#[test]
fn activity_events_with_empty_timestamps_sort_last() {
    let mut detail = make_detail("org~repo~1", "2024-01-03T00:00:00Z");
    detail.timeline = vec![timeline_event("dated", "2024-01-01T00:00:00Z", "hello")];
    // Legacy data: thread comments carry no created_at.
    detail.review_threads = vec![
        ReviewThread {
            is_resolved: false,
            is_outdated: false,
            comments: vec![thread_comment("legacy-a", "a", "")],
        },
        ReviewThread {
            is_resolved: false,
            is_outdated: false,
            comments: vec![thread_comment("legacy-b", "b", "")],
        },
    ];

    let events = build_activity_events(Some(&detail), 80);
    let actors: Vec<&str> = events.iter().map(|e| e.actor.as_str()).collect();
    assert_eq!(
        actors,
        vec!["dated", "legacy-a", "legacy-b"],
        "empty timestamps sort last, stable among themselves"
    );
}

#[test]
fn activity_events_empty_without_detail_or_events() {
    assert!(build_activity_events(None, 80).is_empty());
    let detail = make_detail("org~repo~1", "2024-01-01T00:00:00Z");
    assert!(
        build_activity_events(Some(&detail), 80).is_empty(),
        "no synthetic 'No activity' event"
    );
}

#[test]
fn activity_thread_event_concatenates_comments_and_marks_resolved() {
    let mut detail = make_detail("org~repo~1", "2024-01-01T00:00:00Z");
    detail.review_threads = vec![ReviewThread {
        is_resolved: true,
        is_outdated: false,
        comments: vec![
            thread_comment("alice", "please fix", "2024-01-01T10:00:00Z"),
            thread_comment("bob", "done!", "2024-01-01T11:00:00Z"),
        ],
    }];

    let events = build_activity_events(Some(&detail), 80);
    assert_eq!(events.len(), 1, "one event per thread");
    let event = &events[0];
    assert_eq!(event.raw_body, "@alice: please fix\n@bob: done!");
    assert_eq!(event.created_at, "2024-01-01T10:00:00Z");
    let header: String = event
        .header_spans
        .iter()
        .map(|s| s.content.as_str())
        .collect();
    assert!(header.contains("@alice"));
    assert!(header.contains("src/lib.rs:7"));
    assert!(header.contains("(resolved)"));
}

#[test]
fn activity_rebuilds_when_content_changes_without_updated_at_bump() {
    let mut detail = make_detail("org~repo~1", "2024-01-01T00:00:00Z");
    detail.timeline = vec![timeline_event("a", "2024-01-01T00:00:00Z", "one")];
    let mut cache = RenderCache::new();
    cache.rebuild_activity(Some(&detail), 80);
    assert_eq!(cache.activity_events.len(), 1);

    // Same id + updated_at, but a refetch grew the timeline.
    detail
        .timeline
        .push(timeline_event("b", "2024-01-02T00:00:00Z", "two"));
    cache.rebuild_activity(Some(&detail), 80);
    assert_eq!(
        cache.activity_events.len(),
        2,
        "content fingerprint must trigger a rebuild"
    );
}

fn check(status: &str, conclusion: Option<&str>) -> CheckEntry {
    CheckEntry {
        name: format!("check-{}-{}", status, conclusion.unwrap_or("none")),
        status: status.to_string(),
        conclusion: conclusion.map(String::from),
        url: String::new(),
    }
}

fn problems_text(detail: &PrDetailResponse) -> Vec<String> {
    build_problems_lines(Some(detail))
        .iter()
        .map(|l| l.spans.iter().map(|s| s.content.as_str()).collect())
        .collect()
}

#[test]
fn problems_lines_cover_failure_pending_conflict_and_zero_check_cases() {

    // Green: all success-ish checks + mergeable ⇒ no problems at all.
    let mut d = make_detail("org~repo~1", "2024-01-01T00:00:00Z");
    d.check_status = CheckStatus::Success;
    d.checks = vec![
        check("COMPLETED", Some("SUCCESS")),
        check("COMPLETED", Some("SKIPPED")),
        check("COMPLETED", Some("NEUTRAL")),
    ];
    assert!(problems_text(&d).is_empty(), "green PR has no problems");

    // Mixed: only the non-success checks are listed.
    d.checks = vec![
        check("COMPLETED", Some("SUCCESS")),
        check("COMPLETED", Some("FAILURE")),
        check("IN_PROGRESS", None),
        check("QUEUED", None),
    ];
    let text = problems_text(&d);
    assert_eq!(text.len(), 3, "one failure + two pending: {text:?}");
    assert!(!text.iter().any(|t| t.contains("SUCCESS")));

    // Conflict only: green checks but a conflicting merge state.
    d.checks = vec![check("COMPLETED", Some("SUCCESS"))];
    d.mergeable = MergeableState::Conflicting;
    let text = problems_text(&d);
    assert_eq!(text.len(), 1);
    assert!(text[0].contains("conflicts with base branch"));
    d.mergeable = MergeableState::Mergeable;

    // Legacy status-context shape: state mapped into `status`, no conclusion.
    d.checks = vec![check("SUCCESS", None)];
    assert!(problems_text(&d).is_empty(), "legacy green is success-ish");
    d.checks = vec![
        check("PENDING", None),
        check("FAILURE", None),
        check("ERROR", None),
    ];
    assert_eq!(problems_text(&d).len(), 3, "legacy pending/fail/error");

    // Empty checks but a failing/pending overall status still surfaces.
    d.checks = vec![];
    d.check_status = CheckStatus::Failure;
    assert_eq!(problems_text(&d), vec!["checks: failure".to_string()]);
    d.check_status = CheckStatus::Pending;
    assert_eq!(problems_text(&d), vec!["checks: pending".to_string()]);
    d.check_status = CheckStatus::Success;
    assert!(
        problems_text(&d).is_empty(),
        "empty checks + green status ⇒ absent"
    );
}
