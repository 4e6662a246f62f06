//! The rows of the Inbox, the cursor, and what preparing a frame keeps.
use std::collections::HashSet;

use brunson::api::{HealthResponse, PrDetailResponse, PrGroups, PrListResponse, PrSummary};
use brunson::app::AppState;
use brunson::cache::ActivityEvent;
use brunson::config::Config;
use brunson::daemon::SERVICE_NAME;
use brunson::draw::{Line, Rect, Span, Style};
use brunson::github::{
    CheckStatus, MergeableState, PrGroup, Priority, TimelineEvent, TimelineEventType,
};
use brunson::inbox_rows::{build_inbox_rows, InboxRow, InboxSection, SectionFolds};
use brunson::layout::{RootLayout, ViewLayout};
use brunson::scroll::OverviewFocus;
use brunson::state::{
    flatten_activity_events, ViewStateManager, ACTIVITY_COLLAPSED_BODY_LINES,
};
use brunson::theme::{Blade, SURFACE0};
use brunson::views::inbox::inbox_preview_rows;

fn make_summary(
    id: &str,
    group: PrGroup,
    author: &str,
    priority: Option<Priority>,
) -> PrSummary {
    PrSummary {
        id: id.to_string(),
        node_id: "node".to_string(),
        owner: "org".to_string(),
        repo: "repo".to_string(),
        number: id.split('~').next_back().unwrap().parse().unwrap_or(1),
        title: format!("Test {}", id),
        author: author.to_string(),
        author_is_bot: false,
        group,
        next_action: "Review now".to_string(),
        check_status: CheckStatus::Absent,
        llm_priority: priority,
        updated_at: "2024-01-01T00:00:00Z".to_string(),
        url: "https://example.com".to_string(),
        comments: 0,
        head_ref: String::new(),
        llm_one_line: None,
    }
}

fn make_test_state(groups: PrGroups) -> AppState {
    let config = Config::default();
    let mut state = AppState::new(config);
    state.prs = PrListResponse {
        groups,
        updated_at: "2024-01-01T00:00:00Z".to_string(),
    };
    state.health = Some(HealthResponse {
        service: SERVICE_NAME.to_string(),
        version: "0.1.0".to_string(),
        status: "ok".to_string(),
        current_user: "me".to_string(),
        last_poll_at: None,
        last_poll_error: None,
        rate_limit_remaining: None,
        refresh_in_progress: false,
        setup_status: "ready".to_string(),
        setup_message: None,
        binary_mtime: None,
    });
    state
}

fn summary_with_fields(
    id: &str,
    group: PrGroup,
    title: &str,
    author: &str,
    owner: &str,
    repo: &str,
    number: u64,
    next_action: &str,
) -> PrSummary {
    PrSummary {
        id: id.to_string(),
        node_id: "node".to_string(),
        owner: owner.to_string(),
        repo: repo.to_string(),
        number,
        title: title.to_string(),
        author: author.to_string(),
        author_is_bot: false,
        group,
        next_action: next_action.to_string(),
        check_status: CheckStatus::Absent,
        llm_priority: None,
        updated_at: "2024-01-01T00:00:00Z".to_string(),
        url: "https://example.com".to_string(),
        comments: 0,
        head_ref: String::new(),
        llm_one_line: None,
    }
}

fn make_layout(width: u16, height: u16, active: Blade) -> ViewLayout {
    let area = Rect::new(0, 0, width, height);
    RootLayout::new(active).compute(area)
}

#[test]
fn pr_matches_filter_case_insensitive_fields() {
    let pr = summary_with_fields(
        "Acme~widgets~42",
        PrGroup::ReviewNeeded,
        "Fix Login Bug",
        "Alice",
        "Acme",
        "widgets",
        42,
        "Review now",
    );

    assert!(pr.matches_filter(""));
    assert!(pr.matches_filter("bug"));
    assert!(pr.matches_filter("BUG"));
    assert!(pr.matches_filter("alice"));
    assert!(pr.matches_filter("ALICE"));
    assert!(pr.matches_filter("widgets"));
    assert!(pr.matches_filter("acme"));
    assert!(pr.matches_filter("42"));
    assert!(pr.matches_filter("acme~widgets~42"));
    assert!(pr.matches_filter("review now"));
    assert!(!pr.matches_filter("zzz"));
    assert!(!pr.matches_filter("99"));
}

/// Extract just the PR ids (in order) from a row list, dropping headers.
fn pr_ids(rows: &[InboxRow]) -> Vec<String> {
    rows.iter()
        .filter_map(|row| match row {
            InboxRow::Pr { id } => Some(id.clone()),
            InboxRow::Header { .. } => None,
        })
        .collect()
}

#[test]
fn build_flat_prs_filters_and_preserves_lane_counts() {
    let mut groups = PrGroups::new();
    groups.insert(
        PrGroup::AuthoredWaiting,
        vec![
            summary_with_fields(
                "x~y~1",
                PrGroup::AuthoredWaiting,
                "Alpha feature",
                "me",
                "x",
                "y",
                1,
                "Waiting",
            ),
            summary_with_fields(
                "x~y~2",
                PrGroup::AuthoredWaiting,
                "Beta patch",
                "me",
                "x",
                "y",
                2,
                "Waiting",
            ),
        ],
    );
    groups.insert(
        PrGroup::ReviewNeeded,
        vec![
            summary_with_fields(
                "x~y~3",
                PrGroup::ReviewNeeded,
                "Gamma fix",
                "other",
                "x",
                "y",
                3,
                "Review now",
            ),
            summary_with_fields(
                "x~y~4",
                PrGroup::ReviewNeeded,
                "Delta docs",
                "other",
                "x",
                "y",
                4,
                "Review now",
            ),
        ],
    );

    let prs = PrListResponse {
        groups,
        updated_at: String::new(),
    };
    let collapsed = SectionFolds::new();

    let rows = build_inbox_rows(&prs, &collapsed, "alpha");
    assert_eq!(pr_ids(&rows), vec!["x~y~1"], "only one authored PR matches");

    let rows = build_inbox_rows(&prs, &collapsed, "3");
    assert_eq!(pr_ids(&rows), vec!["x~y~3"]);

    let rows = build_inbox_rows(&prs, &collapsed, "");
    assert_eq!(pr_ids(&rows), vec!["x~y~1", "x~y~2", "x~y~3", "x~y~4"]);
}

#[test]
fn prepare_preserves_selected_pr_id_on_filter_change() {
    let mut groups = PrGroups::new();
    groups.insert(
        PrGroup::ReviewNeeded,
        vec![
            summary_with_fields(
                "o~r~1",
                PrGroup::ReviewNeeded,
                "First",
                "other",
                "o",
                "r",
                1,
                "Review now",
            ),
            summary_with_fields(
                "o~r~2",
                PrGroup::ReviewNeeded,
                "Second",
                "other",
                "o",
                "r",
                2,
                "Review now",
            ),
            summary_with_fields(
                "o~r~3",
                PrGroup::ReviewNeeded,
                "Third",
                "other",
                "o",
                "r",
                3,
                "Review now",
            ),
        ],
    );
    let mut app = make_test_state(groups);
    let mut view = ViewStateManager::new();
    let layout = make_layout(80, 24, Blade::Inbox);

    view.prepare(&mut app, &layout);
    // Row 0 is the section header; the cursor starts on the first PR row.
    assert_eq!(view.view.selected_row, 1);
    assert_eq!(app.selected_pr_id, Some("o~r~1".to_string()));
    // Row 3 is the third PR (rows: header, o~r~1, o~r~2, o~r~3).
    app.set_selected_row(&mut view, 3);
    view.prepare(&mut app, &layout);
    assert_eq!(app.selected_pr_id, Some("o~r~3".to_string()));

    // Filter to a subset that still includes the selected PR ("First" and
    // "Third" both contain "ir"); the selected PR follows to its new row.
    app.search_filter = "ir".to_string();
    view.prepare(&mut app, &layout);
    assert_eq!(view.view.selected_row, 2);
    assert_eq!(app.selected_pr_id, Some("o~r~3".to_string()));
}

#[test]
fn prepare_keeps_selection_stable_when_list_reorders_without_navigation() {
    let mut groups = PrGroups::new();
    groups.insert(
        PrGroup::ReviewNeeded,
        vec![
            make_summary("o~r~a", PrGroup::ReviewNeeded, "other", Some(Priority::Low)),
            make_summary(
                "o~r~b",
                PrGroup::ReviewNeeded,
                "other",
                Some(Priority::High),
            ),
        ],
    );
    let mut app = make_test_state(groups);
    let mut view = ViewStateManager::new();
    let layout = make_layout(80, 24, Blade::Inbox);

    view.prepare(&mut app, &layout);
    // High priority sorts first (row 0 is the section header).
    assert_eq!(pr_ids(&view.view.inbox_rows), vec!["o~r~b", "o~r~a"]);

    // Select the second PR ("a", currently at row 2).
    app.set_selected_row(&mut view, 2);
    view.prepare(&mut app, &layout);
    assert_eq!(app.selected_pr_id, Some("o~r~a".to_string()));
    app.detail_needs_reload = false; // simulate detail already loaded

    // Reclassify "a" to High priority: it now sorts first, at index 0,
    // even though the user's selection (by identity) hasn't moved.
    for prs in app.prs.groups.lanes.iter_mut().map(|l| &mut l.prs) {
        for pr in prs.iter_mut() {
            if pr.id == "o~r~a" {
                pr.llm_priority = Some(Priority::High);
            }
        }
    }
    view.prepare(&mut app, &layout);

    // The list reordered...
    assert_eq!(pr_ids(&view.view.inbox_rows), vec!["o~r~a", "o~r~b"]);
    // ...but the selection followed the PR's new position (now row 1, after
    // the header) instead of staying pinned to a row that changed identity.
    assert_eq!(view.view.selected_row, 1);
    assert_eq!(app.selected_pr_id, Some("o~r~a".to_string()));
    assert!(
        !app.detail_needs_reload,
        "reordering under a stable selection must not trigger a reload"
    );
}

#[test]
fn prepare_resets_to_first_match_when_selected_filtered_out() {
    let mut groups = PrGroups::new();
    groups.insert(
        PrGroup::ReviewNeeded,
        vec![
            summary_with_fields(
                "o~r~1",
                PrGroup::ReviewNeeded,
                "First",
                "other",
                "o",
                "r",
                1,
                "Review now",
            ),
            summary_with_fields(
                "o~r~2",
                PrGroup::ReviewNeeded,
                "Second",
                "other",
                "o",
                "r",
                2,
                "Review now",
            ),
        ],
    );
    let mut app = make_test_state(groups);
    let mut view = ViewStateManager::new();
    let layout = make_layout(80, 24, Blade::Inbox);

    view.prepare(&mut app, &layout);
    // Row 2 is the second PR (rows: header, o~r~1, o~r~2).
    app.set_selected_row(&mut view, 2);
    view.prepare(&mut app, &layout);
    assert_eq!(app.selected_pr_id, Some("o~r~2".to_string()));

    // Filter removes the selected PR; selection should move to the first match.
    app.search_filter = "first".to_string();
    view.prepare(&mut app, &layout);
    assert_eq!(view.view.selected_row, 1);
    assert_eq!(app.selected_pr_id, Some("o~r~1".to_string()));
}

#[test]
fn inbox_rows_order_mine_before_review() {
    let mut groups = PrGroups::new();
    groups.insert(
        PrGroup::ReviewNeeded,
        vec![make_summary(
            "a~b~1",
            PrGroup::ReviewNeeded,
            "other",
            Some(Priority::High),
        )],
    );
    groups.insert(
        PrGroup::AuthoredWaiting,
        vec![make_summary("a~b~2", PrGroup::AuthoredWaiting, "me", None)],
    );

    let mut app = make_test_state(groups);
    let mut view = ViewStateManager::new();
    let layout = make_layout(80, 24, Blade::Inbox);
    view.prepare(&mut app, &layout);
    // Authored ("MINE — WAITING") sections render before review sections.
    assert_eq!(pr_ids(&view.view.inbox_rows), vec!["a~b~2", "a~b~1"]);
}

#[test]
fn build_inbox_rows_routes_bots_to_dependencies_and_defaults_collapsed() {
    // A plain "dependabot" login with the bot flag set (the daemon's GraphQL
    // returns bot logins WITHOUT a "[bot]" suffix), plus a human whose login
    // merely ends in "bot" — the latter must NOT be routed as a dependency.
    let mut bot = make_summary("o~r~2", PrGroup::ReviewNeeded, "dependabot", None);
    bot.author_is_bot = true;
    let mut groups = PrGroups::new();
    groups.insert(
        PrGroup::ReviewNeeded,
        vec![
            make_summary("o~r~1", PrGroup::ReviewNeeded, "cabot", None),
            bot,
        ],
    );
    let prs = PrListResponse {
        groups,
        updated_at: String::new(),
    };
    let collapsed = SectionFolds::new();
    let rows = build_inbox_rows(&prs, &collapsed, "");

    // The human PR (login "cabot", flag false) stays in the review section;
    // the bot PR is pulled into a DEPENDENCIES section collapsed by default.
    let sections: Vec<InboxSection> = rows
        .iter()
        .filter_map(|r| match r {
            InboxRow::Header { section, .. } => Some(*section),
            InboxRow::Pr { .. } => None,
        })
        .collect();
    assert!(sections.contains(&InboxSection::Group(PrGroup::ReviewNeeded)));
    assert!(sections.contains(&InboxSection::Dependencies));

    let dep_header = rows
        .iter()
        .find(|r| {
            matches!(
                r,
                InboxRow::Header {
                    section: InboxSection::Dependencies,
                    ..
                }
            )
        })
        .unwrap();
    assert_eq!(
        *dep_header,
        InboxRow::Header {
            section: InboxSection::Dependencies,
            count: 1,
            collapsed: true,
        }
    );
    // Only the human PR is visible; the bot PR is folded away by default.
    assert_eq!(pr_ids(&rows), vec!["o~r~1"]);
}

#[test]
fn prepare_resets_selection_when_pr_disappears() {
    let mut groups = PrGroups::new();
    groups.insert(
        PrGroup::ReviewNeeded,
        vec![make_summary("a~b~1", PrGroup::ReviewNeeded, "other", None)],
    );
    let mut app = make_test_state(groups);
    app.selected_pr_id = Some("a~b~1".to_string());

    let mut view = ViewStateManager::new();
    let layout = make_layout(80, 24, Blade::Inbox);
    view.prepare(&mut app, &layout);
    assert_eq!(app.selected_pr_id, Some("a~b~1".to_string()));
    // First time this PR becomes selected from the manager's
    // perspective: detail/diff need to be fetched.
    assert!(app.detail_needs_reload);

    // Simulate the detail having been fetched (as the real event loop
    // would do after a DetailLoaded event), then re-run prepare with
    // nothing changed — an unchanged selection must not re-trigger reload.
    app.detail_needs_reload = false;
    app.diff_needs_reload = false;
    view.prepare(&mut app, &layout);
    assert!(!app.detail_needs_reload);

    // Now remove the PR and run prepare again.
    app.prs.groups.clear();
    view.prepare(&mut app, &layout);

    assert!(app.selected_pr_id.is_none());
    assert!(app.detail_needs_reload);
    assert!(app.diff_needs_reload);
    assert!(app.pr_detail.is_none());
    assert!(app.pr_diff.is_none());
    assert!(app.render_cache.diff_lines.is_empty());
    assert_eq!(view.view.selected_row, 0);
    assert_eq!(view.view.selected_file_index, 0);
    assert_eq!(view.view.inbox_scroll.offset, 0);
    assert_eq!(view.view.files_scroll.offset, 0);
}

#[test]
fn prepare_clamps_scroll_offsets_after_resize() {
    let mut groups = PrGroups::new();
    let mut prs = Vec::new();
    for i in 0..100 {
        prs.push(make_summary(
            &format!("a~b~{}", i),
            PrGroup::ReviewNeeded,
            "other",
            None,
        ));
    }
    groups.insert(PrGroup::ReviewNeeded, prs);
    let mut app = make_test_state(groups);
    app.selected_pr_id = Some("a~b~0".to_string());

    let mut view = ViewStateManager::new();
    // Large terminal lets the inbox scroll freely.
    let big = make_layout(200, 200, Blade::Inbox);
    view.prepare(&mut app, &big);
    view.view.inbox_scroll.scroll_to(50);

    // Shrink the terminal: the offset must be clamped back down.
    let small = make_layout(80, 12, Blade::Inbox);
    view.prepare(&mut app, &small);
    assert!(
        view.view.inbox_scroll.offset <= view.view.inbox_scroll.max_scroll(),
        "inbox scroll {} exceeds max {}",
        view.view.inbox_scroll.offset,
        view.view.inbox_scroll.max_scroll()
    );
    assert!(
        view.view.inbox_scroll.viewport_height > 0,
        "viewport should be non-zero"
    );
}

/// Build a `PrListResponse` with `opened_count` authored PRs and
/// `review_count` review-requested PRs, for row-shape tests below.
fn make_prs_of_sizes(opened_count: usize, review_count: usize) -> PrListResponse {
    let mut groups = PrGroups::new();
    if opened_count > 0 {
        groups.insert(
            PrGroup::AuthoredWaiting,
            (0..opened_count)
                .map(|i| {
                    make_summary(&format!("o~o~{i}"), PrGroup::AuthoredWaiting, "me", None)
                })
                .collect(),
        );
    }
    if review_count > 0 {
        groups.insert(
            PrGroup::ReviewNeeded,
            (0..review_count)
                .map(|i| {
                    make_summary(&format!("r~r~{i}"), PrGroup::ReviewNeeded, "other", None)
                })
                .collect(),
        );
    }
    PrListResponse {
        groups,
        updated_at: String::new(),
    }
}

#[test]
fn build_inbox_rows_places_headers_before_each_non_empty_section() {
    let collapsed = SectionFolds::new();

    // review only: header at index 0, then all PR rows.
    let rows = build_inbox_rows(&make_prs_of_sizes(0, 5), &collapsed, "");
    assert_eq!(
        rows[0],
        InboxRow::Header {
            section: InboxSection::Group(PrGroup::ReviewNeeded),
            count: 5,
            collapsed: false,
        }
    );
    assert_eq!(rows.len(), 6);

    // opened only: header at index 0, then all PR rows.
    let rows = build_inbox_rows(&make_prs_of_sizes(5, 0), &collapsed, "");
    assert_eq!(
        rows[0],
        InboxRow::Header {
            section: InboxSection::Group(PrGroup::AuthoredWaiting),
            count: 5,
            collapsed: false,
        }
    );
    assert_eq!(rows.len(), 6);

    // both sections: authored header, its PRs, then review header, its PRs.
    let rows = build_inbox_rows(&make_prs_of_sizes(3, 4), &collapsed, "");
    assert_eq!(
        rows[0],
        InboxRow::Header {
            section: InboxSection::Group(PrGroup::AuthoredWaiting),
            count: 3,
            collapsed: false,
        }
    );
    assert_eq!(
        rows[4],
        InboxRow::Header {
            section: InboxSection::Group(PrGroup::ReviewNeeded),
            count: 4,
            collapsed: false,
        }
    );
    assert_eq!(rows.len(), 3 + 4 + 2);
}

#[test]
fn build_inbox_rows_only_headers_non_empty_sections_with_matching_counts() {
    let collapsed = SectionFolds::new();

    // Empty section produces no header at all, not a header with count 0.
    let rows = build_inbox_rows(&make_prs_of_sizes(0, 3), &collapsed, "");
    assert_eq!(
        rows.iter()
            .filter(|r| matches!(r, InboxRow::Header { .. }))
            .count(),
        1,
        "no header row for the empty authored section"
    );

    // Each Header's count matches the number of Pr rows that follow it
    // (up to the next Header or the end of the list).
    let rows = build_inbox_rows(&make_prs_of_sizes(3, 4), &collapsed, "");
    let mut i = 0;
    while i < rows.len() {
        if let InboxRow::Header { count, .. } = &rows[i] {
            let mut actual = 0;
            let mut j = i + 1;
            while j < rows.len() && matches!(rows[j], InboxRow::Pr { .. }) {
                actual += 1;
                j += 1;
            }
            assert_eq!(actual, *count, "header count must match following PR rows");
            i = j;
        } else {
            i += 1;
        }
    }
}

#[test]
fn prepare_inbox_viewport_accounts_for_preview_strip() {
    // 40 PRs — far more than any viewport.
    let mut groups = PrGroups::new();
    groups.insert(
        PrGroup::ReviewNeeded,
        (0..40)
            .map(|i| {
                make_summary(
                    &format!("org~repo~{}", i),
                    PrGroup::ReviewNeeded,
                    "other",
                    None,
                )
            })
            .collect::<Vec<_>>(),
    );
    let mut state = make_test_state(groups);
    let mut mgr = ViewStateManager::new();
    mgr.view.active_blade = Blade::Inbox;
    let layout = make_layout(120, 30, Blade::Inbox);

    mgr.prepare(&mut state, &layout);

    let content_height = layout.blade(Blade::Inbox).content.height;
    let body = content_height - 1; // column header
    let strip = inbox_preview_rows(body);
    assert_eq!(strip, 2, "tall body shows the preview strip");
    assert_eq!(
        mgr.view.inbox_scroll.viewport_height,
        (body - strip) as usize,
        "scroll viewport excludes header and preview strip"
    );

    // Scrolling to the last row must be reachable: max_scroll positions
    // the final row at the bottom of the reduced viewport.
    let rows = mgr.view.inbox_rows.len();
    assert_eq!(
        mgr.view.inbox_scroll.max_scroll(),
        rows - mgr.view.inbox_scroll.viewport_height
    );
}

fn make_event(actor: &str, body_lines: usize) -> ActivityEvent {
    ActivityEvent {
        header_spans: vec![Span::styled(
            &format!("@{} commented", actor),
            Style::plain(),
        )],
        body: (0..body_lines)
            .map(|i| Line::raw(&format!("body {i}")))
            .collect(),
        raw_body: "raw".to_string(),
        url: String::new(),
        created_at: "2024-01-01T00:00:00Z".to_string(),
        actor: actor.to_string(),
    }
}

fn line_text(line: &Line) -> String {
    line.spans.iter().map(|s| s.content.as_str()).collect()
}

#[test]
fn flatten_collapsed_preview_and_marker() {
    let events = vec![make_event("a", 10)];
    let (lines, starts) = flatten_activity_events(&events, &HashSet::new(), 0, 80);
    assert_eq!(starts, vec![0]);
    // Header + 4 preview lines + marker.
    assert_eq!(lines.len(), 1 + ACTIVITY_COLLAPSED_BODY_LINES + 1);
    let marker = line_text(lines.last().unwrap());
    assert!(marker.contains("+6 more lines"), "marker: {marker}");
    assert!(marker.contains("⏎ expand"));

    // Short bodies get no marker.
    let events = vec![make_event("a", 3)];
    let (lines, _) = flatten_activity_events(&events, &HashSet::new(), 0, 80);
    assert_eq!(lines.len(), 1 + 3);
    assert!(!lines.iter().any(|l| line_text(l).contains("more line")));
}

#[test]
fn flatten_expanded_full_body() {
    let events = vec![make_event("a", 10)];
    let mut expanded = HashSet::new();
    expanded.insert(0usize);
    let (lines, _) = flatten_activity_events(&events, &expanded, 0, 80);
    assert_eq!(lines.len(), 1 + 10, "full body, no marker");
    assert!(!lines.iter().any(|l| line_text(l).contains("more line")));
    assert!(line_text(&lines[10]).contains("body 9"));
}

#[test]
fn flatten_selected_header_gets_bar_and_bg() {
    let events = vec![make_event("a", 0), make_event("b", 0)];
    let (lines, starts) = flatten_activity_events(&events, &HashSet::new(), 1, 40);

    // Unselected header keeps a blank bar slot, no selection bg.
    let unselected = &lines[starts[0]];
    assert_eq!(unselected.spans[0].content, " ");
    assert!(unselected.spans.iter().all(|s| s.style.bg.is_none()));

    // Selected header: bar prefix, SURFACE0 bg on every span, padded to
    // the full width (same selection grammar as inbox rows).
    let selected = &lines[starts[1]];
    assert_eq!(selected.spans[0].content, "▌");
    assert!(selected.spans.iter().all(|s| s.style.bg == Some(SURFACE0)));
    let drawn: usize = selected
        .spans
        .iter()
        .map(|s| s.content.chars().count())
        .sum();
    assert_eq!(drawn, 40, "selected header painted full-width");
}

fn detail_with_timeline(id: &str, n: usize) -> PrDetailResponse {
    PrDetailResponse {
        id: id.to_string(),
        node_id: "node".to_string(),
        owner: "org".to_string(),
        repo: "repo".to_string(),
        number: 1,
        title: "Test PR".to_string(),
        body: String::new(),
        url: "https://example.com".to_string(),
        author: "other".to_string(),
        is_draft: false,
        updated_at: "2024-01-01T00:00:00Z".to_string(),
        head_ref: "feature".to_string(),
        base_ref: "main".to_string(),
        mergeable: MergeableState::Mergeable,
        review_decision: None,
        review_requests: vec![],
        team_review_requests: vec![],
        viewer_latest_review: None,
        latest_reviews: vec![],
        check_status: CheckStatus::Absent,
        checks: vec![],
        review_threads: vec![],
        files: vec![],
        timeline: (0..n)
            .map(|i| TimelineEvent {
                event_type: TimelineEventType::Comment,
                actor: format!("user{i}"),
                created_at: format!("2024-01-01T00:00:{:02}Z", i % 60),
                detail: String::new(),
                url: String::new(),
            })
            .collect(),
        llm_priority: None,
        llm_summary: None,
        llm_rich_summary: None,
        last_seen_at: None,
    }
}

#[test]
fn activity_selection_keeps_header_visible() {
    let mut groups = PrGroups::new();
    groups.insert(
        PrGroup::ReviewNeeded,
        vec![make_summary(
            "org~repo~1",
            PrGroup::ReviewNeeded,
            "other",
            None,
        )],
    );
    let mut state = make_test_state(groups);
    state.selected_pr_id = Some("org~repo~1".to_string());
    let mut mgr = ViewStateManager::new();
    mgr.view.active_blade = Blade::Activity;
    let layout = make_layout(120, 30, Blade::Activity);

    // Settle the initial selection, then load a detail with far more
    // events than the viewport holds.
    mgr.prepare(&mut state, &layout);
    state.detail_needs_reload = false;
    state.diff_needs_reload = false;
    state.pr_detail = Some(detail_with_timeline("org~repo~1", 40));

    mgr.view.activity_selected = 39;
    mgr.prepare(&mut state, &layout);

    assert_eq!(mgr.view.activity_event_starts.len(), 40);
    let start = mgr.view.activity_event_starts[39];
    let scroll = &mgr.view.activity_scroll;
    assert!(scroll.viewport_height > 0);
    assert!(
        start >= scroll.offset && start < scroll.offset + scroll.viewport_height,
        "selected header (line {start}) must be inside the viewport \
         [{}, {})",
        scroll.offset,
        scroll.offset + scroll.viewport_height
    );

    // A stale selection index is clamped before flattening.
    mgr.view.activity_selected = 500;
    mgr.view.activity_expanded.insert(500);
    mgr.prepare(&mut state, &layout);
    assert_eq!(mgr.view.activity_selected, 39);
    assert!(mgr.view.activity_expanded.is_empty());
}

#[test]
fn overview_focus_cycles_over_visible_sections() {
    // Everything visible: Summary → Problems → Description → LastActivity.
    let mut focus = OverviewFocus::Summary;
    focus = focus.next(true, true);
    assert_eq!(focus, OverviewFocus::Problems);
    focus = focus.next(true, true);
    assert_eq!(focus, OverviewFocus::Description);
    focus = focus.next(true, true);
    assert_eq!(focus, OverviewFocus::LastActivity);
    focus = focus.next(true, true);
    assert_eq!(focus, OverviewFocus::Summary);
    focus = focus.prev(true, true);
    assert_eq!(focus, OverviewFocus::LastActivity);

    // Absent sections are skipped entirely.
    let mut focus = OverviewFocus::Description;
    focus = focus.next(false, false);
    assert_eq!(focus, OverviewFocus::LastActivity);
    focus = focus.next(false, false);
    assert_eq!(focus, OverviewFocus::Description);

    // A stale focus on an absent section restarts from Description.
    let focus = OverviewFocus::Problems.next(true, false);
    assert_eq!(focus, OverviewFocus::LastActivity);
}

#[test]
fn overview_focus_normalizes_when_section_disappears() {
    let mut groups = PrGroups::new();
    groups.insert(
        PrGroup::ReviewNeeded,
        vec![make_summary(
            "org~repo~1",
            PrGroup::ReviewNeeded,
            "other",
            None,
        )],
    );
    let mut state = make_test_state(groups);
    let mut mgr = ViewStateManager::new();
    mgr.view.active_blade = Blade::Overview;
    mgr.view.overview_focus = OverviewFocus::Problems;
    let layout = make_layout(120, 30, Blade::Overview);

    mgr.prepare(&mut state, &layout);

    assert!(state.render_cache.overview_problems.is_empty());
    assert_eq!(
        mgr.view.overview_focus,
        OverviewFocus::Description,
        "focus on an absent section resets to Description"
    );
}
