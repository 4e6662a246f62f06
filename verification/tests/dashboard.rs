//! Keys, navigation, events and what the daemon's answers change.
use brunson::api::{
    DiffResponse, HealthResponse, PrDetailResponse, PrGroups, PrListResponse, PrSummary,
    SetupStatusResponse,
};
use brunson::app::AppState;
use brunson::config::Config;
use brunson::daemon::{daemon_binary_is_current, SERVICE_NAME};
use brunson::draw::Rect;
use brunson::events::{coalesce_ticks, TuiEvent};
use brunson::github::{CheckStatus, MergeableState, PrGroup, Priority};
use brunson::keys::{Action, KeyCode, KeyEvent};
use brunson::layout::RootLayout;
use brunson::state::ViewStateManager;
use brunson::theme::Blade;

fn make_test_state(groups: PrGroups) -> AppState {
    let config = Config::default();
    let mut state = AppState::new(config);
    state.prs = PrListResponse {
        groups,
        updated_at: "2024-01-01T00:00:00Z".to_string(),
    };
    state.health = Some(HealthResponse {
        service: SERVICE_NAME.to_string(),
        version: "0.1.0".to_string(),
        status: "ok".to_string(),
        current_user: "me".to_string(),
        last_poll_at: None,
        last_poll_error: None,
        rate_limit_remaining: None,
        refresh_in_progress: false,
        setup_status: "ready".to_string(),
        setup_message: None,
        binary_mtime: None,
    });
    state
}

#[test]
fn daemon_binary_is_current_matches_reported_mtime() {
    let our_mtime: u64 = 1_700_000_000_000;

    let make_health = |binary_mtime: Option<u64>| HealthResponse {
        service: SERVICE_NAME.to_string(),
        version: "0.1.0".to_string(),
        status: "ok".to_string(),
        current_user: "me".to_string(),
        last_poll_at: None,
        last_poll_error: None,
        rate_limit_remaining: None,
        refresh_in_progress: false,
        setup_status: "ready".to_string(),
        setup_message: None,
        binary_mtime,
    };

    assert!(daemon_binary_is_current(&make_health(Some(our_mtime)), Some(our_mtime)));
    assert!(!daemon_binary_is_current(
        &make_health(Some(our_mtime.wrapping_add(1))),
        Some(our_mtime)
    ));
    // Fail open when either side couldn't determine an mtime, rather
    // than forcing an unnecessary restart.
    assert!(daemon_binary_is_current(&make_health(None), Some(our_mtime)));
    assert!(daemon_binary_is_current(&make_health(Some(our_mtime)), None));
}

fn make_summary(
    id: &str,
    group: PrGroup,
    author: &str,
    priority: Option<Priority>,
) -> PrSummary {
    PrSummary {
        id: id.to_string(),
        node_id: "node".to_string(),
        owner: "org".to_string(),
        repo: "repo".to_string(),
        number: id.split('~').next_back().unwrap().parse().unwrap_or(1),
        title: format!("Test {}", id),
        author: author.to_string(),
        author_is_bot: false,
        group,
        next_action: "Review now".to_string(),
        check_status: CheckStatus::Absent,
        llm_priority: priority,
        updated_at: "2024-01-01T00:00:00Z".to_string(),
        url: "https://example.com".to_string(),
        comments: 0,
        head_ref: String::new(),
        llm_one_line: None,
    }
}

fn make_detail(id: &str, updated_at: &str, priority: Option<Priority>) -> PrDetailResponse {
    let parts: Vec<&str> = id.split('~').collect();
    PrDetailResponse {
        id: id.to_string(),
        node_id: "node".to_string(),
        owner: parts.first().unwrap_or(&"org").to_string(),
        repo: parts.get(1).unwrap_or(&"repo").to_string(),
        number: parts.get(2).and_then(|n| n.parse().ok()).unwrap_or(1),
        title: "Test PR".to_string(),
        body: String::new(),
        url: "https://example.com".to_string(),
        author: "other".to_string(),
        is_draft: false,
        updated_at: updated_at.to_string(),
        head_ref: "feature".to_string(),
        base_ref: "main".to_string(),
        mergeable: MergeableState::Mergeable,
        review_decision: None,
        review_requests: vec![],
        team_review_requests: vec![],
        viewer_latest_review: None,
        latest_reviews: vec![],
        check_status: CheckStatus::Absent,
        checks: vec![],
        review_threads: vec![],
        files: vec![],
        timeline: vec![],
        llm_priority: priority,
        llm_summary: None,
        llm_rich_summary: None,
        last_seen_at: None,
    }
}

#[test]
fn selected_detail_is_marked_stale_when_summary_updated_at_changes() {
    let mut groups = PrGroups::new();
    groups.insert(
        PrGroup::ReviewNeeded,
        vec![make_summary(
            "org~repo~1",
            PrGroup::ReviewNeeded,
            "other",
            None,
        )],
    );
    let mut state = make_test_state(groups);
    state.selected_pr_id = Some("org~repo~1".to_string());
    state.pr_detail = Some(make_detail("org~repo~1", "2023-01-01T00:00:00Z", None));
    state.pr_diff = Some(DiffResponse {
        diff: "diff --git a/a b/a\n".to_string(),
        cached: true,
    });
    state.reconcile_selected_detail_freshness();

    assert!(state.detail_needs_reload);
    assert!(state.diff_needs_reload);
    assert!(state.pr_detail.is_none());
    assert!(state.pr_diff.is_none());
}

#[test]
fn preparing_after_accepting_a_new_detail_and_diff_rebuilds_render_cache() {
    let mut groups = PrGroups::new();
    groups.insert(
        PrGroup::ReviewNeeded,
        vec![make_summary(
            "org~repo~1",
            PrGroup::ReviewNeeded,
            "other",
            None,
        )],
    );
    let mut state = make_test_state(groups);
    let mut view = ViewStateManager::new();
    let layout =
        RootLayout::new(Blade::Overview).compute(Rect::new(0, 0, 80, 24));

    state.selected_pr_id = Some("org~repo~1".to_string());
    view.prepare(&mut state, &layout);
    state.detail_needs_reload = false;
    state.diff_needs_reload = false;
    assert!(
        state.render_cache.overview_summary.is_empty(),
        "no detail loaded yet, so overview_summary should be empty"
    );
    assert!(state.render_cache.diff_lines.is_empty());

    let mut detail = make_detail("org~repo~1", "2024-01-01T00:00:00Z", None);
    detail.llm_summary = Some("New summary".to_string());
    state.accept_detail(detail);
    view.prepare(&mut state, &layout);
    assert!(
        !state.render_cache.overview_summary.is_empty(),
        "a newly accepted detail with a summary must rebuild the overview cache"
    );

    state.accept_diff(DiffResponse {
        diff: "diff --git a/a.txt b/a.txt\n@@ -1,1 +1,1 @@\n-old\n+new\n".to_string(),
        cached: false,
    });
    view.prepare(&mut state, &layout);
    assert!(
        !state.render_cache.diff_lines.is_empty(),
        "a newly accepted diff must rebuild the diff cache"
    );
    assert!(state.pr_diff.is_some());
}

#[test]
fn test_move_selection_updates_detail_flag() {
    let mut groups = PrGroups::new();
    groups.insert(
        PrGroup::ReviewNeeded,
        vec![
            make_summary("a~b~1", PrGroup::ReviewNeeded, "other", None),
            make_summary("a~b~2", PrGroup::ReviewNeeded, "other", None),
        ],
    );

    let mut state = make_test_state(groups);
    let mut view = ViewStateManager::new();
    let layout =
        RootLayout::new(Blade::Inbox).compute(Rect::new(0, 0, 80, 24));
    view.prepare(&mut state, &layout);

    state.move_selection(&mut view, 1);
    view.prepare(&mut state, &layout);
    // Rows: [header, a~b~1, a~b~2]; the cursor starts on a~b~1 and moves to a~b~2.
    assert_eq!(view.view.selected_row, 2);
    assert_eq!(state.selected_pr_id, Some("a~b~2".to_string()));
    assert!(state.detail_needs_reload);
    assert!(state.diff_needs_reload);
}

#[test]
fn test_blade_navigation_clamps() {
    let mut groups = PrGroups::new();
    groups.insert(
        PrGroup::ReviewNeeded,
        vec![make_summary("a~b~1", PrGroup::ReviewNeeded, "other", None)],
    );

    let mut state = make_test_state(groups);
    let mut view = ViewStateManager::new();
    assert_eq!(view.view.active_blade, Blade::Inbox);

    state.prev_blade(&mut view); // cannot go left from Inbox
    assert_eq!(view.view.active_blade, Blade::Inbox);

    for _ in 0..6 {
        state.next_blade(&mut view);
    }
    assert_eq!(view.view.active_blade, Blade::Diff);
}

#[test]
fn test_jump_to_blade_number() {
    let mut groups = PrGroups::new();
    groups.insert(
        PrGroup::ReviewNeeded,
        vec![make_summary("a~b~1", PrGroup::ReviewNeeded, "other", None)],
    );

    let mut state = make_test_state(groups);
    let mut view = ViewStateManager::new();
    state.jump_to_blade(&mut view, 3);
    assert_eq!(view.view.active_blade, Blade::Activity);
    state.jump_to_blade(&mut view, 1);
    assert_eq!(view.view.active_blade, Blade::Inbox);
}

#[test]
fn test_quit_key() {
    let groups = PrGroups::new();
    let mut state = make_test_state(groups);
    let mut view = ViewStateManager::new();

    let action = state.handle_key(
        &mut view,
        KeyEvent::plain(KeyCode::Char('q')),
    );
    assert_eq!(action, Action::Quit);
}

#[test]
fn test_right_left_navigate_blades() {
    let mut groups = PrGroups::new();
    groups.insert(
        PrGroup::ReviewNeeded,
        vec![make_summary("a~b~1", PrGroup::ReviewNeeded, "other", None)],
    );

    let mut state = make_test_state(groups);
    let mut view = ViewStateManager::new();
    state.selected_pr_id = Some("a~b~1".to_string());
    assert_eq!(view.view.active_blade, Blade::Inbox);

    state.handle_key(
        &mut view,
        KeyEvent::plain(KeyCode::Right),
    );
    assert_eq!(view.view.active_blade, Blade::Overview);

    state.handle_key(
        &mut view,
        KeyEvent::plain(KeyCode::Left),
    );
    assert_eq!(view.view.active_blade, Blade::Inbox);
}

fn key(code: KeyCode) -> KeyEvent {
    KeyEvent::plain(code)
}

#[test]
fn ctrl_y_without_detail_reports_a_copy_error() {
    let mut state = make_test_state(PrGroups::new());
    let mut view = ViewStateManager::new();

    let action = state.handle_key(
        &mut view,
        KeyEvent::with_ctrl(KeyCode::Char('y')),
    );

    assert_eq!(action, Action::Idle);
    assert!(state
        .error_message
        .as_deref()
        .is_some_and(|message| message.starts_with("Copy branch failed:")));
}

#[test]
fn slash_opens_search_overlay() {
    let mut state = make_test_state(PrGroups::new());
    let mut view = ViewStateManager::new();
    let action = state.handle_key(&mut view, key(KeyCode::Char('/')));
    assert_eq!(action, Action::Idle);
    assert!(state.show_search);
    assert!(state.search_filter.is_empty());
}

#[test]
fn slash_clears_active_filter_and_closes_overlay() {
    let mut state = make_test_state(PrGroups::new());
    state.show_search = true;
    state.search_filter = "foo".to_string();
    let mut view = ViewStateManager::new();
    let action = state.handle_key(&mut view, key(KeyCode::Char('/')));
    assert_eq!(action, Action::Idle);
    assert!(!state.show_search);
    assert!(state.search_filter.is_empty());
}

#[test]
fn typing_appends_to_search_filter() {
    let mut state = make_test_state(PrGroups::new());
    state.show_search = true;
    let mut view = ViewStateManager::new();
    state.handle_key(&mut view, key(KeyCode::Char('f')));
    state.handle_key(&mut view, key(KeyCode::Char('o')));
    state.handle_key(&mut view, key(KeyCode::Char('o')));
    assert_eq!(state.search_filter, "foo");
    assert!(state.show_search);
}

#[test]
fn backspace_deletes_last_char_and_keeps_overlay_open() {
    let mut state = make_test_state(PrGroups::new());
    state.show_search = true;
    state.search_filter = "x".to_string();
    let mut view = ViewStateManager::new();
    let action = state.handle_key(&mut view, key(KeyCode::Backspace));
    assert_eq!(action, Action::Idle);
    assert!(
        state.show_search,
        "backspace must not close the overlay even when it empties the filter"
    );
    assert!(state.search_filter.is_empty());
}

#[test]
fn backspace_on_empty_filter_is_a_noop() {
    let mut state = make_test_state(PrGroups::new());
    state.show_search = true;
    state.search_filter = String::new();
    let mut view = ViewStateManager::new();
    let action = state.handle_key(&mut view, key(KeyCode::Backspace));
    assert_eq!(action, Action::Idle);
    assert!(state.show_search, "backspace on empty stays open");
    assert!(state.search_filter.is_empty());
}

#[test]
fn esc_cancels_filter_and_restores_prior_value() {
    let mut state = make_test_state(PrGroups::new());
    // Open the overlay with an existing filter: `/` snapshots it.
    state.search_filter = "keep".to_string();
    let mut view = ViewStateManager::new();
    state.handle_key(&mut view, key(KeyCode::Char('/')));
    assert!(state.show_search);
    // Edit the live filter, then cancel with Esc.
    state.handle_key(&mut view, key(KeyCode::Char('x')));
    assert_eq!(state.search_filter, "keepx");
    let action = state.handle_key(&mut view, key(KeyCode::Esc));
    assert_eq!(action, Action::Idle);
    assert!(!state.show_search, "Esc closes the overlay");
    assert_eq!(
        state.search_filter, "keep",
        "Esc restores the filter captured when the overlay opened"
    );
}

#[test]
fn enter_accepts_filter_and_closes_overlay() {
    let mut state = make_test_state(PrGroups::new());
    let mut view = ViewStateManager::new();
    state.handle_key(&mut view, key(KeyCode::Char('/')));
    state.handle_key(&mut view, key(KeyCode::Char('a')));
    let action = state.handle_key(&mut view, key(KeyCode::Enter));
    assert_eq!(action, Action::Idle);
    assert!(!state.show_search);
    assert_eq!(state.search_filter, "a", "Enter keeps the typed filter");
}

#[test]
fn esc_steps_out_to_inbox_from_deeper_blade() {
    let mut state = make_test_state(PrGroups::new());
    let mut view = ViewStateManager::new();
    view.view.active_blade = Blade::Files;
    state.handle_key(&mut view, key(KeyCode::Esc));
    assert_eq!(view.view.active_blade, Blade::Inbox);
}

#[test]
fn esc_on_inbox_clears_filter_before_dismissing_toast() {
    let mut state = make_test_state(PrGroups::new());
    state.search_filter = "foo".to_string();
    state.error_message = Some("stale".to_string());
    let mut view = ViewStateManager::new();
    assert_eq!(view.view.active_blade, Blade::Inbox);

    state.handle_key(&mut view, key(KeyCode::Esc));
    assert!(
        state.search_filter.is_empty(),
        "first Esc clears the filter"
    );
    assert!(
        state.error_message.is_some(),
        "the toast survives while a filter is still active"
    );

    state.handle_key(&mut view, key(KeyCode::Esc));
    assert!(
        state.error_message.is_none(),
        "with no filter left, Esc dismisses the toast"
    );
}

#[test]
fn g_and_capital_g_jump_inbox_rows() {
    let mut groups = PrGroups::new();
    groups.insert(
        PrGroup::ReviewNeeded,
        vec![
            make_summary("o~r~1", PrGroup::ReviewNeeded, "other", None),
            make_summary("o~r~2", PrGroup::ReviewNeeded, "other", None),
            make_summary("o~r~3", PrGroup::ReviewNeeded, "other", None),
        ],
    );
    let mut state = make_test_state(groups);
    let mut view = ViewStateManager::new();
    let layout =
        RootLayout::new(Blade::Inbox).compute(Rect::new(0, 0, 80, 24));
    view.prepare(&mut state, &layout);
    // Rows: [header, o~r~1, o~r~2, o~r~3]; the cursor starts on the first PR.
    state.handle_key(&mut view, key(KeyCode::Char('G')));
    assert_eq!(view.view.selected_row, 3, "G jumps to the last row");
    state.handle_key(&mut view, key(KeyCode::Char('g')));
    assert_eq!(
        view.view.selected_row, 0,
        "g jumps to the first row (header)"
    );
}

#[test]
fn d_toggles_overview_description_expansion() {
    let mut state = make_test_state(PrGroups::new());
    let mut view = ViewStateManager::new();
    view.view.active_blade = Blade::Overview;
    assert!(!view.view.overview_description_expanded);
    state.handle_key(&mut view, key(KeyCode::Char('d')));
    assert!(view.view.overview_description_expanded);
    state.handle_key(&mut view, key(KeyCode::Char('d')));
    assert!(!view.view.overview_description_expanded);
}

#[test]
fn help_modal_opens_closes_and_swallows_keys() {
    let mut state = make_test_state(PrGroups::new());
    let mut view = ViewStateManager::new();

    // `?` opens it.
    let action = state.handle_key(&mut view, key(KeyCode::Char('?')));
    assert_eq!(action, Action::Idle);
    assert!(state.show_help);

    // While open, an unrelated key is swallowed — no blade change, no quit.
    let action = state.handle_key(&mut view, key(KeyCode::Char('l')));
    assert_eq!(action, Action::Idle);
    assert!(state.show_help);
    assert_eq!(view.view.active_blade, Blade::Inbox);

    // `q` closes the modal rather than quitting the app.
    let action = state.handle_key(&mut view, key(KeyCode::Char('q')));
    assert_eq!(action, Action::Idle);
    assert!(!state.show_help);

    // Esc closes it too.
    state.handle_key(&mut view, key(KeyCode::Char('?')));
    assert!(state.show_help);
    state.handle_key(&mut view, key(KeyCode::Esc));
    assert!(!state.show_help);
}

#[test]
fn question_mark_types_into_filter_when_search_is_open() {
    let mut state = make_test_state(PrGroups::new());
    state.show_search = true;
    let mut view = ViewStateManager::new();
    state.handle_key(&mut view, key(KeyCode::Char('?')));
    assert!(!state.show_help, "? must not open help while filtering");
    assert_eq!(state.search_filter, "?");
}

#[test]
fn slash_with_empty_filter_keeps_overlay_open() {
    let mut state = make_test_state(PrGroups::new());
    state.show_search = true;
    state.search_filter = String::new();
    let mut view = ViewStateManager::new();
    let action = state.handle_key(&mut view, key(KeyCode::Char('/')));
    assert_eq!(action, Action::Idle);
    assert!(state.show_search, "empty-query / should keep overlay open");
}

#[test]
fn review_stub_keys_are_noops() {
    for c in ['a', 'm'] {
        let mut state = make_test_state(PrGroups::new());
        let mut view = ViewStateManager::new();
        let action = state.handle_key(&mut view, key(KeyCode::Char(c)));
        assert_eq!(action, Action::Idle, "{} should not produce an action", c);
        assert!(
            state.error_message.is_none(),
            "{} should not show a stub toast",
            c
        );
    }
}

#[test]
fn coalesce_ticks_collapses_repeated_ticks_and_preserves_other_order() {
    let events = vec![
        TuiEvent::DataTick,
        TuiEvent::UiTick,
        TuiEvent::Resize,
        TuiEvent::DataTick,
        TuiEvent::UiTick,
        TuiEvent::Resize,
    ];
    let (data_tick, ui_tick, rest) = coalesce_ticks(events);
    assert!(data_tick);
    assert!(ui_tick);
    assert_eq!(rest.len(), 2, "only the two Resize events should remain");
    assert!(rest.iter().all(|e| matches!(e, TuiEvent::Resize)));
}

#[test]
fn coalesce_ticks_reports_false_when_no_ticks_queued() {
    let (data_tick, ui_tick, rest) = coalesce_ticks(vec![TuiEvent::Resize]);
    assert!(!data_tick);
    assert!(!ui_tick);
    assert_eq!(rest.len(), 1);
}

#[test]
fn accept_prs_clears_inflight_and_applies_success() {
    let mut state = make_test_state(PrGroups::new());
    state.refresh_inflight = true;
    state.loading = true;
    let mut groups = PrGroups::new();
    groups.insert(
        PrGroup::ReviewNeeded,
        vec![make_summary("a~b~1", PrGroup::ReviewNeeded, "other", None)],
    );
    state.accept_prs(Ok(PrListResponse {
        groups,
        updated_at: "2024-01-01T00:00:00Z".to_string(),
    }));
    assert!(!state.refresh_inflight);
    assert!(!state.loading);
    assert_eq!(state.prs.groups.len(), 1);
}

#[test]
fn accept_prs_clears_inflight_and_toasts_on_failure() {
    let mut state = make_test_state(PrGroups::new());
    state.refresh_inflight = true;
    state.accept_prs(Err("boom".to_string()));
    assert!(!state.refresh_inflight);
    assert!(!state.loading);
    assert!(state.error_message.unwrap().contains("boom"));
}

#[test]
fn accept_setup_status_auto_opens_wizard_when_not_ready() {
    let mut state = make_test_state(PrGroups::new());
    assert!(state.setup_wizard.is_none());
    state.accept_setup_status(Ok(SetupStatusResponse {
        ready: false,
        ..Default::default()
    }));
    assert!(
        state.setup_wizard.is_some(),
        "an unready setup status should auto-open the wizard"
    );
}

#[test]
fn accept_setup_status_leaves_wizard_closed_when_ready() {
    let mut state = make_test_state(PrGroups::new());
    state.accept_setup_status(Ok(SetupStatusResponse {
        ready: true,
        ..Default::default()
    }));
    assert!(state.setup_wizard.is_none());
}
