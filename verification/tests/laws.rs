//! What holds of the library as a whole, on concrete values.
use brunson::api::{
    ConfigPreviewCountsResponse, DiffResponse, HealthResponse, MembershipsResponse, OrgMembership,
    PrDetailResponse, PrGroups, PrListResponse, PrSummary, TeamMembership,
};
use brunson::app::{AppState, Command, StartupPhase};
use brunson::cache::RenderCache;
use brunson::config::{Config, GithubTarget};
use brunson::draw::Rect;
use brunson::events::{handle_event, process_events, LoopControl, StartupLoad, TuiEvent};
use brunson::github::{CheckStatus, MergeableState, PrGroup, Priority};
use brunson::inbox_rows::{
    build_inbox_rows, find_row, resolve_cursor_row, selected_pr_for_row, InboxCursor, InboxRow,
    InboxSection, SectionFolds,
};
use brunson::keys::{Action, KeyCode, KeyEvent};
use brunson::layout::RootLayout;
use brunson::scroll::{OverviewFocus, ScrollState};
use brunson::state::ViewStateManager;
use brunson::theme::Blade;
use brunson::wizard::{
    handle_live_preview_key, handle_target_detail_key, handle_target_picker_key,
    handle_watch_mode_key, handle_wizard_key, AsyncResource, SetupWizardState, WatchModeChoice,
    WizardStep,
};

fn key(code: KeyCode) -> KeyEvent {
    KeyEvent::plain(code)
}

fn pr(id: &str, group: PrGroup, priority: Option<Priority>, updated_at: &str) -> PrSummary {
    PrSummary {
        id: id.to_string(),
        node_id: String::new(),
        owner: "org".to_string(),
        repo: "repo".to_string(),
        number: 7,
        title: format!("Title {id}"),
        author: "alice".to_string(),
        author_is_bot: false,
        group,
        next_action: "Review now".to_string(),
        check_status: CheckStatus::Success,
        llm_priority: priority,
        updated_at: updated_at.to_string(),
        url: "https://example.com".to_string(),
        comments: 0,
        head_ref: "branch".to_string(),
        llm_one_line: None,
    }
}

fn detail(id: &str) -> PrDetailResponse {
    PrDetailResponse {
        id: id.to_string(),
        node_id: String::new(),
        owner: "org".to_string(),
        repo: "repo".to_string(),
        number: 7,
        title: "Title".to_string(),
        body: "Body".to_string(),
        url: "https://example.com/7".to_string(),
        author: "alice".to_string(),
        is_draft: false,
        updated_at: "2024-01-01T00:00:00Z".to_string(),
        head_ref: "  feature/x ".to_string(),
        base_ref: "main".to_string(),
        mergeable: MergeableState::Mergeable,
        review_decision: None,
        review_requests: vec![],
        team_review_requests: vec![],
        viewer_latest_review: None,
        latest_reviews: vec![],
        check_status: CheckStatus::Success,
        checks: vec![],
        review_threads: vec![],
        files: vec![],
        timeline: vec![],
        llm_priority: None,
        llm_summary: Some("Short".to_string()),
        llm_rich_summary: None,
        last_seen_at: None,
    }
}

fn state_with(prs: Vec<PrSummary>) -> AppState {
    let mut state = AppState::new(Config::default());
    let mut groups = PrGroups::new();
    groups.insert(PrGroup::ReviewNeeded, prs);
    state.prs = PrListResponse { groups, updated_at: "2024-01-01T00:00:00Z".to_string() };
    state.startup_phase = StartupPhase::Ready;
    state
}

fn two_prs() -> AppState {
    state_with(vec![
        pr("o~r~1", PrGroup::ReviewNeeded, None, "2024-01-01T00:00:00Z"),
        pr("o~r~2", PrGroup::ReviewNeeded, None, "2024-01-01T00:00:00Z"),
    ])
}

fn prepared(state: &mut AppState, blade: Blade) -> ViewStateManager {
    let mut view = ViewStateManager::new();
    view.view.active_blade = blade;
    let layout = RootLayout::new(blade).compute(Rect::new(0, 0, 80, 24));
    view.prepare(state, &layout);
    view
}

fn kinds(commands: &[Command]) -> Vec<String> {
    commands
        .iter()
        .map(|c| match c {
            Command::StartUp => "startup".to_string(),
            Command::RefreshPrs { trigger } => format!("refresh {trigger}"),
            Command::LoadDetail(id) => format!("detail {id}"),
            Command::LoadDiff(id) => format!("diff {id}"),
            Command::Classify(id) => format!("classify {id}"),
            Command::MarkSeen(id) => format!("seen {id}"),
            Command::OpenUrl(url) => format!("open {url}"),
            Command::CopyBranch(b) => format!("copy {b}"),
            Command::PreviewCounts(_) => "preview".to_string(),
            Command::WriteConfig { path, .. } => format!("write {path}"),
            Command::CheckAuth => "auth".to_string(),
            Command::LoadMemberships => "memberships".to_string(),
            Command::ReloadConfig => "reload".to_string(),
            Command::FetchConfigView => "config".to_string(),
            Command::FetchAppliedConfig => "applied".to_string(),
        })
        .collect()
}

// Keys.

#[test]
fn interrupt_quits_from_everywhere() {
    let mut state = two_prs();
    state.open_wizard();
    state.show_search = true;
    let mut view = ViewStateManager::new();
    let action = state.handle_key(&mut view, KeyEvent::with_ctrl(KeyCode::Char('c')));
    assert_eq!(action, Action::Quit);
    assert!(state.setup_wizard.is_some());
}

#[test]
fn help_scrolls_and_swallows() {
    let mut state = two_prs();
    state.show_help = true;
    let mut view = ViewStateManager::new();
    assert_eq!(state.handle_key(&mut view, key(KeyCode::Char('j'))), Action::Idle);
    assert_eq!(state.help_scroll, 1);
    assert_eq!(state.handle_key(&mut view, key(KeyCode::Char('R'))), Action::Idle);
    assert!(!state.loading);
    assert_eq!(state.handle_key(&mut view, key(KeyCode::Up)), Action::Idle);
    assert_eq!(state.help_scroll, 0);
}

#[test]
fn cancelled_search_brings_the_filter_back() {
    let mut state = two_prs();
    state.search_filter = "ab".to_string();
    let mut view = ViewStateManager::new();
    state.handle_key(&mut view, key(KeyCode::Char('/')));
    for code in [KeyCode::Char('x'), KeyCode::Backspace, KeyCode::Backspace, KeyCode::Up] {
        state.handle_key(&mut view, key(code));
    }
    assert_eq!(state.search_filter, "a");
    state.handle_key(&mut view, key(KeyCode::Esc));
    assert_eq!(state.search_filter, "ab");
    assert!(!state.show_search);
}

#[test]
fn folding_a_section_twice_restores_it() {
    let mut state = two_prs();
    let mut view = prepared(&mut state, Blade::Inbox);
    let section = InboxSection::Group(PrGroup::ReviewNeeded);
    assert!(!view.view.collapsed_sections.is_collapsed(section));
    state.toggle_collapse_current(&mut view);
    assert!(view.view.collapsed_sections.is_collapsed(section));
    assert_eq!(view.view.inbox_cursor, InboxCursor::Section(section));
    assert!(view.view.collapsed_sections.is_collapsed(InboxSection::Dependencies));
    state.toggle_collapse_current(&mut view);
    assert!(!view.view.collapsed_sections.is_collapsed(section));
}

#[test]
fn a_blade_deeper_and_back() {
    let mut state = two_prs();
    let mut view = ViewStateManager::new();
    for blade in [Blade::Inbox, Blade::Overview, Blade::Activity, Blade::Files] {
        view.view.active_blade = blade;
        state.next_blade(&mut view);
        assert_eq!(view.view.active_blade.index(), blade.index() + 1);
        state.prev_blade(&mut view);
        assert_eq!(view.view.active_blade, blade);
    }
}

#[test]
fn diff_is_dropped_on_leaving_and_asked_for_on_entering() {
    let mut state = two_prs();
    let mut view = ViewStateManager::new();
    view.view.active_blade = Blade::Diff;
    state.pr_diff = Some(DiffResponse { diff: "x".to_string(), cached: false });
    state.diff_needs_reload = false;
    state.error_message = Some("old news".to_string());
    state.set_active_blade(&mut view, Blade::Inbox);
    assert!(state.pr_diff.is_none());
    assert!(state.error_message.is_none());
    assert!(!state.diff_needs_reload);
    state.set_active_blade(&mut view, Blade::Diff);
    assert!(state.diff_needs_reload);
}

#[test]
fn refresh_keys_do_not_pile_up() {
    let mut state = two_prs();
    let mut view = ViewStateManager::new();
    let events = vec![
        TuiEvent::Key(key(KeyCode::Char('R'))),
        TuiEvent::Key(key(KeyCode::Char('r'))),
        TuiEvent::DataTick,
        TuiEvent::DataTick,
    ];
    assert_eq!(process_events(&mut state, &mut view, events), LoopControl::Continue);
    assert_eq!(kinds(&state.take_commands()), vec!["refresh true"]);
    assert!(state.take_commands().is_empty());
}

#[test]
fn cursor_stays_on_the_rows() {
    let mut state = two_prs();
    let mut view = prepared(&mut state, Blade::Inbox);
    state.move_selection(&mut view, 1000);
    assert_eq!(view.view.selected_row, 2);
    state.move_selection(&mut view, i32::MIN);
    assert_eq!(view.view.selected_row, 0);
}

#[test]
fn files_follow_the_diff() {
    let mut state = two_prs();
    let mut view = ViewStateManager::new();
    view.view.active_blade = Blade::Diff;
    state.render_cache.diff_file_boundaries = vec![0, 10, 30];
    view.view.diff_scroll.set_content_viewport(100, 20);
    view.view.diff_scroll.scroll_to(29);
    state.sync_selected_file_to_diff_scroll(&mut view);
    assert_eq!(view.view.selected_file_index, 1);
    state.jump_diff_file(&mut view, 1);
    assert_eq!((view.view.selected_file_index, view.view.diff_scroll.offset), (2, 30));
    state.handle_key(&mut view, key(KeyCode::BackTab));
    assert_eq!((view.view.selected_file_index, view.view.diff_scroll.offset), (1, 10));
    state.handle_key(&mut view, key(KeyCode::Char('f')));
    assert_eq!(view.view.selected_file_index, 2);
    state.page_diff(&mut view, -1);
    assert_eq!((view.view.selected_file_index, view.view.diff_scroll.offset), (1, 10));
    state.render_cache.diff_file_boundaries.clear();
    state.jump_diff_file(&mut view, 1);
    assert_eq!(view.view.selected_file_index, 1);
}

#[test]
fn changing_the_file_asks_for_its_diff() {
    let mut state = two_prs();
    let mut view = ViewStateManager::new();
    view.view.active_blade = Blade::Files;
    let mut d = detail("o~r~1");
    for name in ["a", "b", "c"] {
        d.files.push(brunson::api::FileDto {
            path: name.to_string(),
            additions: 1,
            deletions: 0,
            status: 'M',
        });
    }
    state.pr_detail = Some(d);
    state.diff_needs_reload = false;
    state.move_file_selection(&mut view, 5);
    assert_eq!(view.view.selected_file_index, 2);
    assert!(state.diff_needs_reload);
    state.diff_needs_reload = false;
    state.set_selected_file_index(&mut view, 9);
    assert!(!state.diff_needs_reload);
    state.open_selected_file_diff(&mut view);
    assert_eq!(view.view.active_blade, Blade::Diff);
}

#[test]
fn overview_scrolls_the_focused_section() {
    let mut state = two_prs();
    let mut view = ViewStateManager::new();
    view.view.active_blade = Blade::Overview;
    view.view.overview_focus = OverviewFocus::Description;
    view.view.overview_description_scroll.set_content_viewport(10, 4);
    state.scroll_content(&mut view, 3);
    assert_eq!(view.view.overview_description_scroll.offset, 3);
    state.scroll_content(&mut view, 100);
    assert_eq!(view.view.overview_description_scroll.offset, 6);
    state.scroll_content(&mut view, -2);
    assert_eq!(view.view.overview_description_scroll.offset, 4);
}

#[test]
fn opening_and_copying_hand_out_commands() {
    let mut state = two_prs();
    state.open_pr_in_browser();
    assert!(state.take_commands().is_empty());
    state.pr_detail = Some(detail("o~r~1"));
    state.open_pr_in_browser();
    state.copy_selected_branch();
    assert_eq!(
        kinds(&state.take_commands()),
        vec!["open https://example.com/7", "copy feature/x"]
    );
    state.accept_copy("feature/x", Ok(()));
    assert_eq!(state.error_message.as_deref(), Some("Copied branch: feature/x"));
    state.accept_copy("feature/x", Err("no display".to_string()));
    assert_eq!(state.error_message.as_deref(), Some("Copy branch failed: no display"));
}

// Events.

#[test]
fn pumping_twice_hands_out_once() {
    let mut state = two_prs();
    state.selected_pr_id = Some("o~r~1".to_string());
    state.detail_needs_reload = true;
    state.diff_needs_reload = true;
    state.pump();
    state.pump();
    assert_eq!(
        kinds(&state.take_commands()),
        vec!["startup", "detail o~r~1", "diff o~r~1"]
    );
    assert!(state.detail_loading && state.diff_loading);
    assert!(!state.detail_needs_reload && !state.diff_needs_reload);
}

#[test]
fn late_results_change_nothing() {
    let mut state = two_prs();
    let mut view = ViewStateManager::new();
    state.selected_pr_id = Some("o~r~2".to_string());
    state.detail_loading = true;
    state.diff_loading = true;
    handle_event(&mut state, &mut view, TuiEvent::DetailLoaded("o~r~1".to_string(), Ok(detail("o~r~1"))));
    let late = DiffResponse { diff: "x".to_string(), cached: true };
    handle_event(&mut state, &mut view, TuiEvent::DiffLoaded("o~r~1".to_string(), Ok(late)));
    assert!(state.pr_detail.is_none());
    assert!(state.pr_diff.is_none());
    assert!(!state.detail_loading && !state.diff_loading);
    assert!(state.error_message.is_none());
}

#[test]
fn failed_fetches_are_reported() {
    let mut state = two_prs();
    let mut view = ViewStateManager::new();
    state.selected_pr_id = Some("o~r~1".to_string());
    let id = || "o~r~1".to_string();
    let fail = || "boom".to_string();
    let cases = vec![
        (TuiEvent::DetailLoaded(id(), Err(fail())), "Failed to load detail: boom"),
        (TuiEvent::DiffLoaded(id(), Err(fail())), "Failed to load diff: boom"),
        (TuiEvent::LlmClassified(id(), Err(fail())), "LLM summary failed: boom"),
        (TuiEvent::ConfigReloaded(Err(fail())), "Failed to reload config: boom"),
        (TuiEvent::StartupLoaded(Err(fail())), "boom"),
    ];
    for (event, text) in cases {
        handle_event(&mut state, &mut view, event);
        assert_eq!(state.error_message.as_deref(), Some(text));
    }
}

#[test]
fn detail_without_summary_asks_for_one_in_the_overview() {
    let mut state = two_prs();
    state.config.llm.enabled = true;
    let mut view = ViewStateManager::new();
    view.view.active_blade = Blade::Overview;
    state.selected_pr_id = Some("o~r~1".to_string());
    let loaded = || TuiEvent::DetailLoaded("o~r~1".to_string(), Ok(detail("o~r~1")));
    handle_event(&mut state, &mut view, loaded());
    handle_event(&mut state, &mut view, loaded());
    assert_eq!(kinds(&state.take_commands()), vec!["classify o~r~1"]);
    assert!(state.llm_detail_loading);
    handle_event(&mut state, &mut view, TuiEvent::LlmClassified("o~r~1".to_string(), Ok(())));
    assert!(!state.llm_detail_loading);
}

#[test]
fn ticks_wait_for_startup_and_the_wizard() {
    let mut state = two_prs();
    state.startup_phase = StartupPhase::Starting;
    let mut view = ViewStateManager::new();
    process_events(&mut state, &mut view, vec![TuiEvent::DataTick, TuiEvent::UiTick, TuiEvent::UiTick]);
    assert_eq!(state.ui_tick, 1);
    assert!(state.take_commands().is_empty());
    state.startup_phase = StartupPhase::Ready;
    state.open_wizard();
    process_events(&mut state, &mut view, vec![TuiEvent::DataTick]);
    assert!(state.take_commands().is_empty());
    state.setup_wizard = None;
    process_events(&mut state, &mut view, vec![TuiEvent::DataTick]);
    assert_eq!(kinds(&state.take_commands()), vec!["refresh false"]);
    process_events(&mut state, &mut view, vec![TuiEvent::DataTick]);
    assert!(state.take_commands().is_empty());
}

#[test]
fn quitting_leaves_the_rest_of_the_batch() {
    let mut state = two_prs();
    let mut view = ViewStateManager::new();
    let events = vec![
        TuiEvent::UiTick,
        TuiEvent::Key(key(KeyCode::Char('q'))),
        TuiEvent::Key(key(KeyCode::Char('/'))),
    ];
    assert_eq!(process_events(&mut state, &mut view, events), LoopControl::Quit);
    assert!(!state.show_search);
    assert_eq!(state.ui_tick, 0);
}

#[test]
fn startup_opens_the_wizard_while_setup_is_not_ready() {
    let mut state = AppState::new(Config::default());
    let mut view = ViewStateManager::new();
    let load = StartupLoad {
        setup_status: Default::default(),
        config: Config::default(),
        prs: PrListResponse { groups: PrGroups::new(), updated_at: String::new() },
        health: None,
    };
    assert!(state.is_valid());
    handle_event(&mut state, &mut view, TuiEvent::StartupLoaded(Ok(load)));
    assert_eq!(state.startup_phase, StartupPhase::Ready);
    assert!(state.setup_wizard.is_some());
    assert!(state.is_valid());
}

#[test]
fn written_configuration_closes_the_wizard() {
    let mut state = two_prs();
    let mut view = ViewStateManager::new();
    state.config_path = Some("/c.toml".to_string());
    state.open_wizard();
    if let Some(wizard) = state.setup_wizard.as_mut() {
        wizard.step = WizardStep::Confirm;
    }
    handle_event(&mut state, &mut view, TuiEvent::Key(key(KeyCode::Char('y'))));
    state.startup_spawned = true;
    state.pump();
    state.pump();
    assert_eq!(kinds(&state.take_commands()), vec!["write /c.toml"]);
    handle_event(&mut state, &mut view, TuiEvent::WizardConfigWritten(Err("denied".to_string())));
    let wizard = state.setup_wizard.as_ref().unwrap();
    assert_eq!(wizard.commit.error(), Some("denied"));
    handle_event(&mut state, &mut view, TuiEvent::WizardConfigWritten(Ok(())));
    assert!(state.setup_wizard.is_none());
    assert_eq!(kinds(&state.take_commands()), vec!["applied"]);
}

#[test]
fn wizard_fetches_come_back_to_it() {
    let mut state = two_prs();
    let mut view = ViewStateManager::new();
    state.open_wizard();
    let counts = ConfigPreviewCountsResponse {
        total_matched_prs: 3,
        queries: vec![],
        errors: vec![],
    };
    handle_event(&mut state, &mut view, TuiEvent::WizardPreviewLoaded(Ok(counts)));
    handle_event(
        &mut state,
        &mut view,
        TuiEvent::WizardMembershipsLoaded(Err("offline".to_string())),
    );
    handle_event(&mut state, &mut view, TuiEvent::WizardAuthStatusLoaded(Err("no gh".to_string())));
    let wizard = state.setup_wizard.as_ref().unwrap();
    assert_eq!(wizard.preview.value().map(|p| p.total_matched_prs), Some(3));
    assert_eq!(wizard.memberships.error(), Some("offline"));
    assert_eq!(wizard.auth.error(), Some("no gh"));
    assert_eq!(state.error_message.as_deref(), Some("Failed to check auth: no gh"));
}

#[test]
fn health_and_lists_are_taken_up() {
    let mut state = two_prs();
    let health = HealthResponse {
        service: "brunson".to_string(),
        version: "0.1.0".to_string(),
        status: "ok".to_string(),
        current_user: "me".to_string(),
        last_poll_at: None,
        last_poll_error: None,
        rate_limit_remaining: Some(12),
        refresh_in_progress: false,
        setup_status: "ready".to_string(),
        setup_message: None,
        binary_mtime: None,
    };
    state.accept_health(Ok(health));
    assert_eq!(state.health.as_ref().and_then(|h| h.rate_limit_remaining), Some(12));
    state.selected_pr_id = Some("o~r~9".to_string());
    state.reconcile_selected_detail_freshness();
    assert!(state.selected_pr_id.is_none());
    assert!(state.detail_needs_reload && state.diff_needs_reload);
}

// The Inbox.

#[test]
fn sections_list_the_urgent_and_recent_first() {
    let mut groups = PrGroups::new();
    groups.insert(
        PrGroup::ReviewNeeded,
        vec![
            pr("low", PrGroup::ReviewNeeded, Some(Priority::Low), "2024-03-01"),
            pr("old", PrGroup::ReviewNeeded, Some(Priority::High), "2024-01-01"),
            pr("new", PrGroup::ReviewNeeded, Some(Priority::High), "2024-02-01"),
            pr("none", PrGroup::ReviewNeeded, None, "2024-09-01"),
        ],
    );
    groups.insert(PrGroup::Draft, vec![pr("draft", PrGroup::Draft, None, "2024-01-01")]);
    let prs = PrListResponse { groups, updated_at: String::new() };
    let mut folds = SectionFolds::new();
    folds.insert(InboxSection::Group(PrGroup::Draft), false);
    let ids: Vec<String> = build_inbox_rows(&prs, &folds, "")
        .iter()
        .filter_map(|r| match r {
            InboxRow::Pr { id } => Some(id.clone()),
            InboxRow::Header { .. } => None,
        })
        .collect();
    assert_eq!(ids, vec!["new", "old", "low", "none", "draft"]);
}

#[test]
fn folding_changes_no_header_count() {
    let mut state = two_prs();
    let counts = |rows: &Vec<InboxRow>| -> Vec<(InboxSection, usize)> {
        rows.iter()
            .filter_map(|r| match r {
                InboxRow::Header { section, count, .. } => Some((*section, *count)),
                InboxRow::Pr { .. } => None,
            })
            .collect()
    };
    let mut view = prepared(&mut state, Blade::Inbox);
    let open = counts(&view.view.inbox_rows);
    state.toggle_collapse_current(&mut view);
    let layout = RootLayout::new(Blade::Inbox).compute(Rect::new(0, 0, 80, 24));
    view.prepare(&mut state, &layout);
    assert_eq!(view.view.inbox_rows.len(), 1);
    assert_eq!(counts(&view.view.inbox_rows), open);
}

#[test]
fn each_pull_request_stands_in_one_section() {
    let mut bot = pr("bot", PrGroup::Other, None, "2024-01-01");
    bot.author = "renovate[bot]".to_string();
    let mut mine = pr("mine", PrGroup::AuthoredWaiting, None, "2024-01-01");
    mine.author_is_bot = true;
    let mut groups = PrGroups::new();
    groups.insert(PrGroup::Other, vec![bot]);
    groups.insert(PrGroup::AuthoredWaiting, vec![mine]);
    let prs = PrListResponse { groups, updated_at: String::new() };
    let mut folds = SectionFolds::new();
    for section in InboxSection::render_order() {
        folds.insert(section, false);
    }
    let rows = build_inbox_rows(&prs, &folds, "");
    assert_eq!(
        rows,
        vec![
            InboxRow::Header {
                section: InboxSection::Group(PrGroup::AuthoredWaiting),
                count: 1,
                collapsed: false
            },
            InboxRow::Pr { id: "mine".to_string() },
            InboxRow::Header { section: InboxSection::Dependencies, count: 1, collapsed: false },
            InboxRow::Pr { id: "bot".to_string() },
        ]
    );
}

#[test]
fn every_section_has_its_place_in_the_order() {
    let order = InboxSection::render_order();
    assert_eq!(order.len(), 9);
    for section in &order {
        assert_eq!(order.iter().filter(|s| *s == section).count(), 1);
        assert!(!section.label().is_empty());
    }
    assert!(InboxSection::Dependencies.default_collapsed());
}

#[test]
fn cursor_finds_its_row_or_the_first_pull_request() {
    let mut state = two_prs();
    let view = prepared(&mut state, Blade::Inbox);
    let rows = &view.view.inbox_rows;
    assert_eq!(resolve_cursor_row(rows, &InboxCursor::Pr("o~r~2".to_string())), Some(2));
    assert_eq!(resolve_cursor_row(rows, &InboxCursor::Pr("gone".to_string())), None);
    assert_eq!(find_row(rows, &InboxCursor::Pr("o~r~2".to_string())), 2);
    assert_eq!(find_row(rows, &InboxCursor::Pr("gone".to_string())), 1);
    assert_eq!(selected_pr_for_row(rows, 2).as_deref(), Some("o~r~2"));
    assert_eq!(selected_pr_for_row(rows, 0).as_deref(), Some("o~r~1"));
    assert_eq!(resolve_cursor_row(&Vec::new(), &InboxCursor::Pr("gone".to_string())), None);
}

#[test]
fn preparing_twice_changes_nothing_more() {
    let mut state = two_prs();
    let mut view = prepared(&mut state, Blade::Inbox);
    state.detail_needs_reload = false;
    state.diff_needs_reload = false;
    state.pr_detail = Some(detail("o~r~1"));
    let layout = RootLayout::new(Blade::Inbox).compute(Rect::new(0, 0, 80, 24));
    view.prepare(&mut state, &layout);
    assert!(state.pr_detail.is_some());
    assert!(!state.detail_needs_reload);
    let row = view.view.selected_row;
    state.move_selection(&mut view, 1);
    view.prepare(&mut state, &layout);
    assert_eq!(view.view.selected_row, row + 1);
    assert!(state.pr_detail.is_none());
    assert!(state.detail_needs_reload && state.diff_needs_reload);
}

// Scrolling.

#[test]
fn scrolling_stays_within_its_limit() {
    let mut s = ScrollState::new();
    s.set_content_viewport(10, 4);
    assert_eq!(s.max_scroll(), 6);
    s.scroll_by(100);
    assert_eq!(s.offset, 6);
    s.scroll_by(-2);
    s.scroll_by(2);
    assert_eq!(s.offset, 6);
    s.scroll_by(isize::MIN);
    assert_eq!(s.offset, 0);
    s.keep_visible(7);
    assert_eq!(s.offset, 4);
    s.keep_visible(2);
    assert_eq!(s.offset, 2);
    s.set_content_viewport(3, 4);
    assert_eq!(s.offset, 0);
}

#[test]
fn focus_comes_round() {
    for focus in [
        OverviewFocus::Summary,
        OverviewFocus::Problems,
        OverviewFocus::Description,
        OverviewFocus::LastActivity,
    ] {
        assert_eq!(focus.next(true, true).prev(true, true), focus);
    }
    assert_eq!(OverviewFocus::Summary.next(true, false), OverviewFocus::Description);
}

// The cache.

#[test]
fn deselecting_empties_the_cache() {
    let mut cache = RenderCache::new();
    let d = detail("o~r~1");
    cache.rebuild_overview(Some(&d), 80);
    cache.rebuild_diff(Some(&d), Some("diff --git a/f b/f\n@@ -1 +1 @@\n+x\n"), 80, true);
    assert!(!cache.overview_summary.is_empty());
    assert!(!cache.diff_lines.is_empty());
    cache.rebuild_overview(None, 80);
    cache.rebuild_diff(None, None, 80, true);
    cache.rebuild_activity(None, 80);
    assert!(cache.overview_summary.is_empty());
    assert!(cache.overview_description.is_empty());
    assert!(cache.diff_lines.is_empty());
    assert!(cache.diff_file_boundaries.is_empty());
    assert!(cache.activity_events.is_empty());
}

#[test]
fn another_diff_of_the_same_length_is_shown() {
    let d = detail("o~r~1");
    let first = "diff --git a/f b/f\n@@ -1 +1 @@\n+xx\n+yy\n";
    let second = "diff --git a/f b/f\n@@ -1 +1 @@\n+zz\n yy\n";
    assert_eq!(first.len(), second.len());
    let mut cache = RenderCache::new();
    cache.rebuild_diff(Some(&d), Some(first), 80, false);
    cache.rebuild_diff(Some(&d), Some(second), 80, false);
    let mut new = RenderCache::new();
    new.rebuild_diff(Some(&d), Some(second), 80, false);
    let text = |c: &RenderCache| format!("{:?}", c.diff_lines);
    assert_eq!(text(&cache), text(&new));
    assert!(text(&cache).contains("zz"));
    assert_eq!(cache.diff_line_starts, new.diff_line_starts);
    assert_eq!(cache.diff_file_boundaries, new.diff_file_boundaries);
}

// The wizard.

fn wizard_at(step: WizardStep) -> SetupWizardState {
    let mut wizard = SetupWizardState::hydrate("/c.toml".to_string(), &Config::default());
    wizard.step = step;
    wizard
}

fn target(org: &str) -> GithubTarget {
    GithubTarget {
        org: Some(org.to_string()),
        repo: None,
        direct_review_requests: true,
        team_review_requests: vec![],
        include_authored: true,
        include_involved: false,
    }
}

#[test]
fn stepping_back_returns_to_the_step_before() {
    let mut wizard = wizard_at(WizardStep::WatchMode);
    wizard.push_step(WizardStep::LivePreview);
    assert!(wizard.pop_step());
    assert_eq!(wizard.step, WizardStep::WatchMode);
    assert!(!wizard.pop_step());
    assert_eq!(wizard.step, WizardStep::WatchMode);
}

#[test]
fn a_fetch_starts_once() {
    let mut r: AsyncResource<u8> = AsyncResource::Idle;
    assert!(!r.begin());
    r.request();
    assert!(r.begin());
    assert!(r.is_loading());
    r.request();
    assert!(!r.begin());
    assert!(r.is_loading());
    assert_eq!(AsyncResource::Ready(4u8).value(), Some(&4));
    assert_eq!(AsyncResource::<u8>::Failed("e".to_string()).error(), Some("e"));
}

#[test]
fn toggling_a_team_twice_restores_the_target() {
    let mut wizard = wizard_at(WizardStep::TargetDetail);
    wizard.memberships = AsyncResource::Ready(MembershipsResponse {
        orgs: vec![OrgMembership {
            login: "myorg".to_string(),
            teams: vec![TeamMembership { slug: "team".to_string(), name: "Team".to_string() }],
        }],
        truncated: false,
    });
    wizard.editing_target = Some(target("myorg"));
    assert_eq!(wizard.available_teams().len(), 1);
    wizard.editing_target_cursor = 3;
    handle_target_detail_key(&mut wizard, key(KeyCode::Char(' ')));
    let teams = |w: &SetupWizardState| w.editing_target.as_ref().unwrap().team_review_requests.clone();
    assert_eq!(teams(&wizard), vec!["myorg/team"]);
    handle_target_detail_key(&mut wizard, key(KeyCode::Char(' ')));
    assert!(teams(&wizard).is_empty());
    for _ in 0..9 {
        handle_target_detail_key(&mut wizard, key(KeyCode::Down));
    }
    assert_eq!(wizard.editing_target_cursor, 3);
}

#[test]
fn picker_edits_an_organisation_once_known() {
    let mut wizard = wizard_at(WizardStep::TargetPicker);
    wizard.memberships = AsyncResource::Ready(MembershipsResponse {
        orgs: vec![OrgMembership { login: "myorg".to_string(), teams: vec![] }],
        truncated: false,
    });
    let mut known = target("myorg");
    known.include_involved = true;
    wizard.selected_targets.push(known);
    handle_target_picker_key(&mut wizard, key(KeyCode::Enter));
    assert_eq!(wizard.step, WizardStep::TargetDetail);
    assert!(wizard.editing_target.as_ref().unwrap().include_involved);
    handle_target_detail_key(&mut wizard, key(KeyCode::Char('s')));
    assert_eq!(wizard.selected_targets.len(), 1);
    assert_eq!(wizard.step, WizardStep::TargetPicker);
    handle_target_picker_key(&mut wizard, key(KeyCode::Char('d')));
    assert!(wizard.selected_targets.is_empty());
    handle_target_picker_key(&mut wizard, key(KeyCode::Char('n')));
    assert_eq!(wizard.step, WizardStep::TargetPicker);
    handle_target_picker_key(&mut wizard, key(KeyCode::Down));
    handle_target_picker_key(&mut wizard, key(KeyCode::Enter));
    assert!(wizard.manual_entry_active);
}

#[test]
fn draft_keeps_targets_only_in_their_mode() {
    let mut config = Config::default();
    config.github.watch = vec!["a".to_string()];
    config.github.poll_interval = 60;
    config.llm.enabled = true;
    config.llm.api_key = "SECRET-REDACTED".to_string();
    let mut wizard = SetupWizardState::hydrate("/c.toml".to_string(), &config);
    wizard.watch_raw_input = " x , y/z,, ".to_string();
    let draft = wizard.draft();
    assert_eq!(draft.github.watch, vec!["x", "y/z"]);
    assert!(draft.llm.enabled);
    assert_eq!(draft.llm.api_key, "SECRET-REDACTED");
    handle_watch_mode_key(&mut wizard, key(KeyCode::Up));
    assert_eq!(wizard.watch_mode, WatchModeChoice::Everything);
    assert!(wizard.draft().github.watch.is_empty());
}

#[test]
fn keys_leave_running_fetches_alone() {
    let mut wizard = wizard_at(WizardStep::LivePreview);
    wizard.preview = AsyncResource::Loading;
    handle_live_preview_key(&mut wizard, key(KeyCode::Char('r')));
    assert!(wizard.preview.is_loading());
    wizard.step = WizardStep::LlmConfig;
    wizard.llm_cursor = 1;
    assert_eq!(handle_wizard_key(&mut wizard, key(KeyCode::Enter)), Action::Idle);
    assert_eq!(wizard.llm_provider_idx, 1);
    assert_eq!(wizard.draft().llm.provider, "openai_compatible");
    handle_wizard_key(&mut wizard, key(KeyCode::Enter));
    assert_eq!(wizard.draft().llm.provider, "lm_studio");
    assert_eq!(handle_wizard_key(&mut wizard, key(KeyCode::Char('q'))), Action::CloseWizard);
}

#[test]
fn find_group_members_by_key() {
    let mut groups = PrGroups::new();
    assert_eq!(groups.len(), 0);
    groups.insert(PrGroup::Draft, vec![pr("a", PrGroup::Draft, None, "t")]);
    groups.insert(PrGroup::Draft, vec![]);
    groups.insert(PrGroup::Other, vec![pr("b", PrGroup::Other, None, "t")]);
    assert_eq!(groups.len(), 2);
    assert_eq!(groups.get(PrGroup::Draft).map(|v| v.len()), Some(0));
    assert!(groups.get(PrGroup::ReviewDone).is_none());
    groups.clear();
    assert_eq!(groups.len(), 0);
}
