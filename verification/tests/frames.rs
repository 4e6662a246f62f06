//! Whole frames, painted on a terminal buffer.
use brunson::api::{FileDto, HealthResponse, PrDetailResponse, PrGroups, PrListResponse, PrSummary};
use brunson::app::{AppState, StartupPhase};
use brunson::clock::Clock;
use brunson::config::{Config, GithubTarget};
use brunson::component::RenderContext;
use brunson::daemon::SERVICE_NAME;
use brunson::draw::{Align, Color, DrawOp, Line, Rect, Scene, Style};
use brunson::frame::render_frame;
use brunson::github::{CheckEntry, CheckStatus, MergeableState, PrGroup, Priority};
use brunson::inbox_rows::InboxCursor;
use brunson::layout::RootLayout;
use brunson::state::{ViewState, ViewStateManager};
use brunson::theme::{Blade, Theme, SURFACE0};
use brunson::views::loading::render_loading;
use brunson::views::setup::render_setup_wizard;
use brunson::wizard::{SetupWizardState, WizardStep};
use ratatui::buffer::Buffer;
use ratatui::text::{Line as TermLine, Span as TermSpan};
use ratatui::widgets::{Block, Borders, Clear, Paragraph, Widget, Wrap};

fn tone(color: Color) -> ratatui::style::Color {
    let (r, g, b) = color.rgb();
    ratatui::style::Color::Rgb(r, g, b)
}

fn term_style(style: Style) -> ratatui::style::Style {
    let mut out = ratatui::style::Style::default();
    if let Some(c) = style.fg {
        out = out.fg(tone(c));
    }
    if let Some(c) = style.bg {
        out = out.bg(tone(c));
    }
    if style.bold {
        out = out.add_modifier(ratatui::style::Modifier::BOLD);
    }
    out
}

fn term_line(line: &Line) -> TermLine<'static> {
    let mut spans = Vec::new();
    for s in &line.spans {
        spans.push(TermSpan::styled(s.content.clone(), term_style(s.style)));
    }
    TermLine::from(spans)
}

fn term_rect(r: Rect) -> ratatui::layout::Rect {
    ratatui::layout::Rect::new(r.x, r.y, r.width, r.height)
}

fn paint(scene: &Scene, buf: &mut Buffer) {
    for op in &scene.ops {
        match op {
            DrawOp::Fill { area, color } => {
                let bg = ratatui::style::Style::default().bg(tone(*color));
                for y in area.y..area.bottom() {
                    for x in area.x..area.right() {
                        if let Some(cell) = buf.cell_mut((x, y)) {
                            cell.set_symbol(" ").set_style(bg);
                        }
                    }
                }
            }
            DrawOp::Clear { area } => Clear.render(term_rect(*area), buf),
            DrawOp::Panel { area, border, style, title } => {
                let mut block = Block::default()
                    .borders(Borders::ALL)
                    .border_style(term_style(*border))
                    .style(term_style(*style));
                if let Some(t) = title {
                    block = block.title(term_line(t));
                }
                block.render(term_rect(*area), buf);
            }
            DrawOp::Text { area, lines, style, align, wrap, scroll } => {
                let rows: Vec<TermLine> = lines.iter().map(term_line).collect();
                let mut text = Paragraph::new(rows).style(term_style(*style)).scroll((*scroll, 0));
                if *align == Align::Center {
                    text = text.alignment(ratatui::layout::Alignment::Center);
                }
                if *wrap {
                    text = text.wrap(Wrap { trim: false });
                }
                text.render(term_rect(*area), buf);
            }
            DrawOp::Cell { x, y, symbol, style } => {
                if let Some(cell) = buf.cell_mut((*x, *y)) {
                    cell.set_char(*symbol).set_style(term_style(*style));
                }
            }
        }
    }
}

/// A terminal of fixed size that shows one frame at a time.
struct Screen {
    area: Rect,
    buffer: Buffer,
}

impl Screen {
    fn new(width: u16, height: u16) -> Screen {
        let area = Rect::new(0, 0, width, height);
        Screen { area, buffer: Buffer::empty(term_rect(area)) }
    }

    fn show(&mut self, scene: &Scene) {
        self.buffer = Buffer::empty(term_rect(self.area));
        paint(scene, &mut self.buffer);
    }

    fn draw(&mut self, state: &mut AppState, view: &mut ViewStateManager) {
        let clock = Clock::read();
        let draft: Result<String, String> = Ok(String::new());
        let scene = render_frame(self.area, state, view, &clock, &Vec::new(), &draft);
        self.show(&scene);
    }
}

fn make_test_state(groups: PrGroups) -> AppState {
    let config = Config::default();
    let mut state = AppState::new(config);
    state.prs = PrListResponse {
        groups,
        updated_at: "2024-01-01T00:00:00Z".to_string(),
    };
    state.health = Some(HealthResponse {
        service: SERVICE_NAME.to_string(),
        version: "0.1.0".to_string(),
        status: "ok".to_string(),
        current_user: "me".to_string(),
        last_poll_at: None,
        last_poll_error: None,
        rate_limit_remaining: None,
        refresh_in_progress: false,
        setup_status: "ready".to_string(),
        setup_message: None,
        binary_mtime: None,
    });
    state
}

fn make_summary(
    id: &str,
    group: PrGroup,
    author: &str,
    priority: Option<Priority>,
) -> PrSummary {
    PrSummary {
        id: id.to_string(),
        node_id: "node".to_string(),
        owner: "org".to_string(),
        repo: "repo".to_string(),
        number: id.split('~').next_back().unwrap().parse().unwrap_or(1),
        title: format!("Test {}", id),
        author: author.to_string(),
        author_is_bot: false,
        group,
        next_action: "Review now".to_string(),
        check_status: CheckStatus::Absent,
        llm_priority: priority,
        updated_at: "2024-01-01T00:00:00Z".to_string(),
        url: "https://example.com".to_string(),
        comments: 0,
        head_ref: String::new(),
        llm_one_line: None,
    }
}

#[test]
fn overview_frame_does_not_leak_inbox_content_after_blade_switch() {
    let mut groups = PrGroups::new();
    groups.insert(
        PrGroup::ReviewNeeded,
        vec![
            make_summary(
                "org~repo~1",
                PrGroup::ReviewNeeded,
                "other",
                Some(Priority::High),
            ),
            make_summary(
                "org~repo~2",
                PrGroup::ReviewNeeded,
                "other2",
                Some(Priority::Medium),
            ),
        ],
    );
    groups.insert(
        PrGroup::AuthoredWaiting,
        vec![make_summary(
            "org~repo~3",
            PrGroup::AuthoredWaiting,
            "me",
            None,
        )],
    );

    let mut state = make_test_state(groups);
    state.selected_pr_id = Some("org~repo~1".to_string());

    let mut screen = Screen::new(124, 34);
    let mut view = ViewStateManager::new();
    view.view.active_blade = Blade::Inbox;

    // Settle the initial selection first: the first `prepare()` call
    // after a fresh `ViewStateManager` always resets cached detail,
    // matching the real event flow where the first selection triggers
    // an async detail fetch. Setting `pr_detail` only after this keeps
    // it from being cleared by that settle.
    screen.draw(&mut state, &mut view);
    state.detail_needs_reload = false;
    state.diff_needs_reload = false;

    state.pr_detail = Some(PrDetailResponse {
        id: "org~repo~1".to_string(),
        node_id: "n1".to_string(),
        owner: "org".to_string(),
        repo: "repo".to_string(),
        number: 35847,
        title: "feat(slack-service): allow channel connections to change investigation"
            .to_string(),
        body: "## Summary\n\n- add an in-place Slack channel connection rebind operation."
            .to_string(),
        url: "https://github.com/org/repo/pull/35847".to_string(),
        author: "austin".to_string(),
        is_draft: false,
        updated_at: "2024-05-20T12:00:00Z".to_string(),
        head_ref: "1718-slack-channel-rebind".to_string(),
        base_ref: "main".to_string(),
        mergeable: MergeableState::Mergeable,
        review_decision: None,
        review_requests: vec![],
        team_review_requests: vec![],
        viewer_latest_review: None,
        latest_reviews: vec![],
        check_status: CheckStatus::Pending,
        checks: vec![CheckEntry {
            name: "ci".to_string(),
            status: "IN_PROGRESS".to_string(),
            conclusion: None,
            url: "https://github.com/org/repo/pull/35847/checks".to_string(),
        }],
        review_threads: vec![],
        files: vec![
            FileDto {
                path: "src/main.rs".to_string(),
                additions: 1290,
                deletions: 34,
                status: 'M',
            },
            FileDto {
                path: "terraform/refinery-as-a-service/us1/_griztest-poc.tf".to_string(),
                additions: 18,
                deletions: 0,
                status: 'A',
            },
        ],
        timeline: vec![],
        llm_priority: Some(Priority::Medium),
        llm_summary: Some(
            "Implements Slack channel connection rebinding and new Slack controls/commands."
                .to_string(),
        ),
        llm_rich_summary: None,
        last_seen_at: None,
    });

    screen.draw(&mut state, &mut view);

    view.view.active_blade = Blade::Overview;
    screen.draw(&mut state, &mut view);

    let buf = &screen.buffer;
    let active_rect = RootLayout::new(Blade::Overview)
        .compute(Rect::new(0, 0, 124, 32))
        .blade(Blade::Overview)
        .content;

    let mut content = String::new();
    for y in active_rect.y..active_rect.bottom() {
        for x in active_rect.x..active_rect.right() {
            content.push_str(buf.cell((x, y)).unwrap().symbol());
        }
        content.push('\n');
    }
    assert!(
        !content.contains("OPENED BY ME"),
        "active Overview blade leaked Inbox section header:\n{}",
        content
    );
    assert!(
        !content.contains("NEEDS MY REVIEW"),
        "active Overview blade leaked Inbox section header:\n{}",
        content
    );
    assert!(content.contains("Brunson Says"));
}

#[test]
fn overview_111x30_no_inbox_leak_after_blade_switch() {
    let mut groups = PrGroups::new();
    groups.insert(
        PrGroup::ReviewNeeded,
        vec![
            make_summary(
                "org~repo~1",
                PrGroup::ReviewNeeded,
                "other",
                Some(Priority::High),
            ),
            make_summary(
                "org~repo~2",
                PrGroup::ReviewNeeded,
                "other2",
                Some(Priority::Medium),
            ),
        ],
    );
    groups.insert(
        PrGroup::AuthoredWaiting,
        vec![make_summary(
            "org~repo~3",
            PrGroup::AuthoredWaiting,
            "me",
            None,
        )],
    );
    groups.insert(
        PrGroup::AuthoredReadyToMerge,
        vec![make_summary(
            "org~repo~4",
            PrGroup::AuthoredReadyToMerge,
            "me",
            None,
        )],
    );
    groups.insert(
        PrGroup::AuthoredActionNeeded,
        vec![make_summary(
            "org~repo~5",
            PrGroup::AuthoredActionNeeded,
            "me",
            None,
        )],
    );

    let mut state = make_test_state(groups);
    state.selected_pr_id = Some("org~repo~1".to_string());

    let mut screen = Screen::new(111, 30);
    let mut view = ViewStateManager::new();

    view.view.active_blade = Blade::Inbox;
    screen.draw(&mut state, &mut view);

    view.view.active_blade = Blade::Overview;
    screen.draw(&mut state, &mut view);

    let buf = &screen.buffer;
    let mut content = String::new();
    for x in 0..buf.area().width {
        content.push_str(buf.cell((x, 2)).unwrap().symbol());
    }
    assert!(
        !content.contains("OPENED BY ME"),
        "row 2 leaked Inbox header at 111x30: {:?}",
        content
    );
}

#[test]
fn keybar_renders_bindings_not_only_border() {
    let groups = PrGroups::new();
    let mut state = make_test_state(groups);
    let mut view = ViewStateManager::new();
    view.view.active_blade = Blade::Files;

    let mut screen = Screen::new(120, 24);
    screen.draw(&mut state, &mut view);

    let buf = &screen.buffer;
    let row = buf.area().height - 1;
    let line: String = (0..buf.area().width)
        .map(|x| buf.cell((x, row)).unwrap().symbol().to_string())
        .collect();
    assert!(
        line.contains("diff") && line.contains("blade") && line.contains("quit"),
        "keybar should show the Files bindings, got: {:?}",
        line
    );
}

#[test]
fn inbox_selected_row_is_highlighted_full_width() {
    let mut groups = PrGroups::new();
    groups.insert(
        PrGroup::ReviewNeeded,
        vec![
            make_summary(
                "org~repo~1",
                PrGroup::ReviewNeeded,
                "other",
                Some(Priority::High),
            ),
            make_summary(
                "org~repo~2",
                PrGroup::ReviewNeeded,
                "other2",
                Some(Priority::Medium),
            ),
            make_summary("org~repo~3", PrGroup::ReviewNeeded, "other3", None),
        ],
    );

    // The selected row must carry the selection background across the full
    // blade width. PR/file titles are deliberately not hyperlinked because
    // those overlays corrupted cell widths and broke the highlight.
    let mut state = make_test_state(groups.clone());
    let mut screen = Screen::new(120, 30);
    let mut view = ViewStateManager::new();
    view.view.active_blade = Blade::Inbox;
    screen.draw(&mut state, &mut view);

    let buf = &screen.buffer;
    let layout = RootLayout::new(Blade::Inbox)
        .compute(Rect::new(0, 0, 120, 28));
    let content = layout.active_content();
    let selected_y = find_selected_row(buf, content);

    let mut bad = 0u32;
    let mut report = String::new();
    for x in content.x..content.right() {
        let bg = buf.cell((x, selected_y)).unwrap().style().bg;
            if bg != Some(tone(SURFACE0)) {
            bad += 1;
            report.push_str(&format!("x={x} bg={bg:?}\n"));
        }
    }
    assert_eq!(bad, 0, "selected row not fully highlighted:\n{report}");
}

fn find_selected_row(buf: &Buffer, content: Rect) -> u16 {
    for y in content.y..content.bottom() {
        if buf.cell((content.x, y)).unwrap().symbol() == "▌" {
            return y;
        }
    }
    panic!("no selected row (▌ bar) found in inbox content");
}

#[test]
fn files_scroll_follows_selection_when_list_overflows_viewport() {
    let mut groups = PrGroups::new();
    groups.insert(
        PrGroup::ReviewNeeded,
        vec![make_summary(
            "org~repo~42",
            PrGroup::ReviewNeeded,
            "other",
            None,
        )],
    );
    let mut state = make_test_state(groups);
    state.selected_pr_id = Some("org~repo~42".to_string());

    let mut view = ViewStateManager::new();
    view.view.active_blade = Blade::Files;
    let layout =
        RootLayout::new(Blade::Files).compute(Rect::new(0, 0, 111, 30));

    // Settle the initial selection first: the first `prepare()` call
    // after a fresh `ViewStateManager` always resets cached detail and
    // `selected_file_index`, matching the real event flow where the
    // first selection triggers an async detail fetch. Setting
    // `pr_detail`/`selected_file_index` only after this keeps them from
    // being cleared by that settle.
    view.prepare(&mut state, &layout);
    state.detail_needs_reload = false;
    state.diff_needs_reload = false;

    state.pr_detail = Some(PrDetailResponse {
        id: "org~repo~42".to_string(),
        node_id: "n1".to_string(),
        owner: "org".to_string(),
        repo: "repo".to_string(),
        number: 42,
        title: "Test PR".to_string(),
        body: String::new(),
        url: "https://example.com".to_string(),
        author: "me".to_string(),
        is_draft: false,
        updated_at: "2024-01-01T00:00:00Z".to_string(),
        head_ref: "feature".to_string(),
        base_ref: "main".to_string(),
        mergeable: MergeableState::Mergeable,
        review_decision: None,
        review_requests: vec![],
        team_review_requests: vec![],
        viewer_latest_review: None,
        latest_reviews: vec![],
        check_status: CheckStatus::Absent,
        checks: vec![],
        review_threads: vec![],
        files: (0..30)
            .map(|i| FileDto {
                path: format!("src/file_{:02}.rs", i),
                additions: i as u64,
                deletions: 1,
                status: 'M',
            })
            .collect(),
        timeline: vec![],
        llm_priority: None,
        llm_summary: None,
        llm_rich_summary: None,
        last_seen_at: None,
    });

    view.view.selected_file_index = 29;
    view.prepare(&mut state, &layout);

    // Active blade content height is 25 (full-bleed body under a 5-row
    // chrome); the Files blade reserves one row for its header, so the
    // scrollable viewport is 24 rows. Selecting the last file should scroll
    // so that it is the last visible row (offset 6).
    assert_eq!(
        view.view.files_scroll.offset, 6,
        "files_scroll should follow selection to the last page"
    );

    let mut screen = Screen::new(111, 30);
    screen.draw(&mut state, &mut view);

    // The scrolled viewport should start at file_03, so file_00 must not
    // be visible in the Files body area.
    let buf = &screen.buffer;
    let layout =
        RootLayout::new(Blade::Files).compute(Rect::new(0, 0, 111, 30));
    let content = layout.active_content();
    let mut found_file_00 = false;
    for y in content.y..content.bottom() {
        let line: String = (content.x..content.right())
            .map(|x| buf.cell((x, y)).unwrap().symbol().to_string())
            .collect();
        if line.contains("file_00") {
            found_file_00 = true;
            break;
        }
    }
    assert!(
        !found_file_00,
        "file_00 should be scrolled off the top of the viewport"
    );
}

#[test]
fn search_overlay_renders_filter_prompt() {
    let mut groups = PrGroups::new();
    groups.insert(
        PrGroup::ReviewNeeded,
        vec![make_summary("o~r~1", PrGroup::ReviewNeeded, "other", None)],
    );
    let mut state = make_test_state(groups);
    state.show_search = true;
    state.search_filter = "query".to_string();
    state.startup_phase = StartupPhase::Ready;
    let mut view = ViewStateManager::new();

    let mut screen = Screen::new(120, 30);
    screen.draw(&mut state, &mut view);

    let buf = &screen.buffer;
    let mut found_title = false;
    let mut found_input = false;
    let mut found_hint = false;
    for y in 0..buf.area().height {
        let line: String = (0..buf.area().width)
            .map(|x| buf.cell((x, y)).unwrap().symbol().to_string())
            .collect();
        if line.contains("Filter") {
            found_title = true;
        }
        if line.contains("Filter: query") {
            found_input = true;
        }
        if line.contains("Backspace delete") {
            found_hint = true;
        }
    }
    assert!(
        found_title,
        "search overlay should render a Filter title/prompt"
    );
    assert!(found_input, "search overlay should render the query prompt");
    assert!(found_hint, "search overlay should render the hint line");
}

#[test]
fn inbox_filters_rows_when_search_filter_is_active() {
    let mut groups = PrGroups::new();
    groups.insert(
        PrGroup::ReviewNeeded,
        vec![
            make_summary("o~r~1", PrGroup::ReviewNeeded, "other", None),
            make_summary("o~r~2", PrGroup::ReviewNeeded, "other", None),
        ],
    );
    let mut state = make_test_state(groups);
    state.startup_phase = StartupPhase::Ready;
    state.search_filter = "r~2".to_string();
    let mut view = ViewStateManager::new();

    let mut screen = Screen::new(120, 30);
    screen.draw(&mut state, &mut view);

    let buf = &screen.buffer;
    let active = RootLayout::new(Blade::Inbox)
        .compute(Rect::new(0, 0, 120, 30))
        .active_content();
    let content = Rect::new(active.x, active.y + 1, active.width, active.height - 1);

    let mut found_first = false;
    let mut found_second = false;
    for y in content.y..content.bottom() {
        let line: String = (content.x..content.right())
            .map(|x| buf.cell((x, y)).unwrap().symbol().to_string())
            .collect();
        if line.contains("Test o~r~1") {
            found_first = true;
        }
        if line.contains("Test o~r~2") {
            found_second = true;
        }
    }
    assert!(
        !found_first,
        "filtered Inbox should not render the non-matching PR"
    );
    assert!(found_second, "filtered Inbox should render the matching PR");
}

#[test]
fn keybar_renders_filter_not_act() {
    let groups = PrGroups::new();
    let mut state = make_test_state(groups);
    state.startup_phase = StartupPhase::Ready;
    let mut view = ViewStateManager::new();
    view.view.active_blade = Blade::Inbox;

    let mut screen = Screen::new(120, 24);
    screen.draw(&mut state, &mut view);

    let buf = &screen.buffer;
    let row = buf.area().height - 1;
    let line: String = (0..buf.area().width)
        .map(|x| buf.cell((x, row)).unwrap().symbol().to_string())
        .collect();
    assert!(
        line.contains("filter") && line.contains("quit"),
        "inbox keybar should show bindings, got: {:?}",
        line
    );
    assert!(
        !line.contains("act"),
        "keybar should not contain the old a/r/m act label, got: {:?}",
        line
    );
}

#[test]
fn tab_line_shows_animated_refresh_while_loading() {
    let groups = PrGroups::new();
    let mut state = make_test_state(groups);
    state.startup_phase = StartupPhase::Ready;
    state.health.as_mut().unwrap().refresh_in_progress = true;
    state.ui_tick = 3;
    let mut view = ViewStateManager::new();
    view.view.active_blade = Blade::Files;

    let mut screen = Screen::new(120, 24);
    screen.draw(&mut state, &mut view);

    // The refresh spinner lives on the tab line (top row) alongside the
    // data-age indicator; ui_tick 3 selects a deterministic braille frame.
    let buf = &screen.buffer;
    let line: String = (0..buf.area().width)
        .map(|x| buf.cell((x, 0)).unwrap().symbol().to_string())
        .collect();
    assert!(
        line.contains('⠸'),
        "tab line should show the refresh spinner while loading, got: {:?}",
        line
    );
}

#[test]
fn loading_overlay_renders_without_panic() {
    let mut screen = Screen::new(80, 24);
    let mut state =
        AppState::new(Config::default());
    state.startup_phase = StartupPhase::Starting;
    state.ui_tick = 2;
    let view = ViewState::new();
    let theme = Theme;
    let clock = Clock::read();
    let queries = Vec::new();
    let mut scene = Scene::new();
    let ctx = RenderContext::new(&state, &view, &theme, &clock, &queries);
    render_loading(&mut scene, screen.area, &ctx);
    screen.show(&scene);
    assert!(!scene.ops.is_empty());
}

fn state_with_wizard(step: WizardStep) -> AppState {
    let mut state = AppState::new(Config::default());
    let mut wizard =
        SetupWizardState::hydrate("/tmp/x.toml".to_string(), &Config::default());
    wizard.step = step;
    state.setup_wizard = Some(Box::new(wizard));
    state
}

#[test]
fn every_step_renders_without_panic() {
    let steps = [
        WizardStep::Welcome,
        WizardStep::AuthCheck,
        WizardStep::WatchMode,
        WizardStep::WatchListInput,
        WizardStep::TargetPicker,
        WizardStep::TargetDetail,
        WizardStep::LivePreview,
        WizardStep::LlmConfig,
        WizardStep::Confirm,
    ];
    for step in steps {
        let mut screen = Screen::new(100, 30);
        let mut state = state_with_wizard(step);
        if step == WizardStep::TargetDetail {
            state.setup_wizard.as_mut().unwrap().editing_target =
                Some(GithubTarget {
                    org: Some("myorg".to_string()),
                    repo: None,
                    direct_review_requests: true,
                    team_review_requests: vec![],
                    include_authored: true,
                    include_involved: false,
                });
        }
        let mut scene = Scene::new();
    render_setup_wizard(&mut scene, screen.area, &state, &Ok(String::new()));
    screen.show(&scene);
    }
}

#[test]
fn renders_nothing_when_wizard_closed() {
    let mut screen = Screen::new(80, 24);
    let state = AppState::new(Config::default());
    assert!(state.setup_wizard.is_none());
    let mut scene = Scene::new();
    render_setup_wizard(&mut scene, screen.area, &state, &Ok(String::new()));
    screen.show(&scene);
}

#[test]
fn inbox_draws_the_last_of_two_with_one_identifier() {
    let mut first = make_summary("o~r~1", PrGroup::ReviewNeeded, "other", None);
    first.title = "Older copy".to_string();
    let mut second = make_summary("o~r~1", PrGroup::ReviewNeeded, "other", None);
    second.title = "Newer copy".to_string();
    let mut groups = PrGroups::new();
    groups.insert(PrGroup::ReviewNeeded, vec![first, second]);
    let mut state = make_test_state(groups);
    state.startup_phase = StartupPhase::Ready;
    let mut view = ViewStateManager::new();
    let mut screen = Screen::new(120, 30);
    screen.draw(&mut state, &mut view);
    let body = RootLayout::new(Blade::Inbox).compute(Rect::new(0, 0, 120, 30)).body;
    let mut text = String::new();
    for y in body.y..body.bottom() {
        for x in body.x..body.right() {
            text.push_str(screen.buffer.cell((x, y)).unwrap().symbol());
        }
    }
    assert!(text.contains("Newer copy"));
    assert!(!text.contains("Older copy"));
}

#[test]
fn inbox_scroll_follows_selection_when_list_overflows_viewport() {
    let mut groups = PrGroups::new();
    groups.insert(
        PrGroup::ReviewNeeded,
        (0..30)
            .map(|i| PrSummary {
                id: format!("org~repo~{}", i),
                node_id: "n1".to_string(),
                owner: "org".to_string(),
                repo: "repo".to_string(),
                number: i as u64,
                title: format!("PR {}", i),
                author: "other".to_string(),
                author_is_bot: false,
                group: PrGroup::ReviewNeeded,
                next_action: "Review now".to_string(),
                check_status: CheckStatus::Absent,
                llm_priority: None,
                updated_at: "2024-01-01T00:00:00Z".to_string(),
                url: "https://example.com".to_string(),
                comments: 0,
                head_ref: String::new(),
                llm_one_line: None,
            })
            .collect(),
    );
    let mut state = make_test_state(groups);
    state.selected_pr_id = Some("org~repo~29".to_string());

    let mut view = ViewStateManager::new();
    view.view.active_blade = Blade::Inbox;
    // Anchor the cursor on the last PR; `prepare` resolves it to its row.
    view.view.inbox_cursor = InboxCursor::Pr("org~repo~29".to_string());
    let layout = RootLayout::new(Blade::Inbox).compute(Rect::new(0, 0, 111, 30));
    view.prepare(&mut state, &layout);

    // Active blade content height is 25 (full-bleed body under a 5-row
    // chrome); the Inbox blade reserves one row for its column header and two
    // for the preview strip, so the scrollable viewport is 22 rows. With 30
    // PRs plus one section header there are 31 content lines; selecting the
    // last PR (line index 30) should scroll so it is the last visible row.
    assert_eq!(
        view.view.inbox_scroll.offset, 9,
        "inbox_scroll should follow selection to the last page"
    );

    let mut screen = Screen::new(111, 30);
    screen.draw(&mut state, &mut view);
    let buf = &screen.buffer;
    let content = layout.active_content();
    let body = Rect::new(content.x, content.y + 1, content.width, content.height - 1);
    let mut found_pr_00 = false;
    for y in body.y..body.bottom() {
        let line: String = (body.x..body.right())
            .map(|x| buf.cell((x, y)).unwrap().symbol().to_string())
            .collect();
        if line.contains("PR 0") {
            found_pr_00 = true;
            break;
        }
    }
    assert!(
        !found_pr_00,
        "PR 0 should be scrolled off the top of the viewport"
    );
}
