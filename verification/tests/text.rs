//! Text, time, colours and the rows built from them.
use brunson::api::{Moment, PrDetailResponse};
use brunson::app::AppState;
use brunson::clock::{age, elapsed, format_age, format_stale_age, stale_age_color, Clock};
use brunson::config::Config;
use brunson::diff::{
    find_file_boundaries, map_review_threads_to_diff_indices, parse_diff, DiffLineType,
};
use brunson::draw::{fg, Color, DrawOp, Line, Rect, Scene, Style};
use brunson::github::{
    CheckStatus, MergeableState, PrGroup, ReviewComment, ReviewDecision, ReviewThread,
    TimelineEventType,
};
use brunson::layout::{centered_rect, RootLayout};
use brunson::markdown::{markdown_lines, parse_markdown, render_events, MdEvent, MdTag, MdTagEnd};
use brunson::primitives::{
    clamp_scroll, scrollbar_geometry, visible_range, Divider, Surface, TextFlow,
};
use brunson::split::{expand_tabs, split_lines, split_on, split_words, trim_text};
use brunson::text::{contains_text, decimal_string, truncate_to_display_width};
use brunson::theme::{state_color, Blade, Theme, BASE, FAIL, MANTLE, SUBTEXT0};
use brunson::views::activity::{event_icon, short_time, timeline_verb};
use brunson::views::chrome::{blade_keys, refresh_spinner, tab_meta_line};
use brunson::views::config::config_lines;
use brunson::views::diff::{
    render_diff_line_internal, render_inline_comments_internal, truncate_to, wrap_diff_content,
};
use brunson::views::files::{status_glyph, FileColumnLayout};
use brunson::views::help::help_lines;
use brunson::views::inbox::{filter_counts, ColumnLayout};
use brunson::views::loading::{phase_label, progress_bar};
use brunson::views::overview::status_chip_data;
use brunson::views::setup::{render_confirm, render_llm_config};
use brunson::views::text::{pad_right, pad_text, render_text_input_line};
use brunson::views::toast::{toast_color, toast_kind, ToastKind};
use brunson::wizard::{AsyncResource, SetupWizardState};

fn shown(line: &Line) -> String {
    line.spans.iter().map(|s| s.content.as_str()).collect()
}

fn shown_all(lines: &[Line]) -> Vec<String> {
    lines.iter().map(shown).collect()
}

fn detail() -> PrDetailResponse {
    PrDetailResponse {
        id: "o~r~1".to_string(),
        node_id: String::new(),
        owner: "o".to_string(),
        repo: "r".to_string(),
        number: 1,
        title: "T".to_string(),
        body: String::new(),
        url: String::new(),
        author: "a".to_string(),
        is_draft: false,
        updated_at: String::new(),
        head_ref: String::new(),
        base_ref: String::new(),
        mergeable: MergeableState::Mergeable,
        review_decision: Some(ReviewDecision::Approved),
        review_requests: vec![],
        team_review_requests: vec![],
        viewer_latest_review: None,
        latest_reviews: vec![],
        check_status: CheckStatus::Success,
        checks: vec![],
        review_threads: vec![],
        files: vec![],
        timeline: vec![],
        llm_priority: None,
        llm_summary: None,
        llm_rich_summary: None,
        last_seen_at: None,
    }
}

// Text.

#[test]
fn wide_characters_count_twice() {
    assert_eq!(truncate_to_display_width("日本語", 6), "日本語");
    assert_eq!(truncate_to_display_width("日本語", 5), "日本…");
    let cut = truncate_to_display_width("日本語テキスト", 4);
    assert_eq!(cut, "日…");
    assert_eq!(truncate_to_display_width(&cut, 4), cut);
}

#[test]
fn sequences_wider_than_their_characters_are_cut_to_fit() {
    let cloud = "\u{2601}\u{fe0f}";
    let text = cloud.repeat(3);
    assert_eq!(unicode_width::UnicodeWidthStr::width(text.as_str()), 6);
    for width in 0..7 {
        let cut = truncate_to_display_width(&text, width);
        assert!(unicode_width::UnicodeWidthStr::width(cut.as_str()) <= width, "{width}");
    }
    assert_eq!(truncate_to_display_width(&text, 3), format!("{cloud}…"));
    assert_eq!(truncate_to_display_width(&text, 6), text);
}

#[test]
fn labels_are_cut_by_columns() {
    assert_eq!(truncate_to("日本", 2), "…");
    assert_eq!(truncate_to("日本", 3), "日…");
    assert_eq!(truncate_to("日本", 4), "日本");
    assert_eq!(truncate_to("abcdef", 4), "abc…");
    assert_eq!(truncate_to("abc", 0), "");
}

#[test]
fn texts_are_split_and_trimmed() {
    assert_eq!(split_words("  a\tb\u{3000}c "), vec!["a", "b", "c"]);
    assert_eq!(split_on("a,,b", ','), vec!["a", "", "b"]);
    assert_eq!(split_lines("a\r\nb\n"), vec!["a", "b"]);
    assert_eq!(trim_text("\u{a0} x \n"), "x");
    assert_eq!(expand_tabs("a\tb"), "a    b");
    assert_eq!(decimal_string(u64::MAX), "18446744073709551615");
    assert!(contains_text("feature", "eat"));
    assert!(!contains_text("feature", "tea"));
    assert_eq!(pad_text("ab", 4), "ab  ");
    assert_eq!(pad_right("abc", 2), "abc");
}

#[test]
fn text_is_wrapped_at_words() {
    assert_eq!(shown_all(&TextFlow::wrap("one two three four", 10)), vec!["one two", "three four"]);
}

#[test]
fn input_row_shows_label_value_and_cursor() {
    let plain = Style::plain();
    let line = render_text_input_line("Filter: ", "query", 40, true, plain, plain, plain);
    assert!(shown(&line).starts_with("Filter: query"));
    let line = render_text_input_line("Filter: ", "a long query", 14, true, plain, plain, plain);
    assert_eq!(shown(&line), "Filter: a lo…█");
}

// Time.

#[test]
fn ages_use_the_largest_whole_unit() {
    let now = Moment { seconds: 1_704_067_200, nanos: 0 };
    assert_eq!(age("2024-01-01T00:00:00Z", now), "0s");
    assert_eq!(age("2023-12-31T23:59:01Z", now), "59s");
    assert_eq!(age("2023-12-31T23:00:01+00:00", now), "59m");
    assert_eq!(age("2024-01-01T00:00:00+01:00", now), "1h");
    assert_eq!(age("2023-12-29T00:00:00Z", now), "3d");
    assert_eq!(age("2024-06-01T00:00:00Z", now), "0s");
    assert_eq!(age("yesterday", now), "?");
    assert_eq!(format_age(Some(3_600)), "1h");
    assert_eq!(format_age(None), "?");
}

#[test]
fn elapsed_seconds_are_cut_off() {
    let now = Moment { seconds: 1_704_067_200, nanos: 250_000_000 };
    assert_eq!(elapsed("2023-12-31T23:59:58.500Z", now), Some(1));
    assert_eq!(elapsed("2024-01-01T00:00:01.500Z", now), Some(-1));
    assert_eq!(elapsed("", now), None);
}

#[test]
fn staleness_grows_louder() {
    assert_eq!(format_stale_age(-5), "<1m");
    assert_eq!(format_stale_age(59), "<1m");
    assert_eq!(format_stale_age(120), "2m");
    assert_eq!(format_stale_age(7_200), "2h");
    assert_eq!(format_stale_age(86_400), "1d");
    assert_eq!(stale_age_color(Some(-1)), SUBTEXT0);
    assert_eq!(stale_age_color(Some(i64::MAX)), FAIL);
}

#[test]
fn clock_reads_hours_and_minutes() {
    let clock = Clock::read();
    assert_eq!(clock.hhmm.chars().count(), 5);
    assert_eq!(clock.hhmm.chars().nth(2), Some(':'));
    assert!(clock.now.seconds > 1_700_000_000);
    let state = AppState::new(Config::default());
    let line = shown(&tab_meta_line(&state, Some(60), "09:30"));
    assert!(line.contains("1m") && line.contains("09:30"));
    assert_eq!(short_time("2024-05-20T12:34"), "05-20 12:34");
}

// Geometry.

#[test]
fn centred_rectangles_lie_within() {
    let area = Rect::new(3, 2, 10, 4);
    assert_eq!(centered_rect(area, 4, 2), Rect::new(6, 3, 4, 2));
    assert_eq!(centered_rect(area, 40, 20), area);
}

#[test]
fn small_terminals_are_not_sufficient() {
    let root = RootLayout::new(Blade::Inbox);
    assert!(root.is_sufficient(Rect::new(0, 0, 50, 12)));
    assert!(!root.is_sufficient(Rect::new(0, 0, 49, 12)));
    assert!(!root.is_sufficient(Rect::new(0, 0, 50, 11)));
    let mut scene = Scene::new();
    root.render_splash(&mut scene, Rect::new(0, 0, 40, 10));
    assert!(scene.ops.len() >= 2);
}

#[test]
fn frame_rows_are_stacked() {
    let layout = RootLayout::new(Blade::Diff).compute(Rect::new(2, 1, 60, 20));
    assert_eq!(layout.tab_line, Rect::new(2, 1, 60, 1));
    assert_eq!(layout.body, Rect::new(2, 3, 60, 15));
    assert_eq!(layout.command_line, Rect::new(2, 19, 60, 1));
    assert_eq!(layout.keybar, Rect::new(2, 20, 60, 1));
    let tight = RootLayout::new(Blade::Diff).compute(Rect::new(0, 0, 60, 5));
    assert_eq!(tight.body.height, 0);
    assert_eq!(layout.blade(Blade::Diff).content, layout.active_content());
}

#[test]
fn bordered_surface_loses_a_cell_on_each_side() {
    let area = Rect::new(1, 1, 10, 5);
    assert_eq!(Surface::bordered(BASE, MANTLE).inner(area), Rect::new(2, 2, 8, 3));
    assert_eq!(Surface::new(BASE).inner(area), area);
    assert!(Surface::bordered(BASE, MANTLE).inner(Rect::new(0, 0, 1, 1)).is_empty());
}

#[test]
fn viewport_and_thumb_stay_inside() {
    assert_eq!(clamp_scroll(10, 4, 99), 6);
    assert_eq!(clamp_scroll(3, 4, 99), 0);
    assert_eq!(visible_range(10, 4, 8), 6..10);
    assert_eq!(visible_range(2, 4, 1), 0..2);
    let area = Rect::new(0, 0, 5, 10);
    assert!(scrollbar_geometry(10, area, 0).is_none());
    let thumb = scrollbar_geometry(20, area, 10).unwrap();
    assert_eq!((thumb.x, thumb.y + thumb.height), (4, 10));
    let mut last: u16 = 0;
    for offset in 0..12 {
        let y = scrollbar_geometry(20, area, offset).unwrap().y;
        assert!(offset > 0 || y == 0);
        assert!(y >= last);
        last = y;
    }
}

#[test]
fn divider_fills_its_width() {
    let mut scene = Scene::new();
    Divider::labeled("LOG".to_string()).render(&mut scene, Rect::new(0, 0, 20, 1));
    let rows: Vec<String> = scene
        .ops
        .iter()
        .filter_map(|op| match op {
            DrawOp::Text { lines, .. } => Some(shown(&lines[0])),
            _ => None,
        })
        .collect();
    assert_eq!(rows.len(), 1);
    assert!(rows[0].contains("LOG"));
    assert_eq!(rows[0].chars().count(), 20);
}

#[test]
fn columns_fill_the_body() {
    for width in [30u16, 63, 64, 120, 400] {
        let c = ColumnLayout::compute(width);
        let author = c.author_width.map_or(0, |w| w + 1);
        assert!(c.title_x + c.title_width + author + 1 + c.next_width + 1 + 4 <= width.max(40));
        let f = FileColumnLayout::compute(width);
        assert!(f.path_width >= 8);
    }
}

// Colours and labels.

#[test]
fn palette_colours_differ() {
    let all = [Color::Crust, Color::Mantle, Color::Green, Color::Red, Color::Teal, SUBTEXT0];
    for (i, a) in all.iter().enumerate() {
        for b in &all[i + 1..] {
            assert_ne!(a.rgb(), b.rgb());
        }
    }
    assert_eq!(Color::Teal.rgb(), (148, 226, 213));
    let theme = Theme;
    assert_eq!(theme.base_bg().bg, Some(BASE));
    assert_eq!(theme.blade_bg().bg, Some(MANTLE));
    assert_ne!(state_color(PrGroup::Draft), state_color(PrGroup::Other));
    assert_eq!(fg(FAIL).bold().fg, Some(FAIL));
}

#[test]
fn blades_have_their_numbers() {
    for i in 0..Blade::count() {
        assert_eq!(Blade::from_index(i).index(), i);
    }
    assert_eq!(Blade::Files.index(), 3);
}

#[test]
fn spinner_comes_round_after_ten_frames() {
    for tick in 0..10 {
        assert_eq!(refresh_spinner(tick), refresh_spinner(tick + 10));
    }
    assert_eq!(refresh_spinner(3), "⠸");
}

#[test]
fn every_keybar_names_help_and_quit() {
    for i in 0..Blade::count() {
        let keys = blade_keys(Blade::from_index(i));
        assert!(keys.iter().any(|h| h.key == "?"));
        assert!(keys.iter().any(|h| h.key == "q"));
    }
    assert!(shown_all(&help_lines()).iter().any(|l| l.contains("q")));
}

#[test]
fn toasts_are_told_apart() {
    assert_eq!(toast_kind("Help: press ?"), ToastKind::Help);
    assert_eq!(toast_kind("Copy branch FAILED: x"), ToastKind::Error);
    assert_eq!(toast_kind("Network Error"), ToastKind::Error);
    assert_eq!(toast_kind("Copied branch: x"), ToastKind::Info);
    assert_eq!(toast_color(ToastKind::Error, Blade::Inbox), FAIL);
    assert_eq!(toast_color(ToastKind::Help, Blade::Diff), Blade::Diff.accent());
}

#[test]
fn timeline_events_have_verbs_and_icons() {
    for kind in [TimelineEventType::Comment, TimelineEventType::Merged, TimelineEventType::Other] {
        let (verb, _) = timeline_verb(kind);
        assert!(!verb.is_empty());
        assert!(!event_icon(verb).is_empty());
    }
    assert_ne!(
        event_icon(timeline_verb(TimelineEventType::Merged).0),
        event_icon(timeline_verb(TimelineEventType::Comment).0)
    );
}

#[test]
fn status_chips_tell_review_merge_and_checks() {
    let chips = status_chip_data(&detail());
    let texts: Vec<&str> = chips.iter().map(|c| c.text.as_str()).collect();
    assert_eq!(texts.len(), 3);
    assert_eq!(texts[0], "approved");
    assert_eq!(texts[1], "mergeable");
}

#[test]
fn loading_bar_moves_but_keeps_its_width() {
    assert_eq!(progress_bar(0, 20).chars().count(), progress_bar(7, 20).chars().count());
    assert_ne!(progress_bar(0, 20), progress_bar(7, 20));
    assert_eq!(phase_label(brunson::app::StartupPhase::Starting), "Starting daemon");
    assert_ne!(status_glyph('A'), status_glyph('D'));
}

// Markdown.

#[test]
fn markdown_is_read_into_events() {
    let events = parse_markdown("# Hi *you*");
    assert!(matches!(events[0], MdEvent::Start(MdTag::Heading(1))));
    assert!(matches!(&events[1], MdEvent::Text(t) if t == "Hi "));
    assert!(matches!(events[2], MdEvent::Start(MdTag::Emphasis)));
    assert!(matches!(events[4], MdEvent::End(MdTagEnd::Emphasis)));
    assert!(matches!(events[5], MdEvent::End(MdTagEnd::Heading)));
    let events = parse_markdown("3. [a](http://x) ![b](y)");
    assert!(matches!(events[0], MdEvent::Start(MdTag::List(Some(3)))));
    assert!(events.iter().any(|e| matches!(e, MdEvent::Start(MdTag::Link(u)) if u == "http://x")));
    assert!(events.iter().any(|e| matches!(e, MdEvent::Start(MdTag::Image(u)) if u == "y")));
}

#[test]
fn markdown_rows_fit_the_width() {
    let text = "some words that are to be wrapped at twelve columns";
    for line in shown_all(&markdown_lines(text, 12)) {
        assert!(line.chars().count() <= 12, "{line}");
    }
    for text in ["- aaaa bbbb cccc", "> aaaa bbbb cccc", "12. aaaa bbbb", "- 日本 日本 日本"] {
        for line in shown_all(&markdown_lines(text, 10)) {
            assert!(unicode_width::UnicodeWidthStr::width(line.as_str()) <= 10, "{line}");
        }
    }
    assert_eq!(
        shown_all(&markdown_lines("- aaaa bbbb", 10)).iter().filter(|l| !l.is_empty()).count(),
        2
    );
    let rendered = render_events(&vec![MdEvent::Text("plain".to_string())], 20);
    assert!(shown_all(&rendered).iter().any(|l| l == "plain"));
}

#[test]
fn nested_prefixes_end_with_their_element() {
    let lines = shown_all(&markdown_lines("> quoted\n\nplain", 40));
    assert!(lines.iter().any(|l| l.ends_with("quoted") && l != "quoted"));
    assert!(lines.iter().any(|l| l == "plain"));
    let lines = shown_all(&markdown_lines("1. one\n2. two", 40));
    assert!(lines.iter().any(|l| l.contains("1. one")));
    assert!(lines.iter().any(|l| l.contains("2. two")));
}

#[test]
fn code_lines_are_cut_at_the_width() {
    let lines = shown_all(&markdown_lines("```\n0123456789\n\nab\n```", 9));
    let code: Vec<&String> = lines.iter().filter(|l| l.starts_with("  │ ")).collect();
    assert_eq!(code, vec!["  │ 01234", "  │ 56789", "  │ ", "  │ ab"]);
}

#[test]
fn open_row_runs_on_under_a_new_prefix_where_it_fits() {
    let lines = shown_all(&markdown_lines("- outer\n  - inner", 20));
    assert_eq!(lines, vec!["  • outer inner"]);
    let lines = shown_all(&markdown_lines("- outermost\n  - inner", 11));
    assert_eq!(lines, vec!["• outermost", "  • inner"]);
}

#[test]
fn code_of_an_item_stands_below_its_text() {
    let lines = shown_all(&markdown_lines("- text\n  ```\n  code\n  ```", 20));
    assert_eq!(lines, vec!["• text", "  │ code"]);
}

// Diffs.

#[test]
fn diff_lines_are_numbered_on_both_sides() {
    let parsed = parse_diff(
        "diff --git a/x.rs b/x.rs\n@@ -10,3 +20,3 @@ fn f()\n same\n-old\n+new\n\\ No newline at end of file\n",
    );
    assert_eq!(parsed.len(), 6);
    assert_eq!(parsed[0].line_type, DiffLineType::FileHeader);
    assert_eq!(parsed[1].line_type, DiffLineType::HunkHeader);
    assert_eq!(
        (parsed[2].old_line, parsed[2].new_line, parsed[2].line_type),
        (Some(10), Some(20), DiffLineType::Context)
    );
    assert_eq!((parsed[3].old_line, parsed[3].new_line), (Some(11), None));
    assert_eq!((parsed[4].old_line, parsed[4].new_line), (None, Some(21)));
    assert_eq!(parsed[5].line_type, DiffLineType::NoNewline);
    assert_eq!(parsed[4].current_path, "x.rs");
    assert_eq!(find_file_boundaries(&parsed), vec![0]);
}

fn comment(path: &str, line: Option<u64>) -> ReviewComment {
    ReviewComment {
        author: "élan".to_string(),
        body: "please fix".to_string(),
        path: path.to_string(),
        line,
        created_at: String::new(),
        url: String::new(),
    }
}

#[test]
fn review_comments_stand_below_their_line() {
    let parsed = parse_diff("diff --git a/x.rs b/x.rs\n@@ -1,1 +1,2 @@\n same\n+new\n");
    let threads = vec![ReviewThread {
        is_resolved: false,
        is_outdated: false,
        comments: vec![comment("x.rs", Some(2)), comment("y.rs", Some(2)), comment("x.rs", None)],
    }];
    let placed = map_review_threads_to_diff_indices(&threads, &parsed);
    assert_eq!(placed.len(), parsed.len());
    assert_eq!(placed[3].len(), 1);
    assert_eq!(placed[3][0].path, "x.rs");
}

#[test]
fn comment_header_shows_the_capital_initial() {
    let rows = render_inline_comments_internal(&vec![comment("x.rs", Some(2))], 60);
    let header = shown(&rows[0]);
    assert!(header.contains("É "), "{header}");
    assert!(header.contains("@élan"));
    assert!(header.contains("x.rs:2"));
    assert!(shown(&rows[1]).contains("please fix"));
}

#[test]
fn wrapping_a_diff_line_loses_nothing() {
    let text = "0123456789abcdef";
    let rows = wrap_diff_content(text, 7);
    assert_eq!(rows, vec!["0123456", "789abcd", "ef"]);
    assert_eq!(rows.concat(), text);
    assert_eq!(truncate_to("abcdef", 3).chars().count(), 3);
    let parsed = parse_diff("diff --git a/x b/x\n@@ -1 +1 @@\n+0123456789abcdef\n");
    let lines = render_diff_line_internal(&parsed[2], false, 7);
    assert!(shown(&lines[0]).starts_with("+ "));
    assert!(lines[1..].iter().all(|l| !shown(l).starts_with('+')));
}

// Secrets and settings.

#[test]
fn configuration_overlay_hides_the_key() {
    let mut state = AppState::new(Config::default());
    state.config.llm.api_key = "hunter2".to_string();
    let with_key = shown_all(&config_lines(&state, &vec!["is:open".to_string()])).join("\n");
    assert!(!with_key.contains("hunter2"));
    assert!(with_key.contains("is:open"));
    state.config.llm.api_key = "another".to_string();
    let other = shown_all(&config_lines(&state, &vec!["is:open".to_string()])).join("\n");
    assert_eq!(with_key, other);
}

#[test]
fn wizard_shows_a_key_by_its_length_alone() {
    let mut wizard = SetupWizardState::hydrate("/c.toml".to_string(), &Config::default());
    wizard.llm_enabled = true;
    wizard.llm_api_key = "hunter2".to_string();
    let first = shown_all(&render_llm_config(&wizard, 60));
    wizard.llm_api_key = "another".to_string();
    assert_eq!(first, shown_all(&render_llm_config(&wizard, 60)));
    assert!(first.iter().any(|l| l.contains("*******")));
    assert!(!first.iter().any(|l| l.contains("hunter2")));
}

#[test]
fn confirm_step_shows_draft_or_failure() {
    let mut wizard = SetupWizardState::hydrate("/c.toml".to_string(), &Config::default());
    let shown_draft = shown_all(&render_confirm(&wizard, &Ok("[github]".to_string()))).join("\n");
    assert!(shown_draft.contains("[github]"));
    wizard.commit = AsyncResource::Failed("denied".to_string());
    let failed = shown_all(&render_confirm(&wizard, &Ok(String::new()))).join("\n");
    assert!(failed.contains("denied"));
    wizard.commit = AsyncResource::Loading;
    let writing = shown_all(&render_confirm(&wizard, &Ok(String::new()))).join("\n");
    assert!(!writing.contains("denied"));
}

#[test]
fn filter_counts_shown_and_all() {
    let state = AppState::new(Config::default());
    assert_eq!(filter_counts(&state.prs, "x"), (0, 0));
}
