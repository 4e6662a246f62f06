//! Rows, columns and bars of the single views.
use brunson::api::{Moment, PrSummary};
use brunson::clock::stale_age_color;
use brunson::diff::{DiffLineType, ParsedDiffLine};
use brunson::draw::{Color, Line, Rect, Style};
use brunson::github::{CheckStatus, PrGroup};
use brunson::layout::{centered_rect, RootLayout};
use brunson::markdown::markdown_lines;
use brunson::primitives::{scrollbar_geometry, ScrollViewport};
use brunson::text::truncate_to_display_width;
use brunson::theme::{
    Blade, ADD, ADD_BG, FAIL, INBOX, MUTED, OVERLAY0, PASS, PENDING, SUBTEXT0,
};
use brunson::views::activity::short_time;
use brunson::views::chrome::{
    blade_keys, command_line_budget, command_line_spans, refresh_spinner,
};
use brunson::views::diff::{
    logical_line_for_visual_offset, render_diff_line_internal, wrap_diff_content, WRAP_MARKER,
};
use brunson::views::files::FileColumnLayout;
use brunson::views::inbox::{
    header_line, inbox_preview_rows, next_action_style, pr_row_line, preview_strip_lines,
    ColumnLayout,
};
use brunson::views::loading::progress_bar;
use brunson::views::overview::{
    effective_summary_len, overview_section_layout, Chip, OverviewSectionLayout,
};
use brunson::views::text::pad_span;
use unicode_width::UnicodeWidthStr;

const NOW: Moment = Moment { seconds: 1_704_240_000, nanos: 0 };

#[test]
fn active_blade_gets_full_body_width() {
    let area = Rect::new(0, 0, 100, 40);
    for i in 0..Blade::count() {
        let layout = RootLayout::new(Blade::from_index(i)).compute(area);
        for (j, blade) in layout.blades.iter().enumerate() {
            assert_eq!(blade.rect, layout.body);
            assert_eq!(blade.content, layout.body);
            assert_eq!(blade.rect.width, area.width);
            assert_eq!(blade.is_active, i == j);
        }
    }
}

#[test]
fn chrome_rows_bracket_a_full_bleed_body() {
    let layout = RootLayout::new(Blade::Inbox).compute(Rect::new(0, 0, 80, 24));
    // tab line + rule + body + rule + status + keybar = 5 chrome rows.
    assert_eq!(layout.tab_line.height, 1);
    assert_eq!(layout.command_line.height, 1);
    assert_eq!(layout.keybar.height, 1);
    assert_eq!(layout.body.height, 19);
    assert_eq!(layout.body.width, 80);
    // The tab line sits above the body, which sits above the chrome.
    assert!(layout.tab_line.bottom() <= layout.body.y);
    assert!(layout.body.bottom() <= layout.command_line.y);
    assert!(layout.command_line.bottom() <= layout.keybar.y);
}

#[test]
fn minimum_size_splash_rect_fits_and_centers() {
    let area = Rect::new(0, 0, 40, 10);
    let popup = centered_rect(area, 28, 4);
    assert!(popup.width <= area.width);
    assert!(popup.height <= area.height);
    assert_eq!(popup.x, 6);
    assert_eq!(popup.y, 3);
}

fn lines(n: usize) -> Vec<Line> {
    (0..n).map(|i| Line::raw(&format!("line {i}"))).collect()
}

#[test]
fn viewport_slices_visible_lines() {
    let lines = lines(10);
    let vp = ScrollViewport::new(&lines, 3);
    assert_eq!(vp.visible_range(4), 3..7);
}

#[test]
fn viewport_clamps_scroll_past_end() {
    let lines = lines(10);
    let vp = ScrollViewport::new(&lines, 99);
    assert_eq!(vp.clamped_scroll(4), 6);
    assert_eq!(vp.visible_range(4), 6..10);
}

#[test]
fn scrollbar_position_tracks_scroll() {
    let area = Rect::new(2, 5, 20, 10);
    let top = scrollbar_geometry(100, area, 0).unwrap();
    let mid = scrollbar_geometry(100, area, 45).unwrap();
    let bottom = scrollbar_geometry(100, area, 90).unwrap();
    assert_eq!(top.x, 21);
    assert_eq!(top.y, 5);
    assert!(mid.y > top.y);
    assert_eq!(bottom.y + bottom.height, area.bottom());
}

#[test]
fn test_short_time() {
    assert_eq!(short_time("2024-05-20T12:34:56Z"), "05-20 12:34");
    assert_eq!(short_time("now"), "now");
}

#[test]
fn refresh_spinner_cycles_through_frames() {
    let first = refresh_spinner(0);
    let second = refresh_spinner(1);
    let wrap = refresh_spinner(10);
    assert!(!first.is_empty());
    assert_ne!(first, second);
    assert_eq!(first, wrap);
}

#[test]
fn stale_age_color_escalates_with_age() {
    assert_eq!(stale_age_color(None), OVERLAY0);
    assert_eq!(stale_age_color(Some(10)), SUBTEXT0);
    assert_eq!(stale_age_color(Some(299)), SUBTEXT0);
    assert_eq!(stale_age_color(Some(300)), PENDING);
    assert_eq!(stale_age_color(Some(899)), PENDING);
    assert_eq!(stale_age_color(Some(900)), FAIL);
}

#[test]
fn blade_keys_cover_every_blade() {
    for i in 0..Blade::count() {
        assert!(!blade_keys(Blade::from_index(i)).is_empty());
    }
}

#[test]
fn keybar_activity_includes_event_actions() {
    let keys = blade_keys(Blade::Activity);
    let find = |key: &str| keys.iter().find(|h| h.key == key).map(|h| h.action);
    assert_eq!(find("⏎/space"), Some("expand"));
    assert_eq!(find("y"), Some("copy comment"));
    assert_eq!(find("o"), Some("open event"));
}

#[test]
fn keybar_overview_no_longer_lists_d() {
    assert!(!blade_keys(Blade::Overview).iter().any(|h| h.key == "d"));
}

fn sample_chips() -> Vec<Chip> {
    vec![
        Chip { text: "approved".to_string(), color: Color::Green },
        Chip { text: "mergeable".to_string(), color: Color::Green },
        Chip { text: "checks ✓".to_string(), color: Color::Green },
    ]
}

#[test]
fn command_line_appends_status_chips_when_wide() {
    let spans = command_line_spans(
        "❖ #1 Test PR",
        "OVERVIEW",
        Color::Teal,
        &sample_chips(),
        120,
    );
    let text: String = spans.spans.iter().map(|s| s.content.as_str()).collect();
    assert!(text.contains("approved"));
    assert!(text.contains("mergeable"));
    assert!(text.contains("checks ✓"));
}

#[test]
fn command_line_drops_chips_when_narrow() {
    // Below the 60-col threshold the chips vanish and the title keeps
    // the full remaining budget.
    let (show, max_title) = command_line_budget(59, 11, &sample_chips());
    assert!(!show);
    assert_eq!(max_title, 59 - (2 + 11 + 1));

    let spans =
        command_line_spans("❖ #1 Test PR", "OVERVIEW", Color::Teal, &sample_chips(), 59);
    let text: String = spans.spans.iter().map(|s| s.content.as_str()).collect();
    assert!(!text.contains("approved"));

    // At or above the threshold the chips reserve width first.
    let (show, max_title) = command_line_budget(80, 11, &sample_chips());
    assert!(show);
    let chips_width = sample_chips()
        .iter()
        .map(|c| 3 + c.text.chars().count())
        .sum::<usize>();
    assert_eq!(max_title, 80 - (2 + 11 + 1) - chips_width);
}

#[test]
fn command_line_without_chips_matches_old_budget() {
    let (show, max_title) = command_line_budget(120, 11, &Vec::new());
    assert!(!show, "no detail loaded ⇒ no chips even when wide");
    assert_eq!(max_title, 120 - (2 + 11 + 1));
}

#[test]
fn test_wrap_diff_content_expands_tabs() {
    let lines = wrap_diff_content("a\tb", 80);
    assert_eq!(lines, vec!["a    b".to_string()]);
}

#[test]
fn test_wrap_diff_content_respects_newlines() {
    let lines = wrap_diff_content("hello\nworld", 80);
    assert_eq!(lines, vec!["hello".to_string(), "world".to_string()]);
}

#[test]
fn test_wrap_diff_content_hard_wraps_long_lines() {
    let content = "a".repeat(50);
    let lines = wrap_diff_content(&content, 20);
    assert_eq!(lines.len(), 3);
    assert!(lines.iter().all(|l| l.chars().count() <= 20));
}

#[test]
fn test_render_diff_line_wraps_long_content_into_multiple_lines() {
    let parsed = ParsedDiffLine {
        line_type: DiffLineType::Context,
        content: "a".repeat(200),
        old_line: Some(1),
        new_line: Some(1),
        current_path: String::new(),
    };
    let lines = render_diff_line_internal(&parsed, true, 20);
    assert!(
        lines.len() > 1,
        "long content should wrap into multiple lines, got: {}",
        lines.len()
    );
    for line in &lines {
        let rendered: String = line.spans.iter().map(|s| s.content.clone()).collect();
        assert!(
            rendered.chars().count() <= 34,
            "line overflowed: {}",
            rendered
        );
    }
}

#[test]
fn test_wrapped_deletion_continuation_has_no_repeated_sign() {
    let parsed = ParsedDiffLine {
        line_type: DiffLineType::Deletion,
        content: "a".repeat(50),
        old_line: Some(1),
        new_line: None,
        current_path: String::new(),
    };
    let lines = render_diff_line_internal(&parsed, false, 20);
    assert!(lines.len() > 1, "expected content to wrap");

    // First row keeps the deletion sign.
    let first: String = lines[0].spans.iter().map(|s| s.content.clone()).collect();
    assert!(first.starts_with("− "), "first row should carry the sign: {first}");

    // Continuation rows must use the wrap marker instead of repeating
    // the sign, or a wrapped deletion looks like a second deleted line.
    for line in &lines[1..] {
        assert_eq!(line.spans[0].content, WRAP_MARKER);
        let rendered: String = line.spans.iter().map(|s| s.content.clone()).collect();
        assert!(
            !rendered.starts_with('−') && !rendered.starts_with('+'),
            "continuation row repeated the diff sign: {rendered}"
        );
    }
}

#[test]
fn test_wrapped_continuation_keeps_add_del_background() {
    let parsed = ParsedDiffLine {
        line_type: DiffLineType::Addition,
        content: "a".repeat(50),
        old_line: None,
        new_line: Some(1),
        current_path: String::new(),
    };
    let lines = render_diff_line_internal(&parsed, false, 20);
    assert!(lines.len() > 1, "expected content to wrap");

    // The continuation's content span keeps the addition coloring so the
    // wrapped text still reads as part of the same added line, while its
    // marker span is dimmed rather than colored like a sign.
    let marker_span = &lines[1].spans[0];
    assert_eq!(marker_span.style.fg, Some(MUTED));
    let content_span = &lines[1].spans[1];
    assert_eq!(content_span.style.fg, Some(ADD));
    assert_eq!(content_span.style.bg, Some(ADD_BG));
}

#[test]
fn test_logical_line_for_visual_offset_maps_wrapped_rows_to_their_line() {
    // Logical line 0 spans visual rows 0..3 (wrapped 3x), line 1 spans
    // row 3, line 2 spans row 4.
    let line_starts = vec![0, 3, 4];
    assert_eq!(logical_line_for_visual_offset(&line_starts, 0), 1);
    assert_eq!(logical_line_for_visual_offset(&line_starts, 2), 1);
    assert_eq!(logical_line_for_visual_offset(&line_starts, 3), 2);
    assert_eq!(logical_line_for_visual_offset(&line_starts, 4), 3);
    // Past the end, clamp to the last logical line.
    assert_eq!(logical_line_for_visual_offset(&line_starts, 99), 3);
}

#[test]
fn test_logical_line_for_visual_offset_empty_defaults_to_one() {
    assert_eq!(logical_line_for_visual_offset(&Vec::new(), 0), 1);
}

#[test]
fn test_render_diff_line_respects_zero_content_width() {
    let parsed = ParsedDiffLine {
        line_type: DiffLineType::Context,
        content: "should be hidden".to_string(),
        old_line: Some(1),
        new_line: Some(1),
        current_path: String::new(),
    };
    let lines = render_diff_line_internal(&parsed, true, 0);
    assert_eq!(lines.len(), 1);
    let rendered: String = lines[0].spans.iter().map(|s| s.content.clone()).collect();
    let content_part = rendered
        .trim_start_matches(|c: char| c.is_ascii_digit() || c.is_whitespace() || c == '│');
    assert!(
        content_part.is_empty() || content_part.chars().all(|c| c == '+' || c.is_whitespace()),
        "content should be clipped when max_content_width is 0"
    );
}

#[test]
fn file_column_layout_flexes_path_and_drops_comments_when_narrow() {
    let wide = FileColumnLayout::compute(120);
    assert!(wide.comments_width.is_some());
    assert!(wide.path_width > 40, "path should flex on wide terminals");

    let narrow = FileColumnLayout::compute(28);
    assert!(narrow.path_width >= 8);
    assert!(narrow.comments_width.is_none());
}

#[test]
fn files_pad_span_pads_short_text_and_truncates_long_text() {
    assert_eq!(pad_span("ab", 5, Style::plain()).content, "ab   ");
    assert_eq!(pad_span("abcdef", 3, Style::plain()).content, "abc");
}

fn sample_pr(next_action: &str, check_status: CheckStatus) -> PrSummary {
    PrSummary {
        id: "org~repo~7".to_string(),
        node_id: "n7".to_string(),
        owner: "org".to_string(),
        repo: "repo".to_string(),
        number: 7,
        title: "Add feature".to_string(),
        author: "alice".to_string(),
        author_is_bot: false,
        group: PrGroup::ReviewNeeded,
        next_action: next_action.to_string(),
        check_status,
        llm_priority: None,
        updated_at: "2024-01-01T00:00:00Z".to_string(),
        url: "https://example.com".to_string(),
        comments: 0,
        head_ref: "feature/thing".to_string(),
        llm_one_line: Some("Adds the thing".to_string()),
    }
}

fn line_text(line: &Line) -> String {
    line.spans.iter().map(|s| s.content.as_str()).collect()
}

/// Char (display-column) index of `needle` in `text`. Byte offsets would
/// disagree between header and data rows because rows contain multibyte
/// glyphs like the priority dot.
fn char_pos(text: &str, needle: &str) -> Option<usize> {
    text.find(needle).map(|b| text[..b].chars().count())
}

#[test]
fn column_layout_next_width_by_body_width() {
    // ≥ 64 cols: NEXT is 16 wide (fits "Address feedback" untruncated).
    assert_eq!(ColumnLayout::compute(64).next_width, 16);
    assert_eq!(ColumnLayout::compute(160).next_width, 16);
    // < 64 cols: NEXT shrinks to 8 with truncation.
    assert_eq!(ColumnLayout::compute(63).next_width, 8);
    assert_eq!(ColumnLayout::compute(30).next_width, 8);
}

#[test]
fn column_layout_drops_author_before_next() {
    // Wide: author present, title flexes past its 40% floor.
    let wide = ColumnLayout::compute(160);
    assert!(wide.author_width.is_some());
    assert!(wide.title_width > 80, "title should flex on wide terminals");
    assert!(
        wide.title_width >= (160 * 40 / 100),
        "title keeps at least 40% of body width"
    );
    assert_eq!(wide.title_x, 11);

    // Narrow: author drops, NEXT survives (it is mandatory).
    let narrow = ColumnLayout::compute(40);
    assert!(narrow.author_width.is_none());
    assert_eq!(narrow.next_width, 8);
    assert!(narrow.title_width >= 8);
}

#[test]
fn pr_row_renders_next_action_column() {
    let pr = sample_pr("Review now", CheckStatus::Success);
    let cols = ColumnLayout::compute(100);
    let line = pr_row_line(&pr, "me", false, &cols, 100, NOW);
    let text = line_text(&line);
    assert!(text.contains("Review now"), "row shows the NEXT action");
    assert!(!text.contains('✎'), "comment-count column has been removed");
    // NEXT sits between the author column and the age column.
    let next_pos = text.find("Review now").unwrap();
    let author_pos = text.find("@alice").unwrap();
    assert!(author_pos < next_pos);
}

#[test]
fn pr_row_appends_ci_cross_when_checks_fail_on_non_fix_ci_action() {
    let pr = sample_pr("Review now", CheckStatus::Failure);
    let cols = ColumnLayout::compute(100);
    let line = pr_row_line(&pr, "me", false, &cols, 100, NOW);
    assert!(line_text(&line).contains('✕'), "red CI flag in NEXT cell");

    // A "Fix CI" row already communicates failing CI; no extra flag.
    let pr = sample_pr("Fix CI", CheckStatus::Failure);
    let line = pr_row_line(&pr, "me", false, &cols, 100, NOW);
    assert!(!line_text(&line).contains('✕'));
}

#[test]
fn next_action_style_maps_urgency_colors() {
    assert_eq!(next_action_style("Fix CI").fg, Some(FAIL));
    assert_eq!(next_action_style("Address feedback").fg, Some(FAIL));
    assert_eq!(next_action_style("Review now").fg, Some(INBOX));
    assert_eq!(next_action_style("Re-review").fg, Some(INBOX));
    assert_eq!(next_action_style("Respond").fg, Some(INBOX));
    assert_eq!(next_action_style("Merge").fg, Some(PASS));
    assert_eq!(next_action_style("Waiting").fg, Some(MUTED));
    assert_eq!(next_action_style("Something new").fg, Some(SUBTEXT0));
}

#[test]
fn header_labels_align_with_columns() {
    let cols = ColumnLayout::compute(100);
    let header = line_text(&header_line("", 0, 0, &cols));
    let row = line_text(&pr_row_line(
        &sample_pr("Review now", CheckStatus::Success),
        "me",
        false,
        &cols,
        100,
        NOW,
    ));
    assert!(header.contains("AUTHOR"));
    assert!(header.contains("NEXT"));
    assert!(header.contains("AGE"));
    assert!(!header.contains('✓'));
    assert!(!header.contains('✎'));
    // The NEXT label starts at the same display column as the action text.
    assert_eq!(char_pos(&header, "NEXT"), char_pos(&row, "Review now"));
}

#[test]
fn preview_strip_shows_summary_and_head_ref() {
    let pr = sample_pr("Review now", CheckStatus::Success);
    let lines = preview_strip_lines(Some(&pr), 80, NOW);
    assert_eq!(lines.len(), 2);
    assert!(line_text(&lines[0]).contains("Adds the thing"));
    let branch_row = line_text(&lines[1]);
    assert!(branch_row.contains("repo"));
    assert!(branch_row.contains("feature/thing"));
}

#[test]
fn preview_strip_falls_back_when_summary_missing() {
    let mut pr = sample_pr("Review now", CheckStatus::Success);
    pr.llm_one_line = None;
    pr.head_ref = String::new();
    let lines = preview_strip_lines(Some(&pr), 80, NOW);
    assert!(line_text(&lines[0]).contains("— no summary yet"));
    assert!(line_text(&lines[1]).contains('—'), "missing branch is —");
}

#[test]
fn preview_strip_hidden_below_height_threshold() {
    assert_eq!(inbox_preview_rows(7), 0);
    assert_eq!(inbox_preview_rows(8), 2);
    assert_eq!(inbox_preview_rows(40), 2);
}

#[test]
fn inbox_pad_span_pads_short_text_and_truncates_long_text() {
    assert_eq!(pad_span("ab", 5, Style::plain()).content, "ab   ");
    assert_eq!(pad_span("abcdef", 3, Style::plain()).content, "abc");
}

#[test]
fn progress_bar_keeps_stable_width() {
    let bar = progress_bar(3, 20);
    assert_eq!(bar.chars().count(), 22);
    assert!(bar.starts_with('['));
    assert!(bar.ends_with(']'));
}

#[test]
fn truncate_adds_ellipsis_and_respects_display_width() {
    let s = truncate_to_display_width("src/very/long/path/to/file.rs", 10);
    assert!(UnicodeWidthStr::width(s.as_str()) <= 10);
    assert!(s.ends_with('…'));

    assert_eq!(truncate_to_display_width("hi", 10), "hi");
    assert_eq!(truncate_to_display_width("abc", 0), "");
}

#[test]
fn truncate_narrow_uses_ellipsis() {
    assert_eq!(truncate_to_display_width("hello world", 1), "…");
}

#[test]
fn truncate_fits_unchanged() {
    assert_eq!(truncate_to_display_width("hi", 5), "hi");
}

fn layout_sum(l: &OverviewSectionLayout) -> u16 {
    l.summary.unwrap_or(0) + l.problems.unwrap_or(0) + l.description + l.last_activity
}

#[test]
fn section_layout_sums_to_body_height() {
    for height in 0..=40u16 {
        for (summary, problems) in [(0, 0), (3, 0), (0, 5), (3, 5), (100, 100)] {
            let l = overview_section_layout(height, summary, problems);
            assert_eq!(
                layout_sum(&l),
                height,
                "height={height} summary={summary} problems={problems}"
            );
        }
    }
}

#[test]
fn section_layout_description_absorbs_remainder() {
    let l = overview_section_layout(30, 3, 2);
    assert_eq!(l.summary, Some(4), "summary = content + header");
    assert_eq!(l.problems, Some(3), "problems = content + header");
    assert_eq!(l.last_activity, 1);
    assert_eq!(l.description, 30 - 4 - 3 - 1);

    // With no summary/problems, the description owns everything but the
    // Last Activity row.
    let l = overview_section_layout(30, 0, 0);
    assert_eq!(l.summary, None);
    assert_eq!(l.problems, None);
    assert_eq!(l.description, 29);
}

#[test]
fn section_layout_caps_summary_and_problems() {
    let l = overview_section_layout(30, 100, 100);
    // Summary caps at 40% of the body.
    assert_eq!(l.summary, Some(12));
    // Problems caps at 6 rows.
    assert_eq!(l.problems, Some(6));
    assert!(l.description > 0, "description keeps the remainder");
}

#[test]
fn problems_section_absent_when_checks_green() {
    let l = overview_section_layout(30, 3, 0);
    assert_eq!(l.problems, None);
}

#[test]
fn section_layout_degrades_without_overflow_on_tiny_bodies() {
    for height in 0..=6u16 {
        let l = overview_section_layout(height, 10, 10);
        assert_eq!(layout_sum(&l), height, "height={height}");
    }
}

#[test]
fn effective_summary_len_reserves_a_row_while_loading() {
    assert_eq!(effective_summary_len(0, true), 1);
    assert_eq!(effective_summary_len(0, false), 0);
    assert_eq!(effective_summary_len(5, true), 5);
    assert_eq!(effective_summary_len(5, false), 5);
}

#[test]
fn test_plain_paragraph_wraps_to_width() {
    let lines = markdown_lines("one two three four", 10);
    assert_eq!(line_text(&lines[0]), "one two");
    assert_eq!(line_text(&lines[1]), "three four");
}

#[test]
fn test_bold_and_italic() {
    let lines = markdown_lines("**bold** and *italic*", 80);
    let text: String = lines.iter().map(line_text).collect();
    assert!(text.contains("bold"));
    assert!(text.contains("italic"));
    assert!(
        lines.len() <= 2,
        "bold/italic text should fit on one line plus optional trailing blank"
    );
}

#[test]
fn test_link_renders_url_fallback() {
    let lines = markdown_lines("[text](https://example.com)", 80);
    let text: String = lines.iter().map(line_text).collect();
    assert!(text.contains("text"));
    assert!(text.contains("https://example.com"));
}

#[test]
fn test_list_prefix_and_indent() {
    let lines = markdown_lines("- alpha\n- beta", 20);
    let text: String = lines.iter().map(|l| line_text(l) + "\n").collect();
    assert!(text.contains("• alpha"));
    assert!(text.contains("• beta"));
}

#[test]
fn test_code_block_lines_are_prefixed() {
    let lines = markdown_lines("```\nhello\nworld\n```", 20);
    assert!(lines.iter().any(|l| line_text(l).starts_with("  │ ")));
}
