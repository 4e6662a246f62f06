//! The Overview blade.
use vstd::prelude::*;

use crate::api::{FileDto, PrDetailResponse};
use crate::app::{App, AppState};
use crate::cache::held;
use crate::component::RenderContext;
use crate::draw::{
    bg, blank, fg, fill_op, less, line_op, lines_view, max, min, raw_row, row, sp, Color, Line,
    OpView, Rect, Scene, SpanView,
};
use crate::github::{
    CheckStatus, MergeableState, Priority, ReviewDecision, TimelineEvent, TimelineEventType,
};
use crate::layout::{layout_rows, settled, split_rows, Constraint};
use crate::primitives::{viewport_ops, ScrollViewport};
use crate::scroll::OverviewFocus;
use crate::sort::{comes_before, text_before};
use crate::state::Pane;
use crate::text::{
    decimal, decimal_string, joined, joined3, text_columns, text_width, truncate_to_display_width,
    truncated,
};
use crate::theme::{
    ADD, BASE, DEL, DRAFT, MANTLE, MED, MUTED, OPEN, OVERLAY0, OVERVIEW, PENDING, SUBTEXT0,
    SURFACE0, TEXT,
};
use crate::views::activity::{short_time, short_time_of};
use crate::views::inbox::{counted, priority_dot_color};

verus! {

/// Number of fixed chrome rows above the scrollable body (title, identity
/// line, status row).
pub const OVERVIEW_CHROME_ROWS: u16 = 3;

/// Whether the summary section is in its loading state: a rich summary is
/// being fetched and the loaded detail doesn't have one yet.
pub open spec fn is_summary_loading(app: App) -> bool {
    app.llm_detail_loading && app.pr_detail is Some && app.pr_detail->0.llm_rich_summary is None
}

pub fn summary_loading(state: &AppState) -> (r: bool)
    ensures
        r == is_summary_loading(state@),
{
    state.llm_detail_loading && match &state.pr_detail {
        Some(d) => d.llm_rich_summary.is_none(),
        None => false,
    }
}

/// Effective summary line count: while the summary is loading, an empty one
/// still claims one placeholder row, so the section stays visible.
pub open spec fn summary_len(lines: int, loading: bool) -> int {
    if loading {
        max(lines, 1)
    } else {
        lines
    }
}

pub fn effective_summary_len(lines: usize, loading: bool) -> (r: usize)
    ensures
        r == summary_len(lines as int, loading),
{
    if loading && lines < 1 {
        1
    } else {
        lines
    }
}

/// Resolved Overview body layout. `None` means the section is absent this
/// frame (no content), not merely zero-height.
#[derive(Debug, Clone, Copy, PartialEq, Eq, Structural)]
pub struct OverviewSectionLayout {
    /// `Brunson Says...`: absent when there is no summary and none loading.
    pub summary: Option<u16>,
    /// `PROBLEMS`: absent when nothing is wrong.
    pub problems: Option<u16>,
    /// `DESCRIPTION`: always present; absorbs all remaining rows.
    pub description: u16,
    /// `LAST ACTIVITY`: 1 when it fits, else 0.
    pub last_activity: u16,
}

/// Rows that a section's content asks for, its header included.
pub open spec fn wanted_rows(len: int) -> int {
    min(min(len, 65534) + 1, 65535)
}

/// The heights of the Overview sections: one row for the last activity, the
/// summary as tall as its content but at most 40% of the body, the problems at
/// most six rows, the description whatever is left.
pub open spec fn overview_sections(body: u16, summary_len: int, problems_len: int) -> OverviewSectionLayout {
    let last = min(body as int, 1);
    let after_last = body - last;
    let summary = min(min(wanted_rows(summary_len), body * 40 / 100), after_last);
    let after_summary = if summary_len > 0 {
        after_last - summary
    } else {
        after_last
    };
    let problems = min(min(wanted_rows(problems_len), 6), after_summary);
    let after_problems = if problems_len > 0 {
        after_summary - problems
    } else {
        after_summary
    };
    OverviewSectionLayout {
        summary: if summary_len > 0 {
            Some(summary as u16)
        } else {
            None
        },
        problems: if problems_len > 0 {
            Some(problems as u16)
        } else {
            None
        },
        description: after_problems as u16,
        last_activity: last as u16,
    }
}

/// The height of a section, zero where it is absent.
pub open spec fn rows_of_section(h: Option<u16>) -> int {
    match h {
        Some(n) => n as int,
        None => 0,
    }
}

/// The heights of the sections sum exactly to the height of the body, whatever
/// their content and however small the body.
pub proof fn overview_sections_fill_body(body: u16, summary_len: int, problems_len: int)
    ensures
        ({
            let s = overview_sections(body, summary_len, problems_len);
            rows_of_section(s.summary) + rows_of_section(s.problems) + s.description
                + s.last_activity == body
        }),
{
}

/// The summary takes at most 40% of the body and the problems at most six
/// rows; a section is absent exactly where it has no content.
pub proof fn overview_sections_are_capped(body: u16, summary_len: int, problems_len: int)
    ensures
        ({
            let s = overview_sections(body, summary_len, problems_len);
            &&& rows_of_section(s.summary) * 100 <= body * 40
            &&& rows_of_section(s.problems) <= 6
            &&& (s.summary is Some <==> summary_len > 0)
            &&& (s.problems is Some <==> problems_len > 0)
        }),
{
}

/// Compute the Overview body layout (each present section's height includes
/// its one-row header). Focus-independent: the description always absorbs the
/// remainder.
pub fn overview_section_layout(body_height: u16, summary_len: usize, problems_len: usize) -> (r:
    OverviewSectionLayout)
    ensures
        r == overview_sections(body_height, summary_len as int, problems_len as int),
{
    let mut remaining: u16 = body_height;
    let last_activity: u16 = if remaining < 1 {
        remaining
    } else {
        1
    };
    remaining -= last_activity;
    let summary = if summary_len > 0 {
        let cap: u16 = ((body_height as u32) * 40 / 100) as u16;
        let mut want: u16 = if summary_len < 65534 {
            summary_len as u16 + 1
        } else {
            65535
        };
        if cap < want {
            want = cap;
        }
        if remaining < want {
            want = remaining;
        }
        remaining -= want;
        Some(want)
    } else {
        None
    };
    let problems = if problems_len > 0 {
        let mut want: u16 = if problems_len < 5 {
            problems_len as u16 + 1
        } else {
            6
        };
        if remaining < want {
            want = remaining;
        }
        remaining -= want;
        Some(want)
    } else {
        None
    };
    OverviewSectionLayout { summary, problems, description: remaining, last_activity }
}

/// A status label and its colour.
#[derive(Debug, Clone)]
pub struct Chip {
    pub text: String,
    pub color: Color,
}

pub open spec fn chip_list(chips: Seq<Chip>) -> Seq<(Seq<char>, Color)> {
    chips.map_values(|c: Chip| (c.text@, c.color))
}

pub open spec fn review_chip(d: PrDetailResponse) -> (Seq<char>, Color) {
    match d.review_decision {
        Some(ReviewDecision::Approved) => ("approved"@, ADD),
        Some(ReviewDecision::ChangesRequested) => ("changes req"@, DEL),
        Some(ReviewDecision::ReviewRequired) => ("review req"@, MED),
        None => ("no review"@, OVERLAY0),
    }
}

pub open spec fn merge_chip(d: PrDetailResponse) -> (Seq<char>, Color) {
    match d.mergeable {
        MergeableState::Mergeable => ("mergeable"@, ADD),
        MergeableState::Conflicting => ("conflicts"@, DEL),
        MergeableState::Unknown => ("merge ?"@, OVERLAY0),
    }
}

pub open spec fn checks_chip(d: PrDetailResponse) -> (Seq<char>, Color) {
    match d.check_status {
        CheckStatus::Success => ("checks ✓"@, ADD),
        CheckStatus::Failure => ("checks ✗"@, DEL),
        CheckStatus::Pending => ("checks …"@, MED),
        CheckStatus::Neutral => ("checks ~"@, OVERLAY0),
        CheckStatus::Absent => ("no checks"@, OVERLAY0),
    }
}

/// Review, merge and check state.
pub open spec fn chips_of(d: PrDetailResponse) -> Seq<(Seq<char>, Color)> {
    seq![review_chip(d), merge_chip(d), checks_chip(d)]
}

/// Review, merge and check status labels with their colors. Shared by the
/// Overview status row and the command line; each applies its own background.
pub fn status_chip_data(d: &PrDetailResponse) -> (r: Vec<Chip>)
    ensures
        chip_list(r@) == chips_of(*d),
{
    let (review, review_color) = match d.review_decision {
        Some(ReviewDecision::Approved) => ("approved", ADD),
        Some(ReviewDecision::ChangesRequested) => ("changes req", DEL),
        Some(ReviewDecision::ReviewRequired) => ("review req", MED),
        None => ("no review", OVERLAY0),
    };
    let (merge, merge_color) = match d.mergeable {
        MergeableState::Mergeable => ("mergeable", ADD),
        MergeableState::Conflicting => ("conflicts", DEL),
        MergeableState::Unknown => ("merge ?", OVERLAY0),
    };
    let (checks, checks_color) = match d.check_status {
        CheckStatus::Success => ("checks ✓", ADD),
        CheckStatus::Failure => ("checks ✗", DEL),
        CheckStatus::Pending => ("checks …", MED),
        CheckStatus::Neutral => ("checks ~", OVERLAY0),
        CheckStatus::Absent => ("no checks", OVERLAY0),
    };
    let mut chips: Vec<Chip> = Vec::new();
    chips.push(Chip { text: review.to_owned(), color: review_color });
    chips.push(Chip { text: merge.to_owned(), color: merge_color });
    chips.push(Chip { text: checks.to_owned(), color: checks_color });
    proof {
        assert(chip_list(chips@) =~= chips_of(*d));
    }
    chips
}

/// The title row: number and title of the loaded pull request.
#[verifier::opaque]
pub open spec fn title_ops(detail: Option<PrDetailResponse>, area: Rect) -> Seq<OpView> {
    if area.height == 0 {
        Seq::empty()
    } else {
        let fill = seq![fill_op(area, BASE)];
        match detail {
            Some(d) => fill.push(
                line_op(
                    area,
                    row(
                        truncated(
                            "#"@ + decimal(d.number as nat) + " "@ + d.title@,
                            area.width as nat,
                        ),
                        fg(OVERVIEW).bg(BASE).bold(),
                    ),
                    bg(BASE),
                ),
            ),
            None => fill.push(
                line_op(area, raw_row("Select a PR from the inbox"@), fg(MUTED).bg(BASE)),
            ),
        }
    }
}

fn render_title(scene: &mut Scene, area: Rect, detail: Option<&PrDetailResponse>)
    ensures
        final(scene)@ == old(scene)@ + title_ops(held(detail), area),
{
    proof {
        reveal(title_ops);
    }
    if area.height > 0 {
        scene.fill(area, BASE);
        match detail {
            Some(d) => {
                let label = joined3(
                    joined("#", decimal_string(d.number).as_str()).as_str(),
                    " ",
                    d.title.as_str(),
                );
                let shown = truncate_to_display_width(label.as_str(), area.width as usize);
                scene.line(
                    area,
                    Line::styled(shown.as_str(), fg(OVERVIEW).bg(BASE).bold()),
                    bg(BASE),
                );
            },
            None => scene.line(
                area,
                Line::raw("Select a PR from the inbox"),
                fg(MUTED).bg(BASE),
            ),
        }
    }
    proof {
        assert(scene@ =~= old(scene)@ + title_ops(held(detail), area));
    }
}

pub open spec fn priority_name(p: Option<Priority>) -> Seq<char> {
    match p {
        Some(Priority::High) => "priority: high"@,
        Some(Priority::Medium) => "priority: medium"@,
        Some(Priority::Low) => "priority: low"@,
        None => "priority: none"@,
    }
}

/// Columns for the branches: what the state, author, priority and separators
/// leave.
pub open spec fn branch_columns(d: PrDetailResponse, width: int) -> int {
    less(
        width,
        text_columns(
            if d.is_draft {
                "[draft]"@
            } else {
                "[open]"@
            },
        ) + text_columns(d.author@) + text_columns(priority_name(d.llm_priority)) + text_columns(
            " · "@,
        ) * 3,
    )
}

/// The identity row: state, author, branches cut to what room is left, and
/// priority.
pub open spec fn identity_row(detail: Option<PrDetailResponse>, width: int) -> Seq<SpanView> {
    match detail {
        None => blank(),
        Some(d) => {
            let sep = sp(" · "@, fg(OVERLAY0).bg(BASE));
            let head = blank().push(
                sp(
                    if d.is_draft {
                        "[draft]"@
                    } else {
                        "[open]"@
                    },
                    fg(
                        if d.is_draft {
                            DRAFT
                        } else {
                            OPEN
                        },
                    ).bg(BASE),
                ),
            ).push(sep).push(sp(d.author@, fg(SUBTEXT0).bg(BASE)));
            let branch = truncated(
                d.head_ref@ + " → "@ + d.base_ref@,
                branch_columns(d, width) as nat,
            );
            let branched = if branch.len() > 0 {
                head.push(sep).push(sp(branch, fg(SUBTEXT0).bg(BASE)))
            } else {
                head
            };
            branched.push(sep).push(
                sp(
                    priority_name(d.llm_priority),
                    fg(priority_dot_color(d.llm_priority)).bg(BASE),
                ),
            )
        },
    }
}

fn identity_line(detail: Option<&PrDetailResponse>, width: u16) -> (r: Line)
    ensures
        r@ == identity_row(held(detail), width as int),
{
    let d = match detail {
        Some(d) => d,
        None => return Line::empty(),
    };
    let state = if d.is_draft {
        "[draft]"
    } else {
        "[open]"
    };
    let priority = match d.llm_priority {
        Some(Priority::High) => "priority: high",
        Some(Priority::Medium) => "priority: medium",
        Some(Priority::Low) => "priority: low",
        None => "priority: none",
    };
    let sep: usize = text_width(" · ");
    let fixed: usize = text_width(state).saturating_add(text_width(d.author.as_str())).saturating_add(
        text_width(priority),
    ).saturating_add(sep).saturating_add(sep).saturating_add(sep);
    let room: usize = (width as usize).saturating_sub(fixed);
    let full = joined3(d.head_ref.as_str(), " → ", d.base_ref.as_str());
    let branch = truncate_to_display_width(full.as_str(), room);
    let mut line = Line::empty();
    line.push(
        state,
        fg(
            if d.is_draft {
                DRAFT
            } else {
                OPEN
            },
        ).bg(BASE),
    );
    line.push(" · ", fg(OVERLAY0).bg(BASE));
    line.push(d.author.as_str(), fg(SUBTEXT0).bg(BASE));
    if !branch.as_str().is_empty() {
        line.push(" · ", fg(OVERLAY0).bg(BASE));
        line.push(branch.as_str(), fg(SUBTEXT0).bg(BASE));
    }
    line.push(" · ", fg(OVERLAY0).bg(BASE));
    line.push(priority, fg(priority_dot_color(d.llm_priority)).bg(BASE));
    line
}

/// Additions in the first `n` files.
pub open spec fn total_added(files: Seq<FileDto>, n: int) -> u64
    decreases n,
{
    if n <= 0 {
        0
    } else {
        total_added(files, n - 1).wrapping_add(files[n - 1].additions)
    }
}

/// Deletions in the first `n` files.
pub open spec fn total_removed(files: Seq<FileDto>, n: int) -> u64
    decreases n,
{
    if n <= 0 {
        0
    } else {
        total_removed(files, n - 1).wrapping_add(files[n - 1].deletions)
    }
}

/// Comments among the first `n` timeline events.
pub open spec fn timeline_comments(events: Seq<TimelineEvent>, n: int) -> nat
    decreases n,
{
    if n <= 0 {
        0
    } else {
        timeline_comments(events, n - 1) + if events[n - 1].event_type
            == TimelineEventType::Comment {
            1nat
        } else {
            0
        }
    }
}

/// Review threads and timeline comments together.
pub open spec fn comment_total(d: PrDetailResponse) -> nat {
    d.review_threads@.len() + timeline_comments(d.timeline@, d.timeline@.len() as int)
}

/// The status row: the chips, then what the pull request adds and removes and
/// how many files and comments it has.
pub open spec fn status_row(d: PrDetailResponse) -> Seq<SpanView> {
    let c = chips_of(d);
    let dot = sp(" · "@, fg(OVERLAY0).bg(SURFACE0));
    let n = d.files@.len() as int;
    blank().push(sp(c[0].0, fg(c[0].1).bg(SURFACE0).bold())).push(sp("  "@, bg(SURFACE0))).push(
        sp(c[1].0, fg(c[1].1).bg(SURFACE0).bold()),
    ).push(sp("  "@, bg(SURFACE0))).push(sp(c[2].0, fg(c[2].1).bg(SURFACE0).bold())).push(
        sp(" │ "@, fg(OVERLAY0).bg(SURFACE0)),
    ).push(sp("+"@ + decimal(total_added(d.files@, n) as nat), fg(ADD).bg(SURFACE0))).push(
        sp(" "@, bg(SURFACE0)),
    ).push(sp("−"@ + decimal(total_removed(d.files@, n) as nat), fg(DEL).bg(SURFACE0))).push(
        dot,
    ).push(sp(decimal(n as nat) + " files"@, fg(MUTED).bg(SURFACE0))).push(dot).push(
        sp(decimal(counted(comment_total(d)) as nat) + " comments"@, fg(MUTED).bg(SURFACE0)),
    )
}

fn add_up(files: &Vec<FileDto>) -> (r: (u64, u64))
    ensures
        r.0 == total_added(files@, files@.len() as int),
        r.1 == total_removed(files@, files@.len() as int),
{
    let mut added: u64 = 0;
    let mut removed: u64 = 0;
    let mut i: usize = 0;
    while i < files.len()
        invariant
            i <= files@.len(),
            added == total_added(files@, i as int),
            removed == total_removed(files@, i as int),
        decreases files@.len() - i,
    {
        added = added.wrapping_add(files[i].additions);
        removed = removed.wrapping_add(files[i].deletions);
        i += 1;
    }
    (added, removed)
}

fn count_timeline_comments(events: &Vec<TimelineEvent>) -> (r: usize)
    ensures
        r == timeline_comments(events@, events@.len() as int),
{
    let mut total: usize = 0;
    let mut i: usize = 0;
    while i < events.len()
        invariant
            i <= events@.len(),
            total <= i,
            total == timeline_comments(events@, i as int),
        decreases events@.len() - i,
    {
        if events[i].event_type == TimelineEventType::Comment {
            total += 1;
        }
        i += 1;
    }
    total
}

fn status_line(d: &PrDetailResponse) -> (r: Line)
    ensures
        r@ == status_row(*d),
{
    let chips = status_chip_data(d);
    proof {
        assert(chip_list(chips@).len() == chips@.len());
        assert(chip_list(chips@)[0] == (chips@[0].text@, chips@[0].color));
        assert(chip_list(chips@)[1] == (chips@[1].text@, chips@[1].color));
        assert(chip_list(chips@)[2] == (chips@[2].text@, chips@[2].color));
    }
    let (added, removed) = add_up(&d.files);
    let comments: usize = d.review_threads.len().saturating_add(
        count_timeline_comments(&d.timeline),
    );
    let mut line = Line::empty();
    line.push(chips[0].text.as_str(), fg(chips[0].color).bg(SURFACE0).bold());
    line.push("  ", bg(SURFACE0));
    line.push(chips[1].text.as_str(), fg(chips[1].color).bg(SURFACE0).bold());
    line.push("  ", bg(SURFACE0));
    line.push(chips[2].text.as_str(), fg(chips[2].color).bg(SURFACE0).bold());
    line.push(" │ ", fg(OVERLAY0).bg(SURFACE0));
    line.push(joined("+", decimal_string(added).as_str()).as_str(), fg(ADD).bg(SURFACE0));
    line.push(" ", bg(SURFACE0));
    line.push(joined("−", decimal_string(removed).as_str()).as_str(), fg(DEL).bg(SURFACE0));
    line.push(" · ", fg(OVERLAY0).bg(SURFACE0));
    line.push(
        joined(decimal_string(d.files.len() as u64).as_str(), " files").as_str(),
        fg(MUTED).bg(SURFACE0),
    );
    line.push(" · ", fg(OVERLAY0).bg(SURFACE0));
    line.push(
        joined(decimal_string(comments as u64).as_str(), " comments").as_str(),
        fg(MUTED).bg(SURFACE0),
    );
    line
}

#[verifier::opaque]
pub open spec fn status_ops(detail: Option<PrDetailResponse>, area: Rect) -> Seq<OpView> {
    if area.height == 0 {
        Seq::empty()
    } else {
        let fill = seq![fill_op(area, SURFACE0)];
        match detail {
            Some(d) => fill.push(line_op(area, status_row(d), bg(SURFACE0))),
            None => fill,
        }
    }
}

fn render_status_stats_row(scene: &mut Scene, area: Rect, detail: Option<&PrDetailResponse>)
    ensures
        final(scene)@ == old(scene)@ + status_ops(held(detail), area),
{
    proof {
        reveal(status_ops);
    }
    if area.height > 0 {
        scene.fill(area, SURFACE0);
        if let Some(d) = detail {
            scene.line(area, status_line(d), bg(SURFACE0));
        }
    }
    proof {
        assert(scene@ =~= old(scene)@ + status_ops(held(detail), area));
    }
}

/// One section of the body: its label and its scrolled content, tinted where
/// it has the focus; a section that is loading says so.
#[verifier::opaque]
pub open spec fn part_ops(
    area: Rect,
    label: Seq<char>,
    lines: Seq<Seq<SpanView>>,
    scroll: int,
    focused: bool,
    loading: bool,
) -> Seq<OpView> {
    if area.height == 0 {
        Seq::empty()
    } else {
        let back = if focused {
            BASE
        } else {
            MANTLE
        };
        let head = seq![
            fill_op(area, back),
            line_op(
                Rect::new(area.x, area.y, area.width, 1),
                blank().push(
                    sp(
                        if focused {
                            "▌"@
                        } else {
                            " "@
                        },
                        fg(OVERVIEW).bg(back),
                    ),
                ).push(
                    sp(
                        if loading {
                            "✨ "@ + label
                        } else {
                            label
                        },
                        fg(
                            if focused {
                                OVERVIEW
                            } else {
                                OVERLAY0
                            },
                        ).bg(back).bold(),
                    ),
                ),
                bg(back),
            ),
        ];
        let content = Rect::new(
            area.x,
            (area.y + 1) as u16,
            area.width,
            (area.height - 1) as u16,
        );
        if area.height == 1 {
            head
        } else if lines.len() == 0 {
            if loading {
                head.push(
                    line_op(
                        content,
                        row("Brunson is thinking about this PR..."@, fg(PENDING).bg(back)),
                        bg(back),
                    ),
                )
            } else {
                head
            }
        } else {
            head + viewport_ops(lines, scroll, fg(TEXT).bg(back), true, content)
        }
    }
}

fn render_section(
    scene: &mut Scene,
    area: Rect,
    label: &str,
    lines: &Vec<Line>,
    scroll: usize,
    focused: bool,
    loading: bool,
)
    requires
        area.wf(),
    ensures
        final(scene)@ == old(scene)@ + part_ops(
            area,
            label@,
            lines_view(lines@),
            scroll as int,
            focused,
            loading,
        ),
{
    proof {
        reveal(part_ops);
    }
    let ghost want = part_ops(
        area,
        label@,
        lines_view(lines@),
        scroll as int,
        focused,
        loading,
    );
    proof {
        assert(lines_view(lines@).len() == lines@.len());
    }
    if area.height == 0 {
        proof {
            assert(scene@ =~= old(scene)@ + want);
        }
        return;
    }
    let back = if focused {
        BASE
    } else {
        MANTLE
    };
    scene.fill(area, back);
    let text = if loading {
        joined("✨ ", label)
    } else {
        label.to_owned()
    };
    let header = Line::empty().with(
        if focused {
            "▌"
        } else {
            " "
        },
        fg(OVERVIEW).bg(back),
    ).with(
        text.as_str(),
        fg(
            if focused {
                OVERVIEW
            } else {
                OVERLAY0
            },
        ).bg(back).bold(),
    );
    scene.line(Rect::new(area.x, area.y, area.width, 1), header, bg(back));
    if area.height > 1 {
        let content = Rect::new(area.x, area.y + 1, area.width, area.height - 1);
        if lines.len() == 0 {
            if loading {
                scene.line(
                    content,
                    Line::styled("Brunson is thinking about this PR...", fg(PENDING).bg(back)),
                    bg(back),
                );
            }
        } else {
            ScrollViewport::new(lines, scroll).style(fg(TEXT).bg(back)).scrollbar(true).render(
                scene,
                content,
            );
        }
    }
    proof {
        assert(scene@ =~= old(scene)@ + want);
    }
}

/// The greatest timestamp of the first `n` events, a dash for none.
pub open spec fn latest_time(events: Seq<TimelineEvent>, n: int) -> Seq<char>
    decreases n,
{
    if n <= 0 {
        "—"@
    } else if n == 1 {
        events[0].created_at@
    } else {
        let before = latest_time(events, n - 1);
        if text_before(events[n - 1].created_at@, before) {
            before
        } else {
            events[n - 1].created_at@
        }
    }
}

fn find_latest(events: &Vec<TimelineEvent>) -> (r: String)
    ensures
        r@ == latest_time(events@, events@.len() as int),
{
    if events.len() == 0 {
        return "—".to_owned();
    }
    let mut best = events[0].created_at.clone();
    let mut i: usize = 1;
    while i < events.len()
        invariant
            1 <= i <= events@.len(),
            best@ == latest_time(events@, i as int),
        decreases events@.len() - i,
    {
        if !comes_before(events[i].created_at.as_str(), best.as_str()) {
            best = events[i].created_at.clone();
        }
        i += 1;
    }
    best
}

#[verifier::opaque]
pub open spec fn last_activity_ops(d: PrDetailResponse, area: Rect, focused: bool) -> Seq<OpView> {
    if area.height == 0 {
        Seq::empty()
    } else {
        let back = if focused {
            BASE
        } else {
            MANTLE
        };
        seq![
            fill_op(area, back),
            line_op(
                area,
                blank().push(
                    sp(
                        if focused {
                            "▌"@
                        } else {
                            " "@
                        },
                        fg(OVERVIEW).bg(back),
                    ),
                ).push(
                    sp(
                        "LAST ACTIVITY"@,
                        fg(
                            if focused {
                                OVERVIEW
                            } else {
                                OVERLAY0
                            },
                        ).bg(back).bold(),
                    ),
                ).push(
                    sp(
                        "  "@ + short_time_of(
                            latest_time(d.timeline@, d.timeline@.len() as int),
                        ),
                        fg(SUBTEXT0).bg(back),
                    ),
                ),
                fg(TEXT).bg(back),
            ),
        ]
    }
}

fn render_last_activity(scene: &mut Scene, area: Rect, d: &PrDetailResponse, focused: bool)
    ensures
        final(scene)@ == old(scene)@ + last_activity_ops(*d, area, focused),
{
    proof {
        reveal(last_activity_ops);
    }
    if area.height > 0 {
        let back = if focused {
            BASE
        } else {
            MANTLE
        };
        scene.fill(area, back);
        let when = short_time(find_latest(&d.timeline).as_str());
        let line = Line::empty().with(
            if focused {
                "▌"
            } else {
                " "
            },
            fg(OVERVIEW).bg(back),
        ).with(
            "LAST ACTIVITY",
            fg(
                if focused {
                    OVERVIEW
                } else {
                    OVERLAY0
                },
            ).bg(back).bold(),
        ).with(joined("  ", when.as_str()).as_str(), fg(SUBTEXT0).bg(back));
        scene.line(area, line, fg(TEXT).bg(back));
    }
    proof {
        assert(scene@ =~= old(scene)@ + last_activity_ops(*d, area, focused));
    }
}

/// A section of height `h` at row `y`; nothing where it is absent.
#[verifier::opaque]
pub open spec fn stacked_part(
    area: Rect,
    y: u16,
    h: Option<u16>,
    title: Seq<char>,
    lines: Seq<Seq<SpanView>>,
    scroll: int,
    focused: bool,
    loading: bool,
) -> Seq<OpView> {
    match h {
        Some(h) => part_ops(
            Rect::new(area.x, y, area.width, h),
            title,
            lines,
            scroll,
            focused,
            loading,
        ),
        None => Seq::empty(),
    }
}

fn render_part(
    scene: &mut Scene,
    area: Rect,
    y: u16,
    h: Option<u16>,
    title: &str,
    lines: &Vec<Line>,
    scroll: usize,
    focused: bool,
    loading: bool,
) -> (next: u16)
    requires
        y + rows_of_section(h) <= u16::MAX,
    ensures
        final(scene)@ == old(scene)@ + stacked_part(
            area,
            y,
            h,
            title@,
            lines_view(lines@),
            scroll as int,
            focused,
            loading,
        ),
        next == y + rows_of_section(h),
{
    proof {
        reveal(stacked_part);
    }
    match h {
        Some(rows) => {
            render_section(
                scene,
                Rect::new(area.x, y, area.width, rows),
                title,
                lines,
                scroll,
                focused,
                loading,
            );
            y + rows
        },
        None => {
            proof {
                assert(scene@ + Seq::<OpView>::empty() =~= scene@);
            }
            y
        },
    }
}

/// The body: summary, problems, description and last activity, one below the
/// other, in the heights of the section layout.
#[verifier::opaque]
pub open spec fn body_ops(a: App, p: Pane, area: Rect) -> Seq<OpView> {
    let fill = seq![fill_op(area, MANTLE)];
    match a.pr_detail {
        None => fill,
        Some(d) => {
            let cache = a.render_cache;
            let loading = is_summary_loading(a);
            let s = overview_sections(
                area.height,
                summary_len(cache.overview_summary.len() as int, loading),
                cache.overview_problems.len() as int,
            );
            let y1 = (area.y + rows_of_section(s.summary)) as u16;
            let y2 = (y1 + rows_of_section(s.problems)) as u16;
            let y3 = (y2 + s.description) as u16;
            fill + stacked_part(
                area,
                area.y,
                s.summary,
                "Brunson Says..."@,
                cache.overview_summary,
                p.overview_summary_scroll.offset as int,
                p.overview_focus == OverviewFocus::Summary,
                loading,
            ) + stacked_part(
                area,
                y1,
                s.problems,
                "PROBLEMS"@,
                cache.overview_problems,
                p.overview_problems_scroll.offset as int,
                p.overview_focus == OverviewFocus::Problems,
                false,
            ) + stacked_part(
                area,
                y2,
                Some(s.description),
                "DESCRIPTION"@,
                cache.overview_description,
                p.overview_description_scroll.offset as int,
                p.overview_focus == OverviewFocus::Description,
                false,
            ) + last_activity_ops(
                d,
                Rect::new(area.x, y3, area.width, s.last_activity),
                p.overview_focus == OverviewFocus::LastActivity,
            )
        },
    }
}

fn render_body_rows(scene: &mut Scene, area: Rect, ctx: &RenderContext)
    requires
        area.wf(),
    ensures
        final(scene)@ == old(scene)@ + body_ops(ctx.state@, ctx.view@, area),
{
    let view = ctx.view;
    scene.fill(area, MANTLE);
    let d = match &ctx.state.pr_detail {
        Some(d) => d,
        None => {
            proof {
                reveal(body_ops);
                assert(scene@ =~= old(scene)@ + body_ops(ctx.state@, ctx.view@, area));
            }
            return;
        },
    };
    let cache = &ctx.state.render_cache;
    let loading = summary_loading(ctx.state);
    let shown: usize = effective_summary_len(cache.overview_summary.len(), loading);
    let s = overview_section_layout(area.height, shown, cache.overview_problems.len());
    proof {
        overview_sections_fill_body(
            area.height,
            shown as int,
            cache.overview_problems@.len() as int,
        );
    }
    let y1: u16 = render_part(
        scene,
        area,
        area.y,
        s.summary,
        "Brunson Says...",
        &cache.overview_summary,
        view.overview_summary_scroll.offset,
        view.overview_focus == OverviewFocus::Summary,
        loading,
    );
    let y2: u16 = render_part(
        scene,
        area,
        y1,
        s.problems,
        "PROBLEMS",
        &cache.overview_problems,
        view.overview_problems_scroll.offset,
        view.overview_focus == OverviewFocus::Problems,
        false,
    );
    let y3: u16 = render_part(
        scene,
        area,
        y2,
        Some(s.description),
        "DESCRIPTION",
        &cache.overview_description,
        view.overview_description_scroll.offset,
        view.overview_focus == OverviewFocus::Description,
        false,
    );
    render_last_activity(
        scene,
        Rect::new(area.x, y3, area.width, s.last_activity),
        d,
        view.overview_focus == OverviewFocus::LastActivity,
    );
    proof {
        reveal(body_ops);
        assert(ctx.state@.render_cache.overview_summary.len() == cache.overview_summary@.len());
        assert(ctx.state@.render_cache.overview_problems.len() == cache.overview_problems@.len());
        assert(scene@ =~= old(scene)@ + body_ops(ctx.state@, ctx.view@, area));
    }
}

/// Title, identity line, status row, body.
pub open spec fn overview_constraints() -> Seq<Constraint> {
    seq![
        Constraint::Length(1),
        Constraint::Length(1),
        Constraint::Length(1),
        Constraint::Min(1),
    ]
}

/// What the Overview draws, given the rows of its area.
#[verifier::opaque]
pub open spec fn overview_ops(a: App, p: Pane, area: Rect, rows: Seq<Rect>) -> Seq<OpView> {
    seq![fill_op(area, MANTLE)] + title_ops(a.pr_detail, rows[0]) + seq![
        line_op(rows[1], identity_row(a.pr_detail, rows[1].width as int), bg(BASE)),
    ] + status_ops(a.pr_detail, rows[2]) + body_ops(a, p, rows[3])
}

/// Draw the Overview into the four rows of its area.
pub fn render_overview_rows(scene: &mut Scene, area: Rect, rows: &Vec<Rect>, ctx: &RenderContext)
    requires
        rows@.len() == 4,
        rows@[3].wf(),
    ensures
        final(scene)@ == old(scene)@ + overview_ops(ctx.state@, ctx.view@, area, rows@),
{
    proof {
        reveal(overview_ops);
    }
    scene.fill(area, MANTLE);
    let detail = ctx.state.pr_detail.as_ref();
    render_title(scene, rows[0], detail);
    scene.line(rows[1], identity_line(detail, rows[1].width), bg(BASE));
    render_status_stats_row(scene, rows[2], detail);
    render_body_rows(scene, rows[3], ctx);
    proof {
        assert(scene@ =~= old(scene)@ + overview_ops(ctx.state@, ctx.view@, area, rows@));
    }
}

/// Draw the Overview.
pub fn render_overview(scene: &mut Scene, area: Rect, ctx: &RenderContext)
    requires
        area.wf(),
    ensures
        final(scene)@ == old(scene)@ + overview_ops(
            ctx.state@,
            ctx.view@,
            area,
            layout_rows(area, overview_constraints()),
        ),
{
    let mut parts: Vec<Constraint> = Vec::new();
    parts.push(Constraint::Length(1));
    parts.push(Constraint::Length(1));
    parts.push(Constraint::Length(1));
    parts.push(Constraint::Min(1));
    proof {
        assert(parts@ =~= overview_constraints());
        assert(settled(parts@, 3));
    }
    let rows = split_rows(area, &parts);
    render_overview_rows(scene, area, &rows, ctx);
}

} // verus!
