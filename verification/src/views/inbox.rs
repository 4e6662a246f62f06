//! The Inbox blade.
use vstd::prelude::*;

use crate::api::{Moment, PrGroups, PrListResponse, PrSummary};
use crate::app::App;
use crate::cache::held;
use crate::clock::{age, age_label, seconds_ago};
use crate::component::RenderContext;
use crate::draw::{
    bg, blank, fg, fill_op, less, line_op, lines_view, max, min, new_lines, no_lines, push_line, row,
    row_text, sp, text_op, Color, Line, OpView, Rect, Scene, SpanView, Style,
};
use crate::github::{priority_order, CheckStatus, PrGroup, Priority};
use crate::inbox_rows::{rows_view, InboxRow, RowView};
use crate::layout::{layout_rows, settled, split_rows, stacked, Constraint};
use crate::primitives::{viewport_ops, ScrollViewport};
use crate::split::{trim_text, trimmed};
use crate::state::{fill_line, filled, filled_row_reaches_width, Pane};
use crate::text::{
    chars_of, decimal, decimal_string, joined, joined3, repeat_char, repeated, same_text,
    truncate_to_display_width, truncated,
};
use crate::theme::{
    BASE, FAIL, HIGH, INBOX, LOW, MANTLE, MED, MUTED, OVERLAY0, PASS, SUBTEXT0, SURFACE0, TEXT,
};
use crate::views::text::{cell, pad_span};

verus! {

/// Rows reserved at the bottom of the Inbox body for the selected-PR preview
/// strip. `body_height` is the Inbox body height (blade content minus the
/// one-row column header).
#[verifier::allow_in_spec]
pub fn inbox_preview_rows(body_height: u16) -> u16
    returns
        (if body_height >= 8 {
            2u16
        } else {
            0u16
        }),
{
    if body_height >= 8 {
        2
    } else {
        0
    }
}

/// Resolved column geometry for one body width.
#[derive(Debug, Clone, Copy, PartialEq, Eq, Structural)]
pub struct ColumnLayout {
    /// Display-column offset of the title cell from the body's left edge.
    pub title_x: u16,
    /// Width of the title cell.
    pub title_width: u16,
    pub author_width: Option<u16>,
    /// Width of the mandatory NEXT column (the daemon's triage verb).
    pub next_width: u16,
}

/// The columns of a body of `width`: eleven for the prefix, the NEXT label and
/// the age mandatory, the author where the title keeps at least 40% of the
/// body, and the title with the rest.
pub open spec fn columns(width: u16) -> ColumnLayout {
    let next: int = if width >= 64 {
        16
    } else {
        8
    };
    let title_min = max(width * 40 / 100, 8);
    let fixed = 11 + next + 6;
    let author = less(width as int, fixed + title_min) >= 11;
    ColumnLayout {
        title_x: 11,
        title_width: max(
            less(
                width as int,
                fixed + if author {
                    11int
                } else {
                    0
                },
            ),
            title_min,
        ) as u16,
        author_width: if author {
            Some(10)
        } else {
            None
        },
        next_width: next as u16,
    }
}

impl ColumnLayout {
    /// Lay out columns for the given body width.
    pub fn compute(width: u16) -> (r: Self)
        ensures
            r == columns(width),
    {
        let next_width: u16 = if width >= 64 {
            16
        } else {
            8
        };
        let share: u16 = ((width as u32) * 40 / 100) as u16;
        let title_min: u16 = if share < 8 {
            8
        } else {
            share
        };
        let mut used: u16 = 11 + next_width + 6;
        let room: u16 = width.saturating_sub(used + title_min);
        let mut author_width: Option<u16> = None;
        if room >= 11 {
            author_width = Some(10);
            used += 11;
        }
        let rest: u16 = width.saturating_sub(used);
        ColumnLayout {
            title_x: 11,
            title_width: if rest < title_min {
                title_min
            } else {
                rest
            },
            author_width,
            next_width,
        }
    }
}

/// On bodies wide enough for the fixed columns and the title's share, the
/// columns of a row fill the body exactly.
pub proof fn columns_fill_body(width: u16)
    requires
        width >= 41,
    ensures
        ({
            let c = columns(width);
            c.title_x + c.title_width + (match c.author_width {
                Some(n) => n + 1,
                None => 0,
            }) + 1 + c.next_width + 1 + 4 == width
        }),
{
}

/// The title keeps at least 40% of the body, and the author is dropped before
/// the NEXT column is.
pub proof fn title_keeps_its_share(width: u16)
    ensures
        columns(width).title_width >= width * 40 / 100,
        columns(width).title_width >= 8,
        columns(width).next_width >= 8,
{
}

/// How many pull requests the first `n` groups hold.
pub open spec fn pr_total(groups: PrGroups, n: int) -> nat
    decreases n,
{
    if n <= 0 {
        0
    } else {
        pr_total(groups, n - 1) + groups.members(priority_order()[n - 1]).len()
    }
}

/// How many pull requests of the first `n` groups pass the filter.
pub open spec fn pr_shown(groups: PrGroups, filter: Seq<char>, n: int) -> nat
    decreases n,
{
    if n <= 0 {
        0
    } else {
        pr_shown(groups, filter, n - 1) + groups.members(priority_order()[n - 1]).filter(
            |pr: PrSummary| pr.passes(filter),
        ).len()
    }
}

/// A count as the machine holds it.
pub open spec fn counted(n: nat) -> usize {
    min(n as int, usize::MAX as int) as usize
}

/// Count the pull requests that match `filter` and all of them, across all
/// groups.
pub fn filter_counts(prs: &PrListResponse, filter: &str) -> (r: (usize, usize))
    ensures
        r.0 == counted(pr_shown(prs.groups, filter@, priority_order().len() as int)),
        r.1 == counted(pr_total(prs.groups, priority_order().len() as int)),
{
    let order = PrGroup::all_in_priority_order();
    let mut shown: usize = 0;
    let mut total: usize = 0;
    let mut g: usize = 0;
    let ghost keep = |pr: PrSummary| pr.passes(filter@);
    while g < order.len()
        invariant
            g <= order@.len(),
            order@ == priority_order(),
            keep == (|pr: PrSummary| pr.passes(filter@)),
            shown == counted(pr_shown(prs.groups, filter@, g as int)),
            total == counted(pr_total(prs.groups, g as int)),
        decreases order@.len() - g,
    {
        match prs.groups.get(order[g]) {
            Some(list) => {
                let mut hits: usize = 0;
                let mut i: usize = 0;
                proof {
                    reveal(Seq::filter);
                    assert(list@.take(0).filter(keep).len() == 0);
                }
                while i < list.len()
                    invariant
                        i <= list@.len(),
                        keep == (|pr: PrSummary| pr.passes(filter@)),
                        hits == list@.take(i as int).filter(keep).len(),
                        hits <= i,
                    decreases list@.len() - i,
                {
                    proof {
                        reveal(Seq::filter);
                        assert(list@.take(i + 1).drop_last() =~= list@.take(i as int));
                    }
                    if list[i].matches_filter(filter) {
                        hits += 1;
                    }
                    i += 1;
                }
                proof {
                    assert(list@.take(list@.len() as int) =~= list@);
                }
                shown = shown.saturating_add(hits);
                total = total.saturating_add(list.len());
            },
            None => {
                proof {
                    reveal(Seq::filter);
                    assert(Seq::<PrSummary>::empty().filter(keep).len() == 0);
                }
            },
        }
        g += 1;
    }
    (shown, total)
}

/// What the filter chip says.
pub open spec fn chip_text(filter: Seq<char>, shown: usize, total: usize) -> Seq<char> {
    "/ "@ + filter + " · "@ + decimal(shown as nat) + " of "@ + decimal(total as nat)
        + " · / clear"@
}

fn chip(filter: &str, shown: usize, total: usize) -> (r: String)
    ensures
        r@ == chip_text(filter@, shown, total),
{
    let mut out = joined3("/ ", filter, " · ");
    out.append(decimal_string(shown as u64).as_str());
    out.append(" of ");
    out.append(decimal_string(total as u64).as_str());
    out.append(" · / clear");
    out
}

/// What stands above the title column: the filter chip against its right end,
/// where there is a filter and room for it.
pub open spec fn chip_spans(filter: Seq<char>, shown: usize, total: usize, width: int) -> Seq<
    SpanView,
> {
    let chip = chip_text(filter, shown, total);
    if filter.len() > 0 && chip.len() < width {
        blank().push(sp(repeated(' ', (width - chip.len() - 1) as nat), bg(BASE))).push(
            sp(chip, fg(INBOX).bg(BASE).bold()),
        ).push(sp(" "@, bg(BASE)))
    } else if width > 0 {
        blank().push(sp(repeated(' ', width as nat), bg(BASE)))
    } else {
        blank()
    }
}

/// The column titles, aligned to the data columns.
pub open spec fn inbox_header(filter: Seq<char>, shown: usize, total: usize, cols: ColumnLayout) -> Seq<
    SpanView,
> {
    let lead = chip_spans(filter, shown, total, cols.title_x + cols.title_width);
    let label = fg(SUBTEXT0).bg(BASE);
    let gap = sp(" "@, bg(BASE));
    let named = match cols.author_width {
        Some(w) => lead.push(gap).push(sp(cell("AUTHOR"@, w as int), label)),
        None => lead,
    };
    named.push(gap).push(sp(cell("NEXT"@, cols.next_width as int), label)).push(gap).push(
        sp(cell("AGE"@, 4), label),
    )
}

fn chip_line(filter: &str, shown: usize, total: usize, width: usize) -> (r: Line)
    ensures
        r@ == chip_spans(filter@, shown, total, width as int),
{
    let mut line = Line::empty();
    let text = chip(filter, shown, total);
    let len: usize = chars_of(text.as_str()).len();
    if !filter.is_empty() && len < width {
        line.push(repeat_char(' ', width - len - 1).as_str(), bg(BASE));
        line.push(text.as_str(), fg(INBOX).bg(BASE).bold());
        line.push(" ", bg(BASE));
    } else if width > 0 {
        line.push(repeat_char(' ', width).as_str(), bg(BASE));
    }
    line
}

pub fn header_line(filter: &str, shown: usize, total: usize, cols: &ColumnLayout) -> (r: Line)
    ensures
        r@ == inbox_header(filter@, shown, total, *cols),
{
    let label = fg(SUBTEXT0).bg(BASE);
    let mut line = chip_line(
        filter,
        shown,
        total,
        cols.title_x as usize + cols.title_width as usize,
    );
    if let Some(w) = cols.author_width {
        line.push(" ", bg(BASE));
        line.push_span(pad_span("AUTHOR", w, label));
    }
    line.push(" ", bg(BASE));
    line.push_span(pad_span("NEXT", cols.next_width, label));
    line.push(" ", bg(BASE));
    line.push_span(pad_span("AGE", 4, label));
    line
}

/// The background of a row.
#[verifier::allow_in_spec]
pub fn row_color(selected: bool) -> Color
    returns
        (if selected {
            SURFACE0
        } else {
            MANTLE
        }),
{
    if selected {
        SURFACE0
    } else {
        MANTLE
    }
}

/// A section header row: a chevron where it is folded, the label and count,
/// and a rule up to the right edge.
pub open spec fn section_row(
    label: Seq<char>,
    accent: Color,
    count: usize,
    collapsed: bool,
    selected: bool,
    width: int,
) -> Seq<SpanView> {
    let back = row_color(selected);
    let marker = if collapsed {
        "▸ "@
    } else {
        "  "@
    };
    let text = label + " "@ + decimal(count as nat);
    let rule = max(less(width, marker.len() + text.len() as int + 2), 1);
    filled(
        blank().push(sp(marker, fg(accent).bg(back))).push(sp(text, fg(accent).bg(back).bold())).push(
            sp(" "@, bg(back)),
        ).push(sp(repeated('─', rule as nat), fg(SURFACE0).bg(back))),
        width,
        bg(back),
    )
}

fn section_line(
    label: &str,
    accent: Color,
    count: usize,
    collapsed: bool,
    selected: bool,
    width: u16,
) -> (r: Line)
    ensures
        r@ == section_row(label@, accent, count, collapsed, selected, width as int),
{
    let back = row_color(selected);
    let marker = if collapsed {
        "▸ "
    } else {
        "  "
    };
    let text = joined3(label, " ", decimal_string(count as u64).as_str());
    let used: usize = chars_of(marker).len().saturating_add(chars_of(text.as_str()).len());
    let mut rule: usize = (width as usize).saturating_sub(used.saturating_add(2));
    if rule < 1 {
        rule = 1;
    }
    let mut line = Line::empty();
    line.push(marker, fg(accent).bg(back));
    line.push(text.as_str(), fg(accent).bg(back).bold());
    line.push(" ", bg(back));
    line.push(repeat_char('─', rule).as_str(), fg(SURFACE0).bg(back));
    fill_line(&mut line, width, bg(back));
    line
}

#[verifier::allow_in_spec]
pub fn priority_dot_color(p: Option<Priority>) -> Color
    returns
        (match p {
            Some(Priority::High) => HIGH,
            Some(Priority::Medium) => MED,
            Some(Priority::Low) => LOW,
            None => OVERLAY0,
        }),
{
    match p {
        Some(Priority::High) => HIGH,
        Some(Priority::Medium) => MED,
        Some(Priority::Low) => LOW,
        None => OVERLAY0,
    }
}

/// Style for a NEXT label, mapped by urgency: red for what blocks on you,
/// accent for review work, green for shipping, muted for nothing to do.
pub open spec fn next_style(label: Seq<char>) -> Style {
    if label == "Fix CI"@ || label == "Address feedback"@ {
        fg(FAIL)
    } else if label == "Review now"@ || label == "Re-review"@ || label == "Respond"@ {
        fg(INBOX).bold()
    } else if label == "Merge"@ {
        fg(PASS)
    } else if label == "Waiting"@ {
        fg(MUTED)
    } else {
        fg(SUBTEXT0)
    }
}

pub fn next_action_style(label: &str) -> (r: Style)
    ensures
        r == next_style(label@),
{
    if same_text(label, "Fix CI") || same_text(label, "Address feedback") {
        fg(FAIL)
    } else if same_text(label, "Review now") || same_text(label, "Re-review") || same_text(
        label,
        "Respond",
    ) {
        fg(INBOX).bold()
    } else if same_text(label, "Merge") {
        fg(PASS)
    } else if same_text(label, "Waiting") {
        fg(MUTED)
    } else {
        fg(SUBTEXT0)
    }
}

/// Whether a row shows that its checks fail: where they do and the label does
/// not say so already.
pub open spec fn flags_ci(pr: PrSummary) -> bool {
    pr.check_status == CheckStatus::Failure && pr.next_action@ != "Fix CI"@
}

/// The NEXT cell, with a red cross behind the label where checks fail.
pub open spec fn next_cell(line: Seq<SpanView>, pr: PrSummary, width: int, back: Color) -> Seq<
    SpanView,
> {
    let style = next_style(pr.next_action@).bg(back);
    if flags_ci(pr) && width >= 4 {
        line.push(sp(cell(pr.next_action@, width - 2), style)).push(sp(" "@, bg(back))).push(
            sp("✕"@, fg(FAIL).bg(back)),
        )
    } else {
        line.push(sp(cell(pr.next_action@, width), style))
    }
}

fn push_next_action(line: &mut Line, pr: &PrSummary, width: u16, back: Color)
    ensures
        final(line)@ == next_cell(old(line)@, *pr, width as int, back),
{
    let style = next_action_style(pr.next_action.as_str()).bg(back);
    let flag = pr.check_status == CheckStatus::Failure && !same_text(
        pr.next_action.as_str(),
        "Fix CI",
    );
    if flag && width >= 4 {
        line.push_span(pad_span(pr.next_action.as_str(), width - 2, style));
        line.push(" ", bg(back));
        line.push("✕", fg(FAIL).bg(back));
    } else {
        line.push_span(pad_span(pr.next_action.as_str(), width, style));
    }
}

/// The author as a row names it: nobody for the user's own.
pub open spec fn author_label(author: Seq<char>, user: Seq<char>) -> Seq<char> {
    if author == user {
        ""@
    } else {
        "@"@ + author
    }
}

/// The cells of a pull-request row.
pub open spec fn pr_cells(
    pr: PrSummary,
    user: Seq<char>,
    selected: bool,
    cols: ColumnLayout,
    now: Moment,
) -> Seq<SpanView> {
    let back = row_color(selected);
    let base = fg(TEXT).bg(back).bold();
    let head = blank().push(
        sp(
            if selected {
                "▌"@
            } else {
                " "@
            },
            base,
        ),
    ).push(sp(" "@, base)).push(sp("●"@, fg(priority_dot_color(pr.llm_priority)).bg(back))).push(
        sp(" "@, base),
    ).push(sp(cell("#"@ + decimal(pr.number as nat), 6), fg(SUBTEXT0).bg(back))).push(
        sp(" "@, base),
    ).push(
        sp(
            cell(truncated(pr.title@, cols.title_width as nat), cols.title_width as int),
            fg(TEXT).bg(back),
        ),
    );
    let named = match cols.author_width {
        Some(w) => head.push(sp(" "@, base)).push(
            sp(cell(author_label(pr.author@, user), w as int), fg(OVERLAY0).bg(back)),
        ),
        None => head,
    };
    next_cell(named.push(sp(" "@, base)), pr, cols.next_width as int, back).push(
        sp(" "@, base),
    ).push(sp(cell(age_label(seconds_ago(pr.updated_at@, now)), 4), fg(OVERLAY0).bg(back)))
}

/// A pull-request row, filled up to the right edge.
pub open spec fn pr_row(
    pr: PrSummary,
    user: Seq<char>,
    selected: bool,
    cols: ColumnLayout,
    width: int,
    now: Moment,
) -> Seq<SpanView> {
    filled(pr_cells(pr, user, selected, cols, now), width, bg(row_color(selected)))
}

/// The selected pull request is highlighted across the whole width: every cell
/// of its row has the selection's background, and the row is not shorter.
pub proof fn selected_row_is_highlighted(
    pr: PrSummary,
    user: Seq<char>,
    cols: ColumnLayout,
    width: int,
    now: Moment,
)
    ensures
        ({
            let row = pr_row(pr, user, true, cols, width, now);
            &&& row[0].text == "▌"@
            &&& row_text(row).len() >= width
            &&& forall|k: int| 0 <= k < row.len() ==> (#[trigger] row[k]).style.bg == Some(SURFACE0)
        }),
{
    filled_row_reaches_width(pr_cells(pr, user, true, cols, now), width, bg(SURFACE0));
}

pub fn pr_row_line(
    pr: &PrSummary,
    current_user: &str,
    selected: bool,
    cols: &ColumnLayout,
    width: u16,
    now: Moment,
) -> (r: Line)
    ensures
        r@ == pr_row(*pr, current_user@, selected, *cols, width as int, now),
{
    let back = row_color(selected);
    let base = fg(TEXT).bg(back).bold();
    let mut line = Line::empty();
    line.push(
        if selected {
            "▌"
        } else {
            " "
        },
        base,
    );
    line.push(" ", base);
    line.push("●", fg(priority_dot_color(pr.llm_priority)).bg(back));
    line.push(" ", base);
    line.push_span(
        pad_span(joined("#", decimal_string(pr.number).as_str()).as_str(), 6, fg(SUBTEXT0).bg(back)),
    );
    line.push(" ", base);
    let title = truncate_to_display_width(pr.title.as_str(), cols.title_width as usize);
    line.push_span(pad_span(title.as_str(), cols.title_width, fg(TEXT).bg(back)));
    if let Some(w) = cols.author_width {
        line.push(" ", base);
        let author = if same_text(pr.author.as_str(), current_user) {
            "".to_owned()
        } else {
            joined("@", pr.author.as_str())
        };
        line.push_span(pad_span(author.as_str(), w, fg(OVERLAY0).bg(back)));
    }
    line.push(" ", base);
    push_next_action(&mut line, pr, cols.next_width, back);
    line.push(" ", base);
    let ago = age(pr.updated_at.as_str(), now);
    line.push_span(pad_span(ago.as_str(), 4, fg(OVERLAY0).bg(back)));
    fill_line(&mut line, width, bg(back));
    line
}

/// The one-line summary of a pull request, or that there is none yet.
pub open spec fn strip_summary(pr: PrSummary) -> Seq<char> {
    match pr.llm_one_line {
        Some(s) if trimmed(s@).len() > 0 => trimmed(s@),
        _ => "— no summary yet"@,
    }
}

/// The branch of a pull request, a dash where it is unknown.
pub open spec fn strip_branch(pr: PrSummary) -> Seq<char> {
    if trimmed(pr.head_ref@).len() == 0 {
        "—"@
    } else {
        trimmed(pr.head_ref@)
    }
}

/// The two preview-strip rows for the selected pull request: its summary, then
/// repository, branch and age.
pub open spec fn strip_rows(pr: Option<PrSummary>, width: int, now: Moment) -> Seq<Seq<SpanView>> {
    match pr {
        None => no_lines().push(row(" — no PR selected"@, fg(MUTED).bg(BASE))).push(blank()),
        Some(pr) => {
            let max = less(width, 2);
            no_lines().push(
                row(" "@ + truncated(strip_summary(pr), max as nat), fg(TEXT).bg(BASE)),
            ).push(
                row(
                    truncated(
                        " "@ + pr.repo@ + " · "@ + strip_branch(pr) + " ("@ + age_label(
                            seconds_ago(pr.updated_at@, now),
                        ) + ")"@,
                        (max + 2) as nat,
                    ),
                    fg(MUTED).bg(BASE),
                ),
            )
        },
    }
}

pub fn preview_strip_lines(pr: Option<&PrSummary>, width: u16, now: Moment) -> (r: Vec<Line>)
    ensures
        lines_view(r@) == strip_rows(held(pr), width as int, now),
{
    let mut lines = new_lines();
    let pr = match pr {
        Some(pr) => pr,
        None => {
            push_line(&mut lines, Line::styled(" — no PR selected", fg(MUTED).bg(BASE)));
            push_line(&mut lines, Line::empty());
            return lines;
        },
    };
    let max: usize = (width as usize).saturating_sub(2);
    let one_line = match &pr.llm_one_line {
        Some(s) => trim_text(s.as_str()),
        None => String::new(),
    };
    let summary = if one_line.as_str().is_empty() {
        "— no summary yet"
    } else {
        one_line.as_str()
    };
    let cut = truncate_to_display_width(summary, max);
    push_line(&mut lines, Line::styled(joined(" ", cut.as_str()).as_str(), fg(TEXT).bg(BASE)));
    let head = trim_text(pr.head_ref.as_str());
    let branch = if head.as_str().is_empty() {
        "—"
    } else {
        head.as_str()
    };
    let mut text = joined3(" ", pr.repo.as_str(), " · ");
    text.append(branch);
    text.append(" (");
    text.append(age(pr.updated_at.as_str(), now).as_str());
    text.append(")");
    let cut = truncate_to_display_width(text.as_str(), max + 2);
    push_line(&mut lines, Line::styled(cut.as_str(), fg(MUTED).bg(BASE)));
    lines
}

/// The login of the user, empty while it is unknown.
pub open spec fn current_user(a: App) -> Seq<char> {
    match a.health {
        Some(h) => h.current_user@,
        None => ""@,
    }
}

/// The last of the first `n` pull requests of `list` with the identifier `id`.
pub open spec fn last_with_id(list: Seq<PrSummary>, id: Seq<char>, n: int) -> Option<PrSummary>
    decreases n,
{
    if n <= 0 {
        None
    } else if list[n - 1].id@ == id {
        Some(list[n - 1])
    } else {
        last_with_id(list, id, n - 1)
    }
}

/// The last pull request with the identifier `id` in the first `n` groups.
pub open spec fn listed_upto(groups: PrGroups, id: Seq<char>, n: int) -> Option<PrSummary>
    decreases n,
{
    if n <= 0 {
        None
    } else {
        let list = groups.members(priority_order()[n - 1]);
        match last_with_id(list, id, list.len() as int) {
            Some(pr) => Some(pr),
            None => listed_upto(groups, id, n - 1),
        }
    }
}

/// The pull request that the row of `id` shows: where several have that
/// identifier, the last of them.
pub open spec fn listed_pr(groups: PrGroups, id: Seq<char>) -> Option<PrSummary> {
    listed_upto(groups, id, priority_order().len() as int)
}

fn find_last<'a>(list: &'a Vec<PrSummary>, id: &str) -> (r: Option<&'a PrSummary>)
    ensures
        held(r) == last_with_id(list@, id@, list@.len() as int),
{
    let mut n: usize = list.len();
    while n > 0
        invariant
            n <= list@.len(),
            last_with_id(list@, id@, list@.len() as int) == last_with_id(list@, id@, n as int),
        decreases n,
    {
        if same_text(list[n - 1].id.as_str(), id) {
            return Some(&list[n - 1]);
        }
        n -= 1;
    }
    None
}

fn find_listed_pr<'a>(groups: &'a PrGroups, id: &str) -> (r: Option<&'a PrSummary>)
    ensures
        held(r) == listed_pr(*groups, id@),
{
    let order = PrGroup::all_in_priority_order();
    let mut n: usize = order.len();
    while n > 0
        invariant
            n <= order@.len(),
            order@ == priority_order(),
            listed_pr(*groups, id@) == listed_upto(*groups, id@, n as int),
        decreases n,
    {
        if let Some(list) = groups.get(order[n - 1]) {
            let found = find_last(list, id);
            if found.is_some() {
                return found;
            }
        }
        n -= 1;
    }
    None
}

/// The display rows of the first `n` Inbox rows; a row whose pull request is
/// not in the list has none.
pub open spec fn list_rows(
    a: App,
    rows: Seq<RowView>,
    selected_row: usize,
    cols: ColumnLayout,
    width: int,
    now: Moment,
    n: int,
) -> Seq<Seq<SpanView>>
    decreases n,
{
    if n <= 0 {
        no_lines()
    } else {
        let before = list_rows(a, rows, selected_row, cols, width, now, n - 1);
        let selected = n - 1 == selected_row;
        match rows[n - 1] {
            RowView::Header { section, count, collapsed } => before.push(
                section_row(section.label_spec(), INBOX, count, collapsed, selected, width),
            ),
            RowView::Pr { id } => match listed_pr(a.prs.groups, id) {
                Some(pr) => before.push(pr_row(pr, current_user(a), selected, cols, width, now)),
                None => before,
            },
        }
    }
}

/// What an empty list says.
pub open spec fn empty_message(filter: Seq<char>) -> Seq<char> {
    if filter.len() == 0 {
        "  inbox empty — R refresh · w change targets"@
    } else {
        "  no PRs match \""@ + filter + "\" — / to clear · R refresh"@
    }
}

/// The rows of the list, or what an empty one says.
pub open spec fn shown_rows(a: App, p: Pane, cols: ColumnLayout, width: int, now: Moment) -> Seq<
    Seq<SpanView>,
> {
    let rows = list_rows(
        a,
        p.inbox_rows,
        p.selected_row,
        cols,
        width,
        now,
        p.inbox_rows.len() as int,
    );
    if rows.len() == 0 {
        no_lines().push(row(empty_message(a.search_filter), fg(MUTED).bg(MANTLE)))
    } else {
        rows
    }
}

/// One row for the header, the rest for the body.
pub open spec fn header_and_body() -> Seq<Constraint> {
    seq![Constraint::Length(1), Constraint::Min(1)]
}

/// What the Inbox draws, given the rows of its area.
#[verifier::opaque]
pub open spec fn inbox_ops(a: App, p: Pane, now: Moment, rows: Seq<Rect>) -> Seq<OpView> {
    let full = rows[1];
    let strip = inbox_preview_rows(full.height);
    let body = Rect { height: less(full.height as int, strip as int) as u16, ..full };
    let cols = columns(body.width);
    let n = priority_order().len() as int;
    let shown = counted(pr_shown(a.prs.groups, a.search_filter, n));
    let total = counted(pr_total(a.prs.groups, n));
    let list = seq![
        fill_op(body, MANTLE),
        line_op(rows[0], inbox_header(a.search_filter, shown, total, cols), bg(BASE)),
    ] + viewport_ops(
        shown_rows(a, p, cols, body.width as int, now),
        p.inbox_scroll.offset as int,
        fg(TEXT).bg(MANTLE),
        false,
        body,
    );
    if strip > 0 {
        let selected = match a.selected_pr_id {
            Some(id) => listed_pr(a.prs.groups, id),
            None => None,
        };
        list.push(
            text_op(
                Rect { y: (full.y + body.height) as u16, height: strip, ..full },
                strip_rows(selected, full.width as int, now),
                bg(BASE),
            ),
        )
    } else {
        list
    }
}

fn build_list(ctx: &RenderContext, cols: &ColumnLayout, width: u16) -> (r: Vec<Line>)
    ensures
        lines_view(r@) == shown_rows(
            ctx.state@,
            ctx.view@,
            *cols,
            width as int,
            ctx.clock.now,
        ),
{
    let user = match &ctx.state.health {
        Some(h) => h.current_user.as_str(),
        None => "",
    };
    let rows = &ctx.view.inbox_rows;
    let mut lines = new_lines();
    let mut n: usize = 0;
    while n < rows.len()
        invariant
            n <= rows@.len(),
            rows@ == ctx.view.inbox_rows@,
            user@ == current_user(ctx.state@),
            lines_view(lines@) == list_rows(
                ctx.state@,
                rows_view(rows@),
                ctx.view.selected_row,
                *cols,
                width as int,
                ctx.clock.now,
                n as int,
            ),
        decreases rows@.len() - n,
    {
        let selected = n == ctx.view.selected_row;
        proof {
            assert(rows_view(rows@)[n as int] == rows@[n as int]@);
        }
        match &rows[n] {
            InboxRow::Header { section, count, collapsed } => {
                push_line(
                    &mut lines,
                    section_line(section.label(), INBOX, *count, *collapsed, selected, width),
                );
            },
            InboxRow::Pr { id } => {
                if let Some(pr) = find_listed_pr(&ctx.state.prs.groups, id.as_str()) {
                    push_line(
                        &mut lines,
                        pr_row_line(pr, user, selected, cols, width, ctx.clock.now),
                    );
                }
            },
        }
        n += 1;
    }
    proof {
        assert(rows_view(rows@).len() == rows@.len());
        assert(lines_view(lines@).len() == lines@.len());
    }
    if lines.len() == 0 {
        let filter = ctx.state.search_filter.as_str();
        let message = if filter.is_empty() {
            "  inbox empty — R refresh · w change targets".to_owned()
        } else {
            joined3("  no PRs match \"", filter, "\" — / to clear · R refresh")
        };
        push_line(&mut lines, Line::styled(message.as_str(), fg(MUTED).bg(MANTLE)));
        proof {
            assert(lines_view(lines@) =~= no_lines().push(
                row(empty_message(ctx.state@.search_filter), fg(MUTED).bg(MANTLE)),
            ));
        }
    }
    lines
}

/// Draw the Inbox into the two rows of its area.
pub fn render_inbox_rows(scene: &mut Scene, rows: &Vec<Rect>, ctx: &RenderContext)
    requires
        rows@.len() == 2,
        rows@[1].wf(),
    ensures
        final(scene)@ == old(scene)@ + inbox_ops(ctx.state@, ctx.view@, ctx.clock.now, rows@),
{
    proof {
        reveal(inbox_ops);
    }
    let full = rows[1];
    let strip: u16 = inbox_preview_rows(full.height);
    let body = Rect { height: full.height.saturating_sub(strip), ..full };
    scene.fill(body, MANTLE);
    let cols = ColumnLayout::compute(body.width);
    let filter = ctx.state.search_filter.as_str();
    let (shown, total) = filter_counts(&ctx.state.prs, filter);
    scene.line(rows[0], header_line(filter, shown, total, &cols), bg(BASE));
    let lines = build_list(ctx, &cols, body.width);
    ScrollViewport::new(&lines, ctx.view.inbox_scroll.offset).style(fg(TEXT).bg(MANTLE)).render(
        scene,
        body,
    );
    if strip > 0 {
        let selected = match &ctx.state.selected_pr_id {
            Some(id) => find_listed_pr(&ctx.state.prs.groups, id.as_str()),
            None => None,
        };
        let area = Rect { y: full.y + body.height, height: strip, ..full };
        scene.text(area, preview_strip_lines(selected, full.width, ctx.clock.now), bg(BASE));
    }
    proof {
        assert(scene@ =~= old(scene)@ + inbox_ops(ctx.state@, ctx.view@, ctx.clock.now, rows@));
    }
}

/// Draw the Inbox; nothing where there is no room for it.
pub fn render_inbox(scene: &mut Scene, area: Rect, ctx: &RenderContext)
    requires
        area.wf(),
    ensures
        final(scene)@ == if area.width < 8 || area.height < 3 {
            old(scene)@
        } else {
            old(scene)@ + inbox_ops(
                ctx.state@,
                ctx.view@,
                ctx.clock.now,
                layout_rows(area, header_and_body()),
            )
        },
{
    if area.width < 8 || area.height < 3 {
        return;
    }
    let rows = split_header_and_body(area);
    render_inbox_rows(scene, &rows, ctx);
}

/// One row for the header, the rest for the body.
pub(crate) fn split_header_and_body(area: Rect) -> (r: Vec<Rect>)
    requires
        area.wf(),
    ensures
        r@ == layout_rows(area, header_and_body()),
        r@.len() == 2,
        r@[0].wf(),
        r@[1].wf(),
        area.height >= 2 ==> r@ == stacked(area, 2, 1),
{
    let mut parts: Vec<Constraint> = Vec::new();
    parts.push(Constraint::Length(1));
    parts.push(Constraint::Min(1));
    proof {
        assert(parts@ =~= header_and_body());
        assert(settled(parts@, 1));
    }
    split_rows(area, &parts)
}

} // verus!
