//! The Overview: what it says of the pull request that is looked at.
use vstd::prelude::*;

use crate::api::{FileDto, PrDetailResponse};
use crate::app::App;
use crate::cache::{
    check_row, description_rows, problem_rows, problem_rows_upto, summary_rows, CacheView,
};
use crate::draw::{fill_op, no_lines, row_text, sp, OpView, Rect, SpanView};
use crate::github::{
    CheckEntry, CheckStatus, MergeableState, Priority, ReviewDecision, TimelineEvent,
    TimelineEventType,
};
use crate::markdown::markdown_text_rows;
use crate::scroll::OverviewFocus;
use crate::sort::{text_before, text_order_is_asymmetric, text_order_is_transitive};
use crate::state::Pane;
use crate::text::{decimal, text_columns, truncated};
use crate::theme::{ADD, DEL, FAIL, ICON_CLOSE, ICON_SYNC, MED, OVERLAY0, PENDING};
use crate::views::overview::{
    body_ops, chips_of, identity_row, is_summary_loading, latest_time, overview_sections, part_ops,
    rows_of_section, stacked_part, status_row, summary_len, timeline_comments, title_ops,
    total_added, total_removed,
};

verus! {

/// What is added over all files.
pub open spec fn added(files: Seq<FileDto>) -> int {
    files.fold_left(0int, |n: int, f: FileDto| n + f.additions)
}

/// What is removed over all files.
pub open spec fn removed(files: Seq<FileDto>) -> int {
    files.fold_left(0int, |n: int, f: FileDto| n + f.deletions)
}

proof fn lemma_totals(files: Seq<FileDto>, n: int)
    requires
        0 <= n <= files.len(),
    ensures
        0 <= added(files.take(n)),
        0 <= removed(files.take(n)),
        added(files.take(n)) <= u64::MAX ==> total_added(files, n) == added(files.take(n)),
        removed(files.take(n)) <= u64::MAX ==> total_removed(files, n) == removed(files.take(n)),
    decreases n,
{
    reveal(Seq::fold_left);
    if n > 0 {
        lemma_totals(files, n - 1);
        assert(files.take(n).drop_last() =~= files.take(n - 1));
        assert(files.take(n).last() == files[n - 1]);
    }
}

proof fn lemma_comments(events: Seq<TimelineEvent>, n: int)
    requires
        0 <= n <= events.len(),
    ensures
        timeline_comments(events, n) == events.take(n).filter(
            |e: TimelineEvent| e.event_type == TimelineEventType::Comment,
        ).len(),
    decreases n,
{
    reveal(Seq::filter);
    if n > 0 {
        lemma_comments(events, n - 1);
        assert(events.take(n).drop_last() =~= events.take(n - 1));
        assert(events.take(n).last() == events[n - 1]);
    }
}

/// The status row says how review, merge and checks stand, what all files
/// together add and remove, and how many files and comments there are.
pub proof fn status_row_adds_up(d: PrDetailResponse)
    requires
        added(d.files@) <= u64::MAX,
        removed(d.files@) <= u64::MAX,
    ensures
        ({
            let line = status_row(d);
            let comments = d.review_threads@.len() + d.timeline@.filter(
                |e: TimelineEvent| e.event_type == TimelineEventType::Comment,
            ).len();
            &&& line.len() == 13
            &&& line[6].text == "+"@ + decimal(added(d.files@) as nat)
            &&& line[6].style.fg == Some(ADD)
            &&& line[8].text == "−"@ + decimal(removed(d.files@) as nat)
            &&& line[8].style.fg == Some(DEL)
            &&& line[10].text == decimal(d.files@.len()) + " files"@
            &&& comments <= usize::MAX ==> line[12].text == decimal(comments) + " comments"@
        }),
{
    lemma_totals(d.files@, d.files@.len() as int);
    lemma_comments(d.timeline@, d.timeline@.len() as int);
    assert(d.files@.take(d.files@.len() as int) =~= d.files@);
    assert(d.timeline@.take(d.timeline@.len() as int) =~= d.timeline@);
}

/// The chips name the state of review, merge and checks, green where it is
/// good and red where it is not.
pub proof fn chips_name_the_state(d: PrDetailResponse)
    ensures
        ({
            let line = status_row(d);
            let c = chips_of(d);
            &&& c.len() == 3
            &&& line[0].text == c[0].0 && line[2].text == c[1].0 && line[4].text == c[2].0
            &&& line[0].style.fg == Some(c[0].1) && line[2].style.fg == Some(c[1].1)
                && line[4].style.fg == Some(c[2].1)
            &&& d.review_decision == Some(ReviewDecision::Approved) ==> c[0] == ("approved"@, ADD)
            &&& d.review_decision == Some(ReviewDecision::ChangesRequested) ==> c[0] == (
                "changes req"@,
                DEL,
            )
            &&& d.review_decision == Some(ReviewDecision::ReviewRequired) ==> c[0] == (
                "review req"@,
                MED,
            )
            &&& d.review_decision is None ==> c[0] == ("no review"@, OVERLAY0)
            &&& d.mergeable == MergeableState::Mergeable ==> c[1] == ("mergeable"@, ADD)
            &&& d.mergeable == MergeableState::Conflicting ==> c[1] == ("conflicts"@, DEL)
            &&& d.mergeable == MergeableState::Unknown ==> c[1] == ("merge ?"@, OVERLAY0)
            &&& d.check_status == CheckStatus::Success ==> c[2] == ("checks ✓"@, ADD)
            &&& d.check_status == CheckStatus::Failure ==> c[2] == ("checks ✗"@, DEL)
            &&& d.check_status == CheckStatus::Pending ==> c[2] == ("checks …"@, MED)
            &&& d.check_status == CheckStatus::Neutral ==> c[2] == ("checks ~"@, OVERLAY0)
            &&& d.check_status == CheckStatus::Absent ==> c[2] == ("no checks"@, OVERLAY0)
        }),
{
}

/// The identity row says whether the pull request is a draft, who wrote it,
/// which branch goes where, and how urgent it is. Only the branches give way
/// where there is no room.
pub proof fn identity_row_tells_the_pull_request(d: PrDetailResponse, width: int)
    ensures
        ({
            let line = identity_row(Some(d), width);
            let state = if d.is_draft {
                "[draft]"@
            } else {
                "[open]"@
            };
            let urgency = match d.llm_priority {
                Some(Priority::High) => "priority: high"@,
                Some(Priority::Medium) => "priority: medium"@,
                Some(Priority::Low) => "priority: low"@,
                None => "priority: none"@,
            };
            &&& line.len() == 5 || line.len() == 7
            &&& line[0].text == state
            &&& line[2].text == d.author@
            &&& line.last().text == urgency
            &&& line.len() == 7 ==> line[4].text == truncated(
                d.head_ref@ + " → "@ + d.base_ref@,
                crate::views::overview::branch_columns(d, width) as nat,
            )
        }),
{
}

proof fn lemma_latest(events: Seq<TimelineEvent>, n: int)
    requires
        0 < n <= events.len(),
    ensures
        exists|k: int| 0 <= k < n && latest_time(events, n) == #[trigger] events[k].created_at@,
        forall|k: int|
            0 <= k < n ==> !text_before(latest_time(events, n), #[trigger] events[k].created_at@),
    decreases n,
{
    if n == 1 {
        if text_before(events[0].created_at@, events[0].created_at@) {
            text_order_is_asymmetric(events[0].created_at@, events[0].created_at@);
        }
        assert(latest_time(events, 1) == events[0].created_at@);
    } else {
        lemma_latest(events, n - 1);
        let before = latest_time(events, n - 1);
        let last = events[n - 1].created_at@;
        let k = choose|k: int| 0 <= k < n - 1 && before == #[trigger] events[k].created_at@;
        if text_before(last, last) {
            text_order_is_asymmetric(last, last);
        }
        if text_before(last, before) {
            assert(latest_time(events, n) == events[k].created_at@);
            text_order_is_asymmetric(last, before);
        } else {
            assert(latest_time(events, n) == events[n - 1].created_at@);
            assert forall|j: int| 0 <= j < n implies !text_before(
                last,
                #[trigger] events[j].created_at@,
            ) by {
                if j < n - 1 {
                    text_order_is_transitive(events[j].created_at@, before, last);
                }
            }
        }
    }
}

/// The time of the last activity is that of an event, and none is later.
pub proof fn last_activity_is_the_latest(events: Seq<TimelineEvent>)
    requires
        events.len() > 0,
    ensures
        exists|k: int|
            0 <= k < events.len() && latest_time(events, events.len() as int)
                == #[trigger] events[k].created_at@,
        forall|k: int|
            0 <= k < events.len() ==> !text_before(
                latest_time(events, events.len() as int),
                #[trigger] events[k].created_at@,
            ),
{
    lemma_latest(events, events.len() as int);
}

/// Whether a check has gone well: it is completed and succeeded, was skipped or
/// is neutral; or, a plain status, it succeeded.
pub open spec fn well(check: CheckEntry) -> bool {
    match check.conclusion {
        Some(c) => check.status@ == "COMPLETED"@ && (c@ == "SUCCESS"@ || c@ == "SKIPPED"@ || c@
            == "NEUTRAL"@),
        None => check.status@ == "SUCCESS"@,
    }
}

/// A check that has not gone well adds its row to the problems, one that has
/// adds none: what comes before it stays.
pub proof fn each_bad_check_is_a_problem(d: PrDetailResponse, n: int)
    requires
        0 <= n < d.checks@.len(),
    ensures
        !well(d.checks@[n]) ==> problem_rows_upto(d, n + 1) == problem_rows_upto(d, n).push(
            check_row(d.checks@[n]),
        ),
        well(d.checks@[n]) ==> problem_rows_upto(d, n + 1) == problem_rows_upto(d, n),
        d.mergeable == MergeableState::Conflicting ==> problem_rows_upto(d, 0).len() == 1
            && row_text(problem_rows_upto(d, 0)[0]) == ICON_CLOSE@
            + " conflicts with base branch"@,
        d.mergeable != MergeableState::Conflicting ==> problem_rows_upto(d, 0).len() == 0,
        problem_rows(Some(d)) == problem_rows_upto(d, d.checks@.len() as int),
{
    crate::markdown::lemma_row_text_one(
        ICON_CLOSE@ + " conflicts with base branch"@,
        crate::draw::fg(FAIL),
    );
}

/// Without single checks their state as a whole is told where it is bad.
pub proof fn state_of_checks_is_told(d: PrDetailResponse)
    requires
        d.checks@.len() == 0,
        d.mergeable != MergeableState::Conflicting,
    ensures
        ({
            let rows = problem_rows(Some(d));
            &&& d.check_status == CheckStatus::Failure ==> rows == seq![
                seq![sp("checks: failure"@, crate::draw::fg(FAIL))],
            ]
            &&& d.check_status == CheckStatus::Pending ==> rows == seq![
                seq![sp("checks: pending"@, crate::draw::fg(PENDING))],
            ]
            &&& d.check_status != CheckStatus::Failure && d.check_status != CheckStatus::Pending
                ==> rows.len() == 0
        }),
{
    assert(crate::draw::row("checks: failure"@, crate::draw::fg(FAIL)) =~= seq![
        sp("checks: failure"@, crate::draw::fg(FAIL)),
    ]);
    assert(crate::draw::row("checks: pending"@, crate::draw::fg(PENDING)) =~= seq![
        sp("checks: pending"@, crate::draw::fg(PENDING)),
    ]);
}

/// The row of a check names it and its outcome, or its status where it has
/// none, and tells one that is under way from one that failed.
pub proof fn check_row_tells_the_check(check: CheckEntry)
    ensures
        ({
            let line = check_row(check);
            let waits = check.status@ == "IN_PROGRESS"@ || check.status@ == "QUEUED"@
                || check.status@ == "PENDING"@ || check.status@ == "WAITING"@ || check.status@
                == "REQUESTED"@;
            &&& line.len() == 3
            &&& line[1].text == check.name@
            &&& check.conclusion matches Some(c) ==> line[2].text == "  "@ + c@
            &&& check.conclusion is None ==> line[2].text == "  "@ + check.status@
            &&& waits ==> line[0].text == ICON_SYNC@ + " "@ && line[0].style.fg == Some(PENDING)
            &&& !waits ==> line[0].text == ICON_CLOSE@ + " "@ && line[0].style.fg == Some(FAIL)
        }),
{
}

/// The summary shows each part of a rich summary that is not empty, in the
/// order one line, catching up, next steps, the latter two under their names;
/// without one it shows the plain summary, and without that nothing.
pub proof fn summary_shows_its_parts(d: PrDetailResponse, width: int)
    ensures
        ({
            let rows = summary_rows(Some(d), width);
            &&& d.llm_rich_summary is None && d.llm_summary is None ==> rows.len() == 0
            &&& d.llm_rich_summary is None && d.llm_summary is Some ==> rows == markdown_text_rows(
                d.llm_summary->0@,
                width,
            )
            &&& d.llm_rich_summary matches Some(rich) ==> {
                let one: int = if rich.one_line@.len() > 0 {
                    1
                } else {
                    0
                };
                let catching = markdown_text_rows(rich.catch_up@, width);
                let steps = markdown_text_rows(rich.next_steps@, width);
                let two: int = if rich.catch_up@.len() > 0 {
                    1 + catching.len() as int
                } else {
                    0
                };
                let three: int = if rich.next_steps@.len() > 0 {
                    1 + steps.len() as int
                } else {
                    0
                };
                &&& rows.len() == one + two + three
                &&& one == 1 ==> row_text(rows[0]) == rich.one_line@
                &&& two > 0 ==> row_text(rows[one]) == "Catch up"@ && rows.subrange(
                    one + 1,
                    one + two,
                ) == catching
                &&& three > 0 ==> row_text(rows[one + two]) == "Next steps"@ && rows.subrange(
                    one + two + 1,
                    one + two + three,
                ) == steps
            }
        }),
{
    if d.llm_rich_summary is Some {
        let rich = d.llm_rich_summary->0;
        crate::markdown::lemma_row_text_one(rich.one_line@, crate::draw::Style::plain().bold());
        crate::markdown::lemma_row_text_one(
            "Catch up"@,
            crate::draw::Style::plain().bold().underlined(),
        );
        crate::markdown::lemma_row_text_one(
            "Next steps"@,
            crate::draw::Style::plain().bold().underlined(),
        );
    }
}

/// The description shows the pull request's own text.
pub proof fn description_shows_the_body(d: PrDetailResponse, width: int)
    ensures
        d.body@.len() > 0 ==> description_rows(Some(d), width) == markdown_text_rows(
            d.body@,
            width,
        ),
        d.body@.len() == 0 ==> description_rows(Some(d), width).len() == 0,
        description_rows(None, width).len() == 0,
        summary_rows(None, width).len() == 0,
        problem_rows(None).len() == 0,
{
}

/// Whether `part` is drawn in one piece.
pub open spec fn drawn(ops: Seq<OpView>, part: Seq<OpView>) -> bool {
    exists|i: int|
        #![trigger ops.subrange(i, i + part.len())]
        0 <= i <= ops.len() - part.len() && ops.subrange(i, i + part.len()) == part
}

proof fn lemma_drawn(before: Seq<OpView>, part: Seq<OpView>, after: Seq<OpView>)
    ensures
        drawn(before + part + after, part),
{
    let all = before + part + after;
    let i = before.len() as int;
    assert(all.subrange(i, i + part.len()) =~= part);
}

/// The body draws each section with its own rows under its own name, where its
/// own scrolling has it, below the section before it; the one that has the
/// focus is marked.
pub proof fn sections_show_their_rows(a: App, p: Pane, area: Rect)
    requires
        a.pr_detail is Some,
    ensures
        ({
            let c = a.render_cache;
            let loading = a.llm_detail_loading && a.pr_detail->0.llm_rich_summary is None;
            let s = overview_sections(
                area.height,
                summary_len(c.overview_summary.len() as int, loading),
                c.overview_problems.len() as int,
            );
            let ops = body_ops(a, p, area);
            let y1 = (area.y + rows_of_section(s.summary)) as u16;
            let y2 = (y1 + rows_of_section(s.problems)) as u16;
            &&& s.summary matches Some(h) ==> drawn(
                ops,
                part_ops(
                    Rect::new(area.x, area.y, area.width, h),
                    "Brunson Says..."@,
                    c.overview_summary,
                    p.overview_summary_scroll.offset as int,
                    p.overview_focus == OverviewFocus::Summary,
                    loading,
                ),
            )
            &&& s.problems matches Some(h) ==> drawn(
                ops,
                part_ops(
                    Rect::new(area.x, y1, area.width, h),
                    "PROBLEMS"@,
                    c.overview_problems,
                    p.overview_problems_scroll.offset as int,
                    p.overview_focus == OverviewFocus::Problems,
                    false,
                ),
            )
            &&& drawn(
                ops,
                part_ops(
                    Rect::new(area.x, y2, area.width, s.description),
                    "DESCRIPTION"@,
                    c.overview_description,
                    p.overview_description_scroll.offset as int,
                    p.overview_focus == OverviewFocus::Description,
                    false,
                ),
            )
        }),
{
    reveal(body_ops);
    reveal(stacked_part);
    let c = a.render_cache;
    let loading = is_summary_loading(a);
    let s = overview_sections(
        area.height,
        summary_len(c.overview_summary.len() as int, loading),
        c.overview_problems.len() as int,
    );
    let y1 = (area.y + rows_of_section(s.summary)) as u16;
    let y2 = (y1 + rows_of_section(s.problems)) as u16;
    let y3 = (y2 + s.description) as u16;
    let fill = seq![fill_op(area, crate::theme::MANTLE)];
    let one = stacked_part(
        area,
        area.y,
        s.summary,
        "Brunson Says..."@,
        c.overview_summary,
        p.overview_summary_scroll.offset as int,
        p.overview_focus == OverviewFocus::Summary,
        loading,
    );
    let two = stacked_part(
        area,
        y1,
        s.problems,
        "PROBLEMS"@,
        c.overview_problems,
        p.overview_problems_scroll.offset as int,
        p.overview_focus == OverviewFocus::Problems,
        false,
    );
    let three = stacked_part(
        area,
        y2,
        Some(s.description),
        "DESCRIPTION"@,
        c.overview_description,
        p.overview_description_scroll.offset as int,
        p.overview_focus == OverviewFocus::Description,
        false,
    );
    let four = crate::views::overview::last_activity_ops(
        a.pr_detail->0,
        Rect::new(area.x, y3, area.width, s.last_activity),
        p.overview_focus == OverviewFocus::LastActivity,
    );
    let ops = body_ops(a, p, area);
    assert(ops =~= fill + one + (two + three + four));
    assert(ops =~= fill + one + two + (three + four));
    assert(ops =~= (fill + one + two) + three + four);
    lemma_drawn(fill, one, two + three + four);
    lemma_drawn(fill + one, two, three + four);
    lemma_drawn(fill + one + two, three, four);
}

/// A section's head shows its name, behind a bar where it has the focus, and
/// a summary that is being made says so.
pub proof fn section_head_tells_the_section(
    area: Rect,
    label: Seq<char>,
    lines: Seq<Seq<SpanView>>,
    scroll: int,
    focused: bool,
    loading: bool,
)
    requires
        area.height > 1,
    ensures
        ({
            let ops = part_ops(area, label, lines, scroll, focused, loading);
            let mark = if focused {
                "▌"@
            } else {
                " "@
            };
            &&& ops.len() >= 2
            &&& ops[1] matches OpView::Text { area: at, lines: head, .. } && at == Rect::new(
                area.x,
                area.y,
                area.width,
                1,
            ) && head.len() == 1 && head[0].len() == 2 && head[0][0].text == mark && head[0][1].text
                == (if loading {
                "✨ "@ + label
            } else {
                label
            })
            &&& lines.len() == 0 && !loading ==> ops.len() == 2
        }),
{
    reveal(part_ops);
}

/// The title shows the number and the title of the pull request.
pub proof fn title_shows_number_and_title(d: PrDetailResponse, area: Rect)
    requires
        area.height > 0,
        text_columns("#"@ + decimal(d.number as nat) + " "@ + d.title@) <= area.width,
        area.width > 0,
    ensures
        title_ops(Some(d), area)[1] matches OpView::Text { lines, .. } && lines.len() == 1
            && row_text(lines[0]) == "#"@ + decimal(d.number as nat) + " "@ + d.title@,
{
    reveal(title_ops);
    crate::markdown::lemma_row_text_one(
        "#"@ + decimal(d.number as nat) + " "@ + d.title@,
        crate::draw::fg(crate::theme::OVERVIEW).bg(crate::theme::BASE).bold(),
    );
}

/// What is cached for the Overview is what the detail says, whenever the pull
/// request, its time of update, its summary or the width is another one.
pub proof fn overview_follows_the_detail(
    cache: CacheView,
    d: PrDetailResponse,
    e: PrDetailResponse,
    w: u16,
    v: u16,
)
    requires
        d.id@ != e.id@ || d.updated_at@ != e.updated_at@ || w != v || (d.llm_summary is Some)
            != (e.llm_summary is Some) || (d.llm_rich_summary is Some) != (
        e.llm_rich_summary is Some) || (d.llm_rich_summary is Some && d.llm_rich_summary->0.generated_at
            != e.llm_rich_summary->0.generated_at),
    ensures
        ({
            let c = cache.with_overview(Some(d), w).with_overview(Some(e), v);
            &&& c.overview_summary == summary_rows(Some(e), v as int)
            &&& c.overview_description == description_rows(Some(e), v as int)
            &&& c.overview_problems == problem_rows(Some(e))
        }),
{
    reveal(CacheView::with_overview);
}

/// What is cached for the Activity is what the detail says, whenever the pull
/// request, its time of update, the number of its events or threads or the
/// width is another one.
pub proof fn activity_follows_the_detail(
    cache: CacheView,
    d: PrDetailResponse,
    e: PrDetailResponse,
    w: u16,
    v: u16,
)
    requires
        d.timeline@.len() <= usize::MAX,
        e.timeline@.len() <= usize::MAX,
        d.review_threads@.len() <= usize::MAX,
        e.review_threads@.len() <= usize::MAX,
        d.id@ != e.id@ || d.updated_at@ != e.updated_at@ || w != v || d.timeline@.len()
            != e.timeline@.len() || d.review_threads@.len() != e.review_threads@.len(),
    ensures
        cache.with_activity(Some(d), w).with_activity(Some(e), v).activity_events
            == crate::cache::activity_of(Some(e), v as int),
{
    reveal(CacheView::with_activity);
}

/// A section gets all the rows it asks for, its head and one for each of its
/// lines, wherever that is no more than its share: four tenths of the body for
/// the summary and six rows for the problems. The last activity always has its
/// row.
pub proof fn sections_get_what_they_ask_for(body: u16, summary: int, problems: int)
    requires
        body >= 20,
        0 <= summary,
        0 <= problems,
    ensures
        ({
            let s = overview_sections(body, summary, problems);
            &&& s.last_activity == 1
            &&& 0 < summary && (summary + 1) * 10 <= body * 4 ==> s.summary == Some(
                (summary + 1) as u16,
            )
            &&& 0 < summary && (summary + 1) * 10 > body * 4 ==> s.summary == Some(
                (body * 4 / 10) as u16,
            )
            &&& 0 < problems <= 5 ==> s.problems == Some((problems + 1) as u16)
            &&& problems > 5 ==> s.problems == Some(6u16)
            &&& summary == 0 && problems == 0 ==> s.description == body - 1
        }),
{
}

/// While a summary is being made and there is none yet, its section says so;
/// without a pull request the title says how to get one.
pub proof fn waiting_is_told(area: Rect, label: Seq<char>, scroll: int, focused: bool)
    requires
        area.height > 1,
    ensures
        ({
            let ops = part_ops(area, label, no_lines(), scroll, focused, true);
            &&& ops.len() == 3
            &&& ops[2] matches OpView::Text { lines, .. } && lines.len() == 1 && lines[0].len()
                == 1 && lines[0][0].text == "Brunson is thinking about this PR..."@
        }),
        title_ops(None, area)[1] matches OpView::Text { lines, .. } && lines == seq![
            crate::draw::raw_row("Select a PR from the inbox"@),
        ],
{
    reveal(part_ops);
    reveal(title_ops);
}

} // verus!
