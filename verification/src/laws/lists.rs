//! Lists: what a row of the Inbox or of the files says.
use vstd::prelude::*;

use crate::api::{FileDto, Moment, PrDetailResponse, PrGroups, PrSummary};
use crate::app::App;
use crate::clock::{age_label, seconds_ago, stale_label};
use crate::draw::row_text;
use crate::github::{
    priority_order, CheckStatus, PrGroup, Priority, ReviewComment, ReviewThread,
};
use crate::inbox_rows::{InboxSection, RowView};
use crate::laws::events::listed;
use crate::laws::inbox::let_through;
use crate::split::trimmed;
use crate::state::Pane;
use crate::text::{decimal, text_columns};
use crate::theme::{
    ADD, DEL, FAIL, FILES, HIGH, ICON_DASH, ICON_DIFF_ADDED, ICON_DIFF_MODIFIED, ICON_DIFF_REMOVED,
    ICON_DIFF_RENAMED, INBOX, LOW, MED, MUTED, OVERLAY0, PASS,
};
use crate::views::files::{
    comments_on, file_columns, file_comments, file_row, file_rows, glyph_of, status_color,
    FileColumnLayout,
};
use crate::views::inbox::{
    chip_text, columns, counted, current_user, empty_message, last_with_id, list_rows, listed_pr,
    listed_upto, next_style, pr_row, pr_shown, pr_total, priority_dot_color, section_row,
    shown_rows, strip_rows, ColumnLayout,
};

verus! {

/// Whether a cell shows a text: it begins with it, and the rest is blank.
pub open spec fn shows(cell: Seq<char>, text: Seq<char>) -> bool {
    &&& text.len() <= cell.len()
    &&& cell.take(text.len() as int) == text
    &&& forall|k: int| text.len() <= k < cell.len() ==> #[trigger] cell[k] == ' '
}

proof fn lemma_shows(text: Seq<char>, width: int)
    requires
        text.len() <= width,
    ensures
        shows(crate::views::text::cell(text, width), text),
{
    let c = crate::views::text::cell(text, width);
    assert(c.take(text.len() as int) =~= text);
}

/// Whether a comment stands on a file.
pub open spec fn stands_on(path: Seq<char>) -> spec_fn(ReviewComment) -> bool {
    |c: ReviewComment| c.path@ == path
}

proof fn lemma_on(comments: Seq<ReviewComment>, path: Seq<char>, n: int)
    requires
        0 <= n <= comments.len(),
    ensures
        comments_on(comments, path, n) == comments.take(n).filter(stands_on(path)).len(),
    decreases n,
{
    reveal(Seq::filter);
    if n > 0 {
        lemma_on(comments, path, n - 1);
        assert(comments.take(n).drop_last() =~= comments.take(n - 1));
        assert(comments.take(n).last() == comments[n - 1]);
    }
}

/// How many comments stand on a file.
pub open spec fn comments_at(threads: Seq<ReviewThread>, path: Seq<char>) -> int {
    threads.fold_left(
        0int,
        |n: int, t: ReviewThread| n + t.comments@.filter(stands_on(path)).len(),
    )
}

proof fn lemma_at(threads: Seq<ReviewThread>, path: Seq<char>, n: int)
    requires
        0 <= n <= threads.len(),
    ensures
        file_comments(threads, path, n) == comments_at(threads.take(n), path),
    decreases n,
{
    reveal(Seq::fold_left);
    if n > 0 {
        lemma_at(threads, path, n - 1);
        assert(threads.take(n).drop_last() =~= threads.take(n - 1));
        assert(threads.take(n).last() == threads[n - 1]);
        let comments = threads[n - 1].comments@;
        lemma_on(comments, path, comments.len() as int);
        assert(comments.take(comments.len() as int) =~= comments);
    }
}

/// A file's row shows how it was changed, its path, how many comments stand on
/// it, and what it adds and removes.
pub proof fn file_row_tells_the_file(
    d: PrDetailResponse,
    file: FileDto,
    selected: bool,
    cols: FileColumnLayout,
    width: int,
)
    requires
        0 < text_columns(file.path@) <= cols.path_width,
        file.path@.len() <= cols.path_width,
        decimal(file.additions as nat).len() <= 4,
        decimal(file.deletions as nat).len() <= 4,
    ensures
        ({
            let row = file_row(d, file, selected, cols, width);
            let n = comments_at(d.review_threads@, file.path@);
            let at: int = if cols.comments_width is Some {
                8
            } else {
                6
            };
            &&& row.len() > at + 2
            &&& selected <==> row[0].text == "▌"@
            &&& !selected ==> row[0].text == " "@
            &&& row[2].text == glyph_of(file.status) && row[2].style.fg == Some(
                status_color(file.status),
            )
            &&& shows(row[4].text, file.path@)
            &&& cols.comments_width matches Some(w) ==> {
                &&& n == 0 ==> shows(row[6].text, Seq::empty())
                &&& 0 < n <= usize::MAX && ("✎"@ + decimal(n as nat)).len() <= w ==> shows(
                    row[6].text,
                    "✎"@ + decimal(n as nat),
                )
            }
            &&& shows(row[at].text, "+"@ + decimal(file.additions as nat))
            &&& row[at].style.fg == Some(ADD)
            &&& shows(row[at + 2].text, "−"@ + decimal(file.deletions as nat))
            &&& row[at + 2].style.fg == Some(DEL)
        }),
{
    lemma_at(d.review_threads@, file.path@, d.review_threads@.len() as int);
    assert(d.review_threads@.take(d.review_threads@.len() as int) =~= d.review_threads@);
    lemma_shows(file.path@, cols.path_width as int);
    reveal_strlit("+");
    reveal_strlit("−");
    reveal_strlit("");
    reveal_strlit("▌");
    reveal_strlit(" ");
    assert("▌"@[0] != " "@[0]);
    lemma_shows("+"@ + decimal(file.additions as nat), 5);
    lemma_shows("−"@ + decimal(file.deletions as nat), 5);
    let n = comments_at(d.review_threads@, file.path@);
    if cols.comments_width is Some {
        let w = cols.comments_width->0 as int;
        assert(""@ =~= Seq::<char>::empty());
        lemma_shows(Seq::empty(), w);
        if n > 0 && ("✎"@ + decimal(n as nat)).len() <= w {
            lemma_shows("✎"@ + decimal(n as nat), w);
        }
    }
}

/// Added, removed, changed and renamed files each have their sign and colour.
pub proof fn file_status_has_its_sign(status: char)
    ensures
        status == 'A' ==> glyph_of(status) == ICON_DIFF_ADDED@ && status_color(status) == ADD,
        status == 'D' ==> glyph_of(status) == ICON_DIFF_REMOVED@ && status_color(status) == DEL,
        status == 'M' ==> glyph_of(status) == ICON_DIFF_MODIFIED@ && status_color(status) == FILES,
        status == 'R' ==> glyph_of(status) == ICON_DIFF_RENAMED@ && status_color(status) == FILES,
        status != 'A' && status != 'D' && status != 'M' && status != 'R' ==> glyph_of(status)
            == ICON_DASH@ && status_color(status) == MUTED,
{
}

/// Every file has its row, in the order of the files, and only the selected
/// one is marked.
pub proof fn files_are_listed_in_order(d: PrDetailResponse, selected: usize, width: u16, i: int)
    requires
        0 <= i < d.files@.len(),
    ensures
        file_rows(d, selected, width).len() == d.files@.len(),
        file_rows(d, selected, width)[i] == file_row(
            d,
            d.files@[i],
            i == selected,
            file_columns(width),
            width as int,
        ),
{
}

/// A pull request's row shows its number, its title, who wrote it unless that
/// is the user, what is to be done next, and how old it is; the dot shows how
/// urgent it is.
pub proof fn pr_row_tells_the_pull_request(
    pr: PrSummary,
    user: Seq<char>,
    selected: bool,
    cols: ColumnLayout,
    width: int,
    now: Moment,
)
    requires
        decimal(pr.number as nat).len() <= 5,
        0 < text_columns(pr.title@) <= cols.title_width,
        pr.title@.len() <= cols.title_width,
        pr.next_action@.len() + 2 <= cols.next_width,
        cols.next_width >= 4,
        age_label(seconds_ago(pr.updated_at@, now)).len() <= 4,
    ensures
        ({
            let row = pr_row(pr, user, selected, cols, width, now);
            let at: int = if cols.author_width is Some {
                10
            } else {
                8
            };
            let failing = pr.check_status == CheckStatus::Failure && pr.next_action@ != "Fix CI"@;
            let last: int = if failing {
                at + 4
            } else {
                at + 2
            };
            &&& row.len() > last
            &&& selected <==> row[0].text == "▌"@
            &&& row[2].text == "●"@ && row[2].style.fg == Some(priority_dot_color(pr.llm_priority))
            &&& shows(row[4].text, "#"@ + decimal(pr.number as nat))
            &&& shows(row[6].text, pr.title@)
            &&& cols.author_width matches Some(w) ==> {
                &&& pr.author@ == user ==> shows(row[8].text, Seq::empty())
                &&& pr.author@ != user && pr.author@.len() < w ==> shows(
                    row[8].text,
                    "@"@ + pr.author@,
                )
            }
            &&& shows(row[at].text, pr.next_action@)
            &&& failing ==> row[at + 2].text == "✕"@ && row[at + 2].style.fg == Some(FAIL)
            &&& shows(row[last].text, age_label(seconds_ago(pr.updated_at@, now)))
        }),
{
    reveal_strlit("#");
    reveal_strlit("");
    reveal_strlit("@");
    reveal_strlit("▌");
    reveal_strlit(" ");
    assert("▌"@[0] != " "@[0]);
    lemma_shows("#"@ + decimal(pr.number as nat), 6);
    lemma_shows(pr.title@, cols.title_width as int);
    lemma_shows(pr.next_action@, cols.next_width as int);
    lemma_shows(pr.next_action@, cols.next_width - 2);
    lemma_shows(age_label(seconds_ago(pr.updated_at@, now)), 4);
    if cols.author_width is Some {
        let w = cols.author_width->0 as int;
        assert(""@ =~= Seq::<char>::empty());
        lemma_shows(Seq::empty(), w);
        if pr.author@.len() < w {
            lemma_shows("@"@ + pr.author@, w);
        }
    }
}

/// The dot has a colour for each priority, and what is to be done next one for
/// each kind of work.
pub proof fn urgency_has_its_colour(p: Option<Priority>)
    ensures
        p == Some(Priority::High) ==> priority_dot_color(p) == HIGH,
        p == Some(Priority::Medium) ==> priority_dot_color(p) == MED,
        p == Some(Priority::Low) ==> priority_dot_color(p) == LOW,
        p is None ==> priority_dot_color(p) == OVERLAY0,
        next_style("Fix CI"@).fg == Some(FAIL),
        next_style("Address feedback"@).fg == Some(FAIL),
        next_style("Review now"@).fg == Some(INBOX),
        next_style("Re-review"@).fg == Some(INBOX),
        next_style("Respond"@).fg == Some(INBOX),
        next_style("Merge"@).fg == Some(PASS),
        next_style("Waiting"@).fg == Some(MUTED),
{
    reveal_strlit("Fix CI");
    reveal_strlit("Address feedback");
    reveal_strlit("Review now");
    reveal_strlit("Re-review");
    reveal_strlit("Respond");
    reveal_strlit("Merge");
    reveal_strlit("Waiting");
    assert("Fix CI"@.len() == 6 && "Address feedback"@.len() == 16 && "Review now"@.len() == 10);
    assert("Re-review"@.len() == 9 && "Respond"@.len() == 7 && "Merge"@.len() == 5);
    assert("Respond"@[0] == 'R' && "Waiting"@[0] == 'W');
}

proof fn lemma_last_with_id(list: Seq<PrSummary>, id: Seq<char>, n: int)
    requires
        0 <= n <= list.len(),
    ensures
        last_with_id(list, id, n) matches Some(p) ==> exists|i: int|
            0 <= i < n && #[trigger] list[i] == p && p.id@ == id,
        last_with_id(list, id, n) is None ==> forall|i: int|
            0 <= i < n ==> #[trigger] list[i].id@ != id,
    decreases n,
{
    if n > 0 && list[n - 1].id@ != id {
        lemma_last_with_id(list, id, n - 1);
    }
}

proof fn lemma_listed_upto(groups: PrGroups, id: Seq<char>, n: int)
    requires
        0 <= n <= priority_order().len(),
    ensures
        listed_upto(groups, id, n) matches Some(p) ==> p.id@ == id && listed(groups, id),
        listed_upto(groups, id, n) is None ==> forall|h: int, j: int|
            #![trigger groups.members(priority_order()[h])[j]]
            0 <= h < n && 0 <= j < groups.members(priority_order()[h]).len() ==> groups.members(
                priority_order()[h],
            )[j].id@ != id,
    decreases n,
{
    if n > 0 {
        lemma_listed_upto(groups, id, n - 1);
        let list = groups.members(priority_order()[n - 1]);
        lemma_last_with_id(list, id, list.len() as int);
    }
}

/// A row shows a pull request with its identifier exactly where the list holds
/// one.
pub proof fn row_finds_its_pull_request(groups: PrGroups, id: Seq<char>)
    ensures
        listed_pr(groups, id) is Some <==> listed(groups, id),
        listed_pr(groups, id) matches Some(p) ==> p.id@ == id,
{
    lemma_listed_upto(groups, id, priority_order().len() as int);
    if listed(groups, id) {
        let (g, i) = choose|g: PrGroup, i: int|
            0 <= i < groups.members(g).len() && #[trigger] groups.members(g)[i].id@ == id;
        let h = crate::laws::events::lemma_group_is_searched(g);
        assert(groups.members(priority_order()[h])[i].id@ == id);
    }
}

proof fn lemma_list_rows(
    a: App,
    rows: Seq<RowView>,
    selected: usize,
    cols: ColumnLayout,
    width: int,
    now: Moment,
    n: int,
)
    requires
        0 <= n <= rows.len(),
        forall|k: int|
            #![trigger rows[k]]
            0 <= k < rows.len() && rows[k] is Pr ==> listed(a.prs.groups, rows[k]->id),
    ensures
        ({
            let list = list_rows(a, rows, selected, cols, width, now, n);
            &&& list.len() == n
            &&& forall|k: int| #![trigger list[k]]
                0 <= k < n ==> {
                    &&& rows[k] matches RowView::Header { section, count, collapsed } ==> list[k]
                        == section_row(
                        section.label_spec(),
                        INBOX,
                        count,
                        collapsed,
                        k == selected,
                        width,
                    )
                    &&& rows[k] matches RowView::Pr { id } ==> list[k] == pr_row(
                        listed_pr(a.prs.groups, id)->0,
                        current_user(a),
                        k == selected,
                        cols,
                        width,
                        now,
                    )
                }
        }),
    decreases n,
{
    if n > 0 {
        lemma_list_rows(a, rows, selected, cols, width, now, n - 1);
        if rows[n - 1] is Pr {
            row_finds_its_pull_request(a.prs.groups, rows[n - 1]->id);
        }
    }
}

/// Every row of the Inbox is drawn in its place: a header with its section's
/// name and count, a pull request with what the list says of it; the row of
/// the cursor, and no other, is marked.
pub proof fn inbox_rows_are_drawn_in_order(
    a: App,
    p: Pane,
    cols: ColumnLayout,
    width: int,
    now: Moment,
    k: int,
)
    requires
        0 <= k < p.inbox_rows.len(),
        forall|j: int|
            #![trigger p.inbox_rows[j]]
            0 <= j < p.inbox_rows.len() && p.inbox_rows[j] is Pr ==> listed(
                a.prs.groups,
                p.inbox_rows[j]->id,
            ),
    ensures
        ({
            let drawn = shown_rows(a, p, cols, width, now);
            let at = k == p.selected_row;
            &&& drawn.len() == p.inbox_rows.len()
            &&& p.inbox_rows[k] matches RowView::Header { section, count, collapsed } ==> drawn[k]
                == section_row(section.label_spec(), INBOX, count, collapsed, at, width)
            &&& p.inbox_rows[k] matches RowView::Pr { id } ==> exists|pr: PrSummary|
                pr.id@ == id && drawn[k] == #[trigger] pr_row(
                    pr,
                    current_user(a),
                    at,
                    cols,
                    width,
                    now,
                )
        }),
{
    lemma_list_rows(
        a,
        p.inbox_rows,
        p.selected_row,
        cols,
        width,
        now,
        p.inbox_rows.len() as int,
    );
    let drawn = shown_rows(a, p, cols, width, now);
    assert(drawn[k] == list_rows(
        a,
        p.inbox_rows,
        p.selected_row,
        cols,
        width,
        now,
        p.inbox_rows.len() as int,
    )[k]);
    if p.inbox_rows[k] is Pr {
        row_finds_its_pull_request(a.prs.groups, p.inbox_rows[k]->id);
    }
}

/// A header's row shows the section's name and count, and a chevron where it is
/// folded.
pub proof fn section_row_tells_the_section(
    label: Seq<char>,
    count: usize,
    collapsed: bool,
    selected: bool,
    width: int,
)
    ensures
        ({
            let row = section_row(label, INBOX, count, collapsed, selected, width);
            &&& row.len() >= 4
            &&& collapsed ==> row[0].text == "▸ "@
            &&& !collapsed ==> row[0].text == "  "@
            &&& row[1].text == label + " "@ + decimal(count as nat)
        }),
{
}

/// The sections have their names.
pub proof fn sections_have_their_names()
    ensures
        InboxSection::Group(PrGroup::AuthoredActionNeeded).label_spec() == "MINE — ACTION NEEDED"@,
        InboxSection::Group(PrGroup::AuthoredReadyToMerge).label_spec()
            == "MINE — READY TO MERGE"@,
        InboxSection::Group(PrGroup::AuthoredWaiting).label_spec() == "MINE — WAITING"@,
        InboxSection::Group(PrGroup::ReviewNeeded).label_spec() == "REVIEW — BLOCKED ON ME"@,
        InboxSection::Group(PrGroup::ReviewUpdate).label_spec() == "REVIEW — NEW COMMITS"@,
        InboxSection::Group(PrGroup::ReviewDone).label_spec() == "REVIEW — DONE"@,
        InboxSection::Group(PrGroup::Draft).label_spec() == "DRAFTS"@,
        InboxSection::Group(PrGroup::Other).label_spec() == "INVOLVED"@,
        InboxSection::Dependencies.label_spec() == "DEPENDENCIES"@,
{
}

/// An empty list says why it is empty.
pub proof fn empty_list_says_why(a: App, p: Pane, cols: ColumnLayout, width: int, now: Moment)
    requires
        p.inbox_rows.len() == 0,
    ensures
        ({
            let drawn = shown_rows(a, p, cols, width, now);
            &&& drawn.len() == 1
            &&& a.search_filter.len() == 0 ==> row_text(drawn[0])
                == "  inbox empty — R refresh · w change targets"@
            &&& a.search_filter.len() > 0 ==> row_text(drawn[0]) == "  no PRs match \""@
                + a.search_filter + "\" — / to clear · R refresh"@
        }),
{
    crate::markdown::lemma_row_text_one(
        empty_message(a.search_filter),
        crate::draw::fg(MUTED).bg(crate::theme::MANTLE),
    );
}

/// Without a filter everything counts as shown; with one, no more than there
/// is. A group adds its members to the total, and those that the filter lets
/// through to what is shown.
pub proof fn counts_add_up(groups: PrGroups, filter: Seq<char>, n: int)
    requires
        0 <= n < priority_order().len(),
    ensures
        ({
            let list = groups.members(priority_order()[n]);
            let kept = list.filter(|pr: PrSummary| let_through(pr, filter));
            &&& pr_total(groups, n + 1) == pr_total(groups, n) + list.len()
            &&& pr_shown(groups, filter, n + 1) == pr_shown(groups, filter, n) + kept.len()
        }),
        pr_total(groups, 0) == 0,
        pr_shown(groups, filter, 0) == 0,
{
    let list = groups.members(priority_order()[n]);
    lemma_same_filter(list, filter);
}

proof fn lemma_same_filter(list: Seq<PrSummary>, filter: Seq<char>)
    ensures
        list.filter(|pr: PrSummary| pr.passes(filter)) == list.filter(
            |pr: PrSummary| let_through(pr, filter),
        ),
    decreases list.len(),
{
    reveal(Seq::filter);
    if list.len() > 0 {
        lemma_same_filter(list.drop_last(), filter);
        crate::laws::inbox::lemma_let_through(list.last(), filter);
    }
}

/// The filter chip shows the filter and how many of how many it leaves.
pub proof fn chip_tells_the_filter(filter: Seq<char>, shown: usize, total: usize)
    ensures
        chip_text(filter, shown, total) == "/ "@ + filter + " · "@ + decimal(shown as nat) + " of "@
            + decimal(total as nat) + " · / clear"@,
{
}

/// The strip below the list shows the summary of the selected pull request, or
/// that there is none yet, and below it its repository, branch and age.
pub proof fn strip_tells_the_selection(pr: PrSummary, width: int, now: Moment)
    requires
        width > 2,
        text_columns(trimmed(pr.llm_one_line->0@)) <= width - 2,
        text_columns(
            " "@ + pr.repo@ + " · "@ + trimmed(pr.head_ref@) + " ("@ + age_label(
                seconds_ago(pr.updated_at@, now),
            ) + ")"@,
        ) <= width,
        trimmed(pr.head_ref@).len() > 0,
    ensures
        ({
            let rows = strip_rows(Some(pr), width, now);
            &&& rows.len() == 2
            &&& pr.llm_one_line matches Some(s) ==> trimmed(s@).len() > 0 ==> row_text(rows[0])
                == " "@ + trimmed(s@)
            &&& row_text(rows[1]) == " "@ + pr.repo@ + " · "@ + trimmed(pr.head_ref@) + " ("@
                + age_label(seconds_ago(pr.updated_at@, now)) + ")"@
        }),
{
    let second = " "@ + pr.repo@ + " · "@ + trimmed(pr.head_ref@) + " ("@ + age_label(
        seconds_ago(pr.updated_at@, now),
    ) + ")"@;
    crate::markdown::lemma_row_text_one(
        second,
        crate::draw::fg(MUTED).bg(crate::theme::BASE),
    );
    if pr.llm_one_line is Some {
        crate::markdown::lemma_row_text_one(
            " "@ + trimmed(pr.llm_one_line->0@),
            crate::draw::fg(crate::theme::TEXT).bg(crate::theme::BASE),
        );
    }
}

/// An age is given in its greatest unit, and the number is that of whole
/// units: seconds below a minute, minutes below an hour, hours below a day,
/// then days.
pub proof fn age_is_in_its_greatest_unit(secs: i64, n: nat)
    ensures
        0 <= secs < 60 ==> age_label(Some(secs)) == decimal(secs as nat) + "s"@,
        0 < n && n < 60 && n * 60 <= secs < (n + 1) * 60 ==> age_label(Some(secs)) == decimal(n)
            + "m"@,
        0 < n && n < 24 && n * 3600 <= secs < (n + 1) * 3600 ==> age_label(Some(secs)) == decimal(
            n,
        ) + "h"@,
        0 < n && n * 86400 <= secs < (n + 1) * 86400 ==> age_label(Some(secs)) == decimal(n)
            + "d"@,
        secs < 0 ==> age_label(Some(secs)) == decimal(0) + "s"@,
        age_label(None) == "?"@,
        secs < 60 ==> stale_label(secs as int) == "<1m"@,
        secs >= 60 ==> stale_label(secs as int) == age_label(Some(secs)),
{
}

/// A body has columns for mark, dot, number, title, next step and age; a wide
/// one has a wider next step, and the author where the title keeps four tenths
/// of the body. The title gets what is left.
pub proof fn columns_share_the_body(width: u16)
    requires
        40 <= width,
    ensures
        ({
            let c = columns(width);
            let next: int = if width >= 64 {
                16
            } else {
                8
            };
            let left = width - 11 - next - 6;
            let named = (left - 10) * 100 > width * 40;
            &&& c.next_width == next
            &&& c.title_x == 11
            &&& width >= 80 ==> c.author_width == Some(10u16) && c.title_width == left - 11
            &&& c.author_width is None && left * 100 >= width * 40 && left >= 8 ==> c.title_width
                == left
            &&& c.author_width is Some ==> named && c.title_width == left - 11
        }),
{
}

/// The comments of a file are counted from thirty columns on, and the path gets
/// what is left.
pub proof fn file_columns_share_the_body(width: u16)
    requires
        width >= 24,
    ensures
        width >= 30 ==> file_columns(width).comments_width == Some(5u16) && file_columns(
            width,
        ).path_width == width - 22,
        width < 30 ==> file_columns(width).comments_width is None && file_columns(width).path_width
            == width - 16,
{
}

/// The heads of the lists name their columns; that of the files says how many
/// there are where there is room.
pub proof fn lists_name_their_columns(
    d: PrDetailResponse,
    filter: Seq<char>,
    shown: usize,
    total: usize,
    width: u16,
)
    requires
        width >= 80,
    ensures
        ({
            let head = crate::views::inbox::inbox_header(filter, shown, total, columns(width));
            let files = crate::views::files::files_header(d, file_columns(width), width as int);
            let n = head.len() as int;
            &&& n >= 7
            &&& shows(head[n - 5].text, "AUTHOR"@)
            &&& shows(head[n - 3].text, "NEXT"@)
            &&& shows(head[n - 1].text, "AGE"@)
            &&& filter.len() > 0 && chip_text(filter, shown, total).len() < 11 + columns(
                width,
            ).title_width ==> head[1].text == chip_text(filter, shown, total)
            &&& shows(files[3].text, "PATH"@)
            &&& shows(files[5].text, "✎"@)
            &&& shows(files[7].text, "+"@)
            &&& shows(files[9].text, "−"@)
            &&& files.len() == 12 ==> files[11].text == crate::theme::ICON_FILES@ + " FILES  "@
                + decimal(d.files@.len())
        }),
{
    reveal_strlit("AUTHOR");
    reveal_strlit("NEXT");
    reveal_strlit("AGE");
    reveal_strlit("PATH");
    reveal_strlit("✎");
    reveal_strlit("+");
    reveal_strlit("−");
    columns_share_the_body(width);
    lemma_shows("AUTHOR"@, 10);
    lemma_shows("NEXT"@, 16);
    lemma_shows("AGE"@, 4);
    lemma_shows("PATH"@, file_columns(width).path_width as int);
    lemma_shows("✎"@, 5);
    lemma_shows("+"@, 5);
    lemma_shows("−"@, 5);
}

/// A pull request without a summary is said to have none yet, and without a
/// selection that is said.
pub proof fn strip_says_what_is_missing(pr: PrSummary, width: int, now: Moment)
    requires
        width > 2,
        text_columns("— no summary yet"@) <= width - 2,
        pr.llm_one_line is None || trimmed(pr.llm_one_line->0@).len() == 0,
    ensures
        row_text(strip_rows(Some(pr), width, now)[0]) == " "@ + "— no summary yet"@,
        row_text(strip_rows(None, width, now)[0]) == " — no PR selected"@,
{
    crate::markdown::lemma_row_text_one(
        " "@ + "— no summary yet"@,
        crate::draw::fg(crate::theme::TEXT).bg(crate::theme::BASE),
    );
    crate::markdown::lemma_row_text_one(
        " — no PR selected"@,
        crate::draw::fg(MUTED).bg(crate::theme::BASE),
    );
}

} // verus!
