//! Selection: what follows the cursor, and how the panes fit a frame.
use vstd::prelude::*;

use crate::app::App;
use crate::inbox_rows::{cursor_at, inbox_rows};
use crate::layout::BladeAreas;
use crate::laws::keys::named;
use crate::scroll::{OverviewFocus, ScrollState};
use crate::state::{
    activity_fitted, activity_header, event_rows, flat_events, lists_fitted, located, panes_fitted,
    recached, relocated, reselected, Manager, Pane,
};

verus! {

/// After a frame is prepared the rows are those of the list as it is filtered
/// and folded, and the cursor stands on a row and names it.
pub proof fn cursor_names_its_row(p: Pane, a: App)
    requires
        0 < inbox_rows(a.prs.groups, p.folds, a.search_filter).len() <= usize::MAX,
    ensures
        ({
            let q = relocated(p, a);
            &&& q.inbox_rows == inbox_rows(a.prs.groups, p.folds, a.search_filter)
            &&& q.selected_row < q.inbox_rows.len()
            &&& q.inbox_cursor == named(q.inbox_rows[q.selected_row as int])
        }),
{
    reveal(located);
    reveal(cursor_at);
    crate::inbox_rows::lemma_cursor_is_stable(
        inbox_rows(a.prs.groups, p.folds, a.search_filter),
        p.inbox_cursor,
    );
}

/// The cursor stays on what it names, wherever that has moved to.
pub proof fn cursor_stays_on_what_it_names(p: Pane, a: App, at: int)
    requires
        0 <= at < inbox_rows(a.prs.groups, p.folds, a.search_filter).len() <= usize::MAX,
        named(inbox_rows(a.prs.groups, p.folds, a.search_filter)[at]) == p.inbox_cursor,
    ensures
        relocated(p, a).inbox_cursor == p.inbox_cursor,
{
    reveal(located);
    crate::inbox_rows::cursor_follows_its_row(
        inbox_rows(a.prs.groups, p.folds, a.search_filter),
        p.inbox_cursor,
        at,
    );
}

/// The pull request that is selected is the one that the cursor stands on; on
/// a header it is the first below it.
pub proof fn selection_is_under_the_cursor(m: Manager, a: App)
    requires
        0 < inbox_rows(a.prs.groups, m.view.folds, a.search_filter).len() <= usize::MAX,
    ensures
        ({
            let (m1, a1) = reselected(m, a);
            let rows = m1.view.inbox_rows;
            let at = m1.view.selected_row as int;
            &&& rows[at] is Pr ==> a1.selected_pr_id == Some(rows[at]->id)
            &&& rows[at] is Header && at + 1 < rows.len() && rows[at + 1] is Pr
                ==> a1.selected_pr_id == Some(rows[at + 1]->id)
            &&& rows[at] is Header && (at + 1 == rows.len() || rows[at + 1] is Header)
                ==> a1.selected_pr_id is None
            &&& a1.prs == a.prs && a1.outbox == a.outbox && a1.error_message == a.error_message
        }),
{
    reveal(reselected);
    cursor_names_its_row(m.view, a);
    let q = relocated(m.view, a);
    crate::laws::keys::cursor_selects_its_pull_request(q.inbox_rows, q.selected_row as int);
}

/// Only what is cached changes where the caches are brought up to date.
pub proof fn caching_changes_nothing_else(a: App, areas: BladeAreas)
    ensures
        recached(a, areas) == (App { render_cache: recached(a, areas).render_cache, ..a }),
{
    reveal(recached);
}

/// The lists scroll just as far as brings the selected row into view, over as
/// many rows as there are.
pub proof fn lists_scroll_to_the_selection(p: Pane, a: App, areas: BladeAreas)
    requires
        0 < p.inbox_rows.len() <= usize::MAX,
        p.selected_row < p.inbox_rows.len(),
    ensures
        ({
            let q = lists_fitted(p, a, areas);
            let s = q.inbox_scroll;
            &&& s.content_height == p.inbox_rows.len()
            &&& s.viewport_height > 0 ==> s.offset <= p.selected_row < s.offset + s.viewport_height
            &&& s.viewport_height > 0 && p.inbox_scroll.offset <= p.selected_row
                < p.inbox_scroll.offset + s.viewport_height && p.inbox_scroll.offset
                + s.viewport_height <= p.inbox_rows.len() ==> s.offset == p.inbox_scroll.offset
            &&& q.selected_row == p.selected_row && q.inbox_cursor == p.inbox_cursor
        }),
{
    reveal(lists_fitted);
}

/// The Activity shows the events that are cached, with those expanded that the
/// user expanded; the selected one is one of them.
pub proof fn activity_shows_the_events(p: Pane, a: App, areas: BladeAreas)
    requires
        0 < a.render_cache.activity_events.len() <= usize::MAX,
    ensures
        ({
            let q = activity_fitted(p, a, areas);
            let events = a.render_cache.activity_events;
            &&& q.activity_selected < events.len()
            &&& p.activity_selected < events.len() ==> q.activity_selected == p.activity_selected
            &&& forall|i: usize|
                #![trigger q.activity_expanded.contains(i)]
                i < events.len() ==> (q.activity_expanded.contains(i)
                    <==> p.activity_expanded.contains(i))
            &&& q.activity_display_lines == flat_events(
                events,
                q.activity_expanded,
                q.activity_selected,
                areas.activity.width as int,
                events.len() as int,
            )
        }),
{
    reveal(activity_fitted);
}

/// The rows of an event follow those of the event before it.
pub proof fn events_stand_below_each_other(
    events: Seq<crate::cache::ActivityView>,
    expanded: Set<usize>,
    selected: usize,
    width: int,
    n: int,
)
    requires
        0 <= n < events.len() <= usize::MAX,
    ensures
        flat_events(events, expanded, selected, width, n + 1) == flat_events(
            events,
            expanded,
            selected,
            width,
            n,
        ) + event_rows(events[n], n == selected, expanded.contains(n as usize), width),
        flat_events(events, expanded, selected, width, 0).len() == 0,
{
}

/// The Overview's focus stays where its section is shown, and else goes to the
/// description; each section scrolls over its own rows.
pub proof fn focus_stays_on_a_shown_section(p: Pane, a: App, areas: BladeAreas)
    requires
        a.render_cache.overview_summary.len() <= usize::MAX,
        a.render_cache.overview_description.len() <= usize::MAX,
        a.render_cache.overview_problems.len() <= usize::MAX,
        a.render_cache.diff_lines.len() <= usize::MAX,
        !a.llm_detail_loading,
    ensures
        ({
            let q = panes_fitted(p, a, areas);
            let c = a.render_cache;
            &&& p.overview_focus == OverviewFocus::Summary && c.overview_summary.len() == 0
                ==> q.overview_focus == OverviewFocus::Description
            &&& p.overview_focus == OverviewFocus::Problems && c.overview_problems.len() == 0
                ==> q.overview_focus == OverviewFocus::Description
            &&& p.overview_focus == OverviewFocus::Summary && c.overview_summary.len() > 0
                ==> q.overview_focus == OverviewFocus::Summary
            &&& p.overview_focus == OverviewFocus::Problems && c.overview_problems.len() > 0
                ==> q.overview_focus == OverviewFocus::Problems
            &&& p.overview_focus == OverviewFocus::Description || p.overview_focus
                == OverviewFocus::LastActivity ==> q.overview_focus == p.overview_focus
            &&& q.overview_summary_scroll.content_height == c.overview_summary.len()
            &&& q.overview_description_scroll.content_height == c.overview_description.len()
            &&& q.overview_problems_scroll.content_height == c.overview_problems.len()
            &&& q.diff_scroll.content_height == c.diff_lines.len()
        }),
{
    reveal(panes_fitted);
}

/// A selected event is marked by a bar; its words are the same as when it is
/// not.
pub proof fn selection_marks_the_event(e: crate::cache::ActivityView, width: int)
    ensures
        activity_header(e, true, width)[0].text == "▌"@,
        activity_header(e, false, width)[0].text == " "@,
        forall|k: int|
            #![trigger e.header[k]]
            0 <= k < e.header.len() ==> activity_header(e, true, width)[k + 1].text
                == e.header[k].text && activity_header(e, false, width)[k + 1] == e.header[k],
{
}

/// Scrolling moves the offset by just as many rows, and stops at the first and
/// at the last one.
pub proof fn scrolling_is_exact(s: ScrollState, delta: int)
    ensures
        0 <= s.offset + delta <= s.limit() ==> s.moved(delta).offset == s.offset + delta,
        s.offset + delta < 0 ==> s.moved(delta).offset == 0,
        s.offset + delta > s.limit() ==> s.moved(delta).offset == s.limit(),
        s.moved(delta).content_height == s.content_height,
        s.moved(delta).viewport_height == s.viewport_height,
        s.content_height >= s.viewport_height ==> s.limit() == s.content_height
            - s.viewport_height,
        s.content_height < s.viewport_height ==> s.limit() == 0,
{
}

} // verus!
