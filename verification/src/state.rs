//! What is shown: the active blade, cursors, scroll offsets, and how they are
//! brought in line with the data before each frame.
use std::collections::HashSet;
use vstd::prelude::*;

use crate::cache::{activity_view, ActivityEvent, ActivityView};
use crate::draw::{
    append_lines, bg, copy_lines, fg, less, lines_view, max, min, new_lines, no_lines, push_line, row,
    row_text, sp, spans_view, Line, Span, SpanView, Style,
};
use crate::api::{DiffResponse, PrGroups};
use crate::app::{App, AppState};
use crate::config::copy_opt;
use crate::inbox_rows::{
    build_inbox_rows, cursor_at, cursor_of_row, find_row, inbox_rows, lemma_cursor_is_stable, pr_at,
    resolved_row,
    rows_view, selected_pr_for_row, CursorView, InboxCursor, InboxRow, RowView, SectionFolds,
};
use crate::layout::{BladeAreas, ViewLayout};
use crate::markdown::opt_text;
use crate::scroll::{OverviewFocus, ScrollState};
use crate::text::{chars_of, decimal, decimal_string, joined3, repeat_char, repeated};
use crate::theme::{Blade, ACTIVITY, MUTED, SURFACE0};
use crate::views::inbox::inbox_preview_rows;
use crate::views::overview::{
    effective_summary_len, is_summary_loading, overview_section_layout, overview_sections,
    rows_of_section, summary_len, summary_loading, OVERVIEW_CHROME_ROWS,
};
use crate::wizard::same_opt;

verus! {

broadcast use vstd::std_specs::hash::group_hash_axioms;

/// All transient view state.
#[derive(Debug)]
pub struct ViewState {
    pub active_blade: Blade,
    /// Cursor position in `inbox_rows` (row space, so it includes header
    /// rows). Derived every frame from `inbox_cursor`.
    pub selected_row: usize,
    pub selected_file_index: usize,
    pub overview_focus: OverviewFocus,
    pub overview_description_expanded: bool,
    /// Fold state by section.
    pub collapsed_sections: SectionFolds,
    /// Authoritative Inbox cursor identity; `selected_row` is its place.
    pub inbox_cursor: InboxCursor,
    pub inbox_scroll: ScrollState,
    pub overview_summary_scroll: ScrollState,
    pub overview_description_scroll: ScrollState,
    pub overview_problems_scroll: ScrollState,
    pub overview_last_activity_scroll: ScrollState,
    pub activity_scroll: ScrollState,
    pub files_scroll: ScrollState,
    pub diff_scroll: ScrollState,
    /// Rendered Inbox rows in display order, the single source of truth for
    /// Inbox grouping and order.
    pub inbox_rows: Vec<InboxRow>,
    /// Selected event among the cached activity events.
    pub activity_selected: usize,
    /// Events currently expanded to their full body.
    pub activity_expanded: HashSet<usize>,
    /// The flattened Activity display rows for this frame.
    pub activity_display_lines: Vec<Line>,
    /// For each event, its header's place in `activity_display_lines`.
    pub activity_event_starts: Vec<usize>,
}

/// The transient view state over the characters of its texts.
#[verifier::ext_equal]
pub struct Pane {
    pub active_blade: Blade,
    pub selected_row: usize,
    pub selected_file_index: usize,
    pub overview_focus: OverviewFocus,
    pub overview_description_expanded: bool,
    pub folds: Seq<Option<bool>>,
    pub inbox_cursor: CursorView,
    pub inbox_scroll: ScrollState,
    pub overview_summary_scroll: ScrollState,
    pub overview_description_scroll: ScrollState,
    pub overview_problems_scroll: ScrollState,
    pub overview_last_activity_scroll: ScrollState,
    pub activity_scroll: ScrollState,
    pub files_scroll: ScrollState,
    pub diff_scroll: ScrollState,
    pub inbox_rows: Seq<RowView>,
    pub activity_selected: usize,
    pub activity_expanded: Set<usize>,
    pub activity_display_lines: Seq<Seq<SpanView>>,
    pub activity_event_starts: Seq<usize>,
}

impl View for ViewState {
    type V = Pane;

    open spec fn view(&self) -> Pane {
        Pane {
            active_blade: self.active_blade,
            selected_row: self.selected_row,
            selected_file_index: self.selected_file_index,
            overview_focus: self.overview_focus,
            overview_description_expanded: self.overview_description_expanded,
            folds: self.collapsed_sections.slots@,
            inbox_cursor: self.inbox_cursor@,
            inbox_scroll: self.inbox_scroll,
            overview_summary_scroll: self.overview_summary_scroll,
            overview_description_scroll: self.overview_description_scroll,
            overview_problems_scroll: self.overview_problems_scroll,
            overview_last_activity_scroll: self.overview_last_activity_scroll,
            activity_scroll: self.activity_scroll,
            files_scroll: self.files_scroll,
            diff_scroll: self.diff_scroll,
            inbox_rows: rows_view(self.inbox_rows@),
            activity_selected: self.activity_selected,
            activity_expanded: self.activity_expanded@,
            activity_display_lines: lines_view(self.activity_display_lines@),
            activity_event_starts: self.activity_event_starts@,
        }
    }
}

impl Pane {
    /// The view at the start: the Inbox, with a cursor that matches no row, so
    /// that the first frame falls back to the first pull request.
    pub open spec fn fresh() -> Pane {
        Pane {
            active_blade: Blade::Inbox,
            selected_row: 0,
            selected_file_index: 0,
            overview_focus: OverviewFocus::Description,
            overview_description_expanded: false,
            folds: Seq::new(9, |i: int| None),
            inbox_cursor: CursorView::Pr(Seq::empty()),
            inbox_scroll: ScrollState::at_rest(),
            overview_summary_scroll: ScrollState::at_rest(),
            overview_description_scroll: ScrollState::at_rest(),
            overview_problems_scroll: ScrollState::at_rest(),
            overview_last_activity_scroll: ScrollState::at_rest(),
            activity_scroll: ScrollState::at_rest(),
            files_scroll: ScrollState::at_rest(),
            diff_scroll: ScrollState::at_rest(),
            inbox_rows: Seq::empty(),
            activity_selected: 0,
            activity_expanded: Set::empty(),
            activity_display_lines: no_lines(),
            activity_event_starts: Seq::empty(),
        }
    }

    /// The scroll state of the active blade and focus.
    pub open spec fn active(self) -> ScrollState {
        match self.active_blade {
            Blade::Inbox => self.inbox_scroll,
            Blade::Overview => match self.overview_focus {
                OverviewFocus::Summary => self.overview_summary_scroll,
                OverviewFocus::Description => self.overview_description_scroll,
                OverviewFocus::Problems => self.overview_problems_scroll,
                OverviewFocus::LastActivity => self.overview_last_activity_scroll,
            },
            Blade::Activity => self.activity_scroll,
            Blade::Files => self.files_scroll,
            Blade::Diff => self.diff_scroll,
        }
    }

    /// The view with `s` as the scroll state of the active blade and focus.
    pub open spec fn with_active(self, s: ScrollState) -> Pane {
        match self.active_blade {
            Blade::Inbox => Pane { inbox_scroll: s, ..self },
            Blade::Overview => match self.overview_focus {
                OverviewFocus::Summary => Pane { overview_summary_scroll: s, ..self },
                OverviewFocus::Description => Pane { overview_description_scroll: s, ..self },
                OverviewFocus::Problems => Pane { overview_problems_scroll: s, ..self },
                OverviewFocus::LastActivity => Pane { overview_last_activity_scroll: s, ..self },
            },
            Blade::Activity => Pane { activity_scroll: s, ..self },
            Blade::Files => Pane { files_scroll: s, ..self },
            Blade::Diff => Pane { diff_scroll: s, ..self },
        }
    }

    /// Every pane is back at its top, with the first event selected and none
    /// expanded.
    pub open spec fn rewound(self) -> Pane {
        Pane {
            inbox_scroll: ScrollState { offset: 0, ..self.inbox_scroll },
            overview_summary_scroll: ScrollState { offset: 0, ..self.overview_summary_scroll },
            overview_description_scroll: ScrollState {
                offset: 0,
                ..self.overview_description_scroll
            },
            overview_problems_scroll: ScrollState { offset: 0, ..self.overview_problems_scroll },
            overview_last_activity_scroll: ScrollState {
                offset: 0,
                ..self.overview_last_activity_scroll
            },
            activity_scroll: ScrollState { offset: 0, ..self.activity_scroll },
            files_scroll: ScrollState { offset: 0, ..self.files_scroll },
            diff_scroll: ScrollState { offset: 0, ..self.diff_scroll },
            activity_selected: 0,
            activity_expanded: Set::empty(),
            ..self
        }
    }
}

impl Default for ViewState {
    fn default() -> (r: Self)
        ensures
            r@ == Pane::fresh(),
    {
        ViewState::new()
    }
}

impl ViewState {
    pub fn new() -> (r: Self)
        ensures
            r@ == Pane::fresh(),
    {
        let r = ViewState {
            active_blade: Blade::Inbox,
            selected_row: 0,
            selected_file_index: 0,
            overview_focus: OverviewFocus::Description,
            overview_description_expanded: false,
            collapsed_sections: SectionFolds::new(),
            inbox_cursor: InboxCursor::Pr(String::new()),
            inbox_scroll: ScrollState::new(),
            overview_summary_scroll: ScrollState::new(),
            overview_description_scroll: ScrollState::new(),
            overview_problems_scroll: ScrollState::new(),
            overview_last_activity_scroll: ScrollState::new(),
            activity_scroll: ScrollState::new(),
            files_scroll: ScrollState::new(),
            diff_scroll: ScrollState::new(),
            inbox_rows: Vec::new(),
            activity_selected: 0,
            activity_expanded: HashSet::new(),
            activity_display_lines: Vec::new(),
            activity_event_starts: Vec::new(),
        };
        proof {
            assert(r@.folds =~= Pane::fresh().folds);
            assert(r@ =~= Pane::fresh());
        }
        r
    }

    /// Borrow the scroll state for the currently active blade and focus.
    pub fn active_scroll(&self) -> (r: &ScrollState)
        ensures
            *r == self@.active(),
    {
        match self.active_blade {
            Blade::Inbox => &self.inbox_scroll,
            Blade::Overview => match self.overview_focus {
                OverviewFocus::Summary => &self.overview_summary_scroll,
                OverviewFocus::Description => &self.overview_description_scroll,
                OverviewFocus::Problems => &self.overview_problems_scroll,
                OverviewFocus::LastActivity => &self.overview_last_activity_scroll,
            },
            Blade::Activity => &self.activity_scroll,
            Blade::Files => &self.files_scroll,
            Blade::Diff => &self.diff_scroll,
        }
    }

    /// Mutable borrow of the scroll state for the currently active blade and
    /// focus.
    pub fn active_scroll_mut(&mut self) -> (r: &mut ScrollState)
        ensures
            *r == old(self)@.active(),
            final(self)@ == old(self)@.with_active(*final(r)),
    {
        match self.active_blade {
            Blade::Inbox => &mut self.inbox_scroll,
            Blade::Overview => match self.overview_focus {
                OverviewFocus::Summary => &mut self.overview_summary_scroll,
                OverviewFocus::Description => &mut self.overview_description_scroll,
                OverviewFocus::Problems => &mut self.overview_problems_scroll,
                OverviewFocus::LastActivity => &mut self.overview_last_activity_scroll,
            },
            Blade::Activity => &mut self.activity_scroll,
            Blade::Files => &mut self.files_scroll,
            Blade::Diff => &mut self.diff_scroll,
        }
    }

    pub fn reset_scroll_offsets(&mut self)
        ensures
            final(self)@ == old(self)@.rewound(),
    {
        self.inbox_scroll.offset = 0;
        self.overview_summary_scroll.offset = 0;
        self.overview_description_scroll.offset = 0;
        self.overview_problems_scroll.offset = 0;
        self.overview_last_activity_scroll.offset = 0;
        self.activity_scroll.offset = 0;
        self.files_scroll.offset = 0;
        self.diff_scroll.offset = 0;
        self.activity_selected = 0;
        self.activity_expanded.clear();
    }
}

/// How many body rows a collapsed event shows before the expand marker.
pub const ACTIVITY_COLLAPSED_BODY_LINES: usize = 4;

/// The header row of an event. The selected one gets the bar and a highlighted
/// background across every span, filled to the full width; the others get a
/// blank in the bar's place and keep their styling.
pub open spec fn activity_header(e: ActivityView, selected: bool, width: int) -> Seq<SpanView> {
    if !selected {
        row(" "@, Style::plain()) + e.header
    } else {
        let lit = row("▌"@, fg(ACTIVITY).bg(SURFACE0)) + e.header.map_values(
            |s: SpanView| sp(s.text, s.style.bg(SURFACE0)),
        );
        let used = row_text(lit).len();
        if used < width {
            lit.push(sp(repeated(' ', (width - used) as nat), bg(SURFACE0)))
        } else {
            lit
        }
    }
}

/// What tells how many rows of a collapsed event are hidden.
pub open spec fn hidden_marker(hidden: nat) -> Seq<SpanView> {
    row(
        "   … (+"@ + decimal(hidden) + if hidden == 1 {
            " more line) — ⏎ expand"@
        } else {
            " more lines) — ⏎ expand"@
        },
        fg(MUTED),
    )
}

/// The rows of one event.
pub open spec fn event_rows(e: ActivityView, selected: bool, expanded: bool, width: int) -> Seq<
    Seq<SpanView>,
> {
    let head = no_lines().push(activity_header(e, selected, width));
    if expanded {
        head + e.body
    } else if e.body.len() <= ACTIVITY_COLLAPSED_BODY_LINES {
        head + e.body
    } else {
        (head + e.body.take(ACTIVITY_COLLAPSED_BODY_LINES as int)).push(
            hidden_marker((e.body.len() - ACTIVITY_COLLAPSED_BODY_LINES) as nat),
        )
    }
}

/// The rows of the first `n` events.
pub open spec fn flat_events(
    events: Seq<ActivityView>,
    expanded: Set<usize>,
    selected: usize,
    width: int,
    n: int,
) -> Seq<Seq<SpanView>>
    decreases n,
{
    if n <= 0 {
        no_lines()
    } else {
        flat_events(events, expanded, selected, width, n - 1) + event_rows(
            events[n - 1],
            n - 1 == selected,
            expanded.contains((n - 1) as usize),
            width,
        )
    }
}

/// For each event, the row of its header.
pub open spec fn event_starts(
    events: Seq<ActivityView>,
    expanded: Set<usize>,
    selected: usize,
    width: int,
) -> Seq<usize> {
    Seq::new(
        events.len(),
        |i: int| flat_events(events, expanded, selected, width, i).len() as usize,
    )
}

/// The number of characters in a row, or the greatest number where there are
/// more.
pub fn line_len(line: &Line) -> (r: usize)
    ensures
        r == min(row_text(line@).len() as int, usize::MAX as int),
{
    let mut total: usize = 0;
    let mut i: usize = 0;
    while i < line.spans.len()
        invariant
            i <= line.spans@.len(),
            total == min(row_text(line@.take(i as int)).len() as int, usize::MAX as int),
        decreases line.spans@.len() - i,
    {
        proof {
            assert(line@.take(i + 1).drop_last() =~= line@.take(i as int));
            assert(line@.take(i + 1).last() == line.spans@[i as int]@);
        }
        total = total.saturating_add(chars_of(line.spans[i].content.as_str()).len());
        i += 1;
    }
    proof {
        assert(line@.take(line@.len() as int) =~= line@);
    }
    total
}

/// Fills a row with blanks up to `width` characters.
pub fn fill_line(line: &mut Line, width: u16, style: Style)
    ensures
        final(line)@ == filled(old(line)@, width as int, style),
{
    let used: usize = line_len(line);
    if used < width as usize {
        line.push(repeat_char(' ', width as usize - used).as_str(), style);
    }
}

/// A row filled with blanks up to `width` characters.
pub open spec fn filled(line: Seq<SpanView>, width: int, style: Style) -> Seq<SpanView> {
    let used = row_text(line).len();
    if used < width {
        line.push(sp(repeated(' ', (width - used) as nat), style))
    } else {
        line
    }
}

/// A row that is filled reaches the full width; one that is longer already
/// stays as it is.
pub proof fn filled_row_reaches_width(line: Seq<SpanView>, width: int, style: Style)
    ensures
        row_text(filled(line, width, style)).len() == max(row_text(line).len() as int, width),
        row_text(line).len() >= width ==> filled(line, width, style) == line,
{
    let used = row_text(line).len();
    if used < width {
        let pad = sp(repeated(' ', (width - used) as nat), style);
        assert(line.push(pad).drop_last() =~= line);
    }
}

/// The selected event's header shows the bar and the selection's background
/// across the whole width; the others keep a blank in the bar's place and their
/// own styling.
pub proof fn selected_event_is_highlighted(e: ActivityView, width: int)
    ensures
        ({
            let lit = activity_header(e, true, width);
            &&& lit[0].text == "▌"@
            &&& row_text(lit).len() >= width
            &&& forall|k: int| 0 <= k < lit.len() ==> (#[trigger] lit[k]).style.bg == Some(SURFACE0)
        }),
        ({
            let plain = activity_header(e, false, width);
            &&& plain[0] == sp(" "@, Style::plain())
            &&& plain.skip(1) =~= e.header
        }),
{
    let lit = row("▌"@, fg(ACTIVITY).bg(SURFACE0)) + e.header.map_values(
        |s: SpanView| sp(s.text, s.style.bg(SURFACE0)),
    );
    filled_row_reaches_width(lit, width, bg(SURFACE0));
    assert(activity_header(e, true, width) == filled(lit, width, bg(SURFACE0)));
    assert forall|k: int| 0 <= k < lit.len() implies (#[trigger] lit[k]).style.bg == Some(
        SURFACE0,
    ) by {
        if k > 0 {
            assert(lit[k] == sp(e.header[k - 1].text, e.header[k - 1].style.bg(SURFACE0)));
        }
    }
}

fn activity_header_line(event: &ActivityEvent, selected: bool, width: u16) -> (r: Line)
    ensures
        r@ == activity_header(event@, selected, width as int),
{
    let ghost tail = if selected {
        event@.header.map_values(|s: SpanView| sp(s.text, s.style.bg(SURFACE0)))
    } else {
        event@.header
    };
    let mut line = if selected {
        Line::styled("▌", fg(ACTIVITY).bg(SURFACE0))
    } else {
        Line::styled(" ", Style::plain())
    };
    let ghost head = line@;
    let mut i: usize = 0;
    proof {
        assert(line@ =~= head + tail.take(0));
    }
    while i < event.header_spans.len()
        invariant
            i <= event.header_spans@.len(),
            tail == if selected {
                event@.header.map_values(|s: SpanView| sp(s.text, s.style.bg(SURFACE0)))
            } else {
                event@.header
            },
            line@ == head + tail.take(i as int),
        decreases event.header_spans@.len() - i,
    {
        let span = &event.header_spans[i];
        proof {
            assert(event@.header[i as int] == span@);
        }
        if selected {
            line.push(span.content.as_str(), span.style.bg(SURFACE0));
        } else {
            line.push(span.content.as_str(), span.style);
        }
        i += 1;
        proof {
            assert(line@ =~= head + tail.take(i as int));
        }
    }
    proof {
        assert(tail.take(tail.len() as int) =~= tail);
    }
    if selected {
        fill_line(&mut line, width, bg(SURFACE0));
    }
    line
}

/// Flatten the cached activity events into display rows, applying selection
/// styling and collapse state. Returns the rows plus, for each event, the
/// place of its header row (so selection can be kept visible).
///
/// Collapsed events show their first body rows plus a marker that counts the
/// hidden ones; expanded events show everything.
pub fn flatten_activity_events(
    events: &Vec<ActivityEvent>,
    expanded: &HashSet<usize>,
    selected: usize,
    width: u16,
) -> (r: (Vec<Line>, Vec<usize>))
    ensures
        lines_view(r.0@) == flat_events(
            activity_view(events@),
            expanded@,
            selected,
            width as int,
            events@.len() as int,
        ),
        r.1@ == event_starts(activity_view(events@), expanded@, selected, width as int),
        r.1@.len() == events@.len(),
{
    let ghost all = activity_view(events@);
    let mut lines = new_lines();
    let mut starts: Vec<usize> = Vec::new();
    let mut i: usize = 0;
    while i < events.len()
        invariant
            i <= events@.len(),
            all == activity_view(events@),
            lines_view(lines@) == flat_events(all, expanded@, selected, width as int, i as int),
            starts@.len() == i,
            forall|j: int|
                0 <= j < i ==> #[trigger] starts@[j] == flat_events(
                    all,
                    expanded@,
                    selected,
                    width as int,
                    j,
                ).len() as usize,
        decreases events@.len() - i,
    {
        let event = &events[i];
        let ghost start = lines_view(lines@);
        proof {
            assert(start.len() == lines@.len());
            assert(all[i as int] == event@);
            assert(event@.body.len() == event.body@.len());
        }
        starts.push(lines.len());
        push_line(&mut lines, activity_header_line(event, i == selected, width));
        let total: usize = event.body.len();
        let is_expanded = expanded.contains(&i);
        if is_expanded || total <= ACTIVITY_COLLAPSED_BODY_LINES {
            append_lines(&mut lines, copy_lines(&event.body, 0, total));
            proof {
                assert(event@.body.subrange(0, total as int) =~= event@.body);
            }
        } else {
            append_lines(
                &mut lines,
                copy_lines(&event.body, 0, ACTIVITY_COLLAPSED_BODY_LINES),
            );
            proof {
                assert(event@.body.subrange(0, ACTIVITY_COLLAPSED_BODY_LINES as int)
                    =~= event@.body.take(ACTIVITY_COLLAPSED_BODY_LINES as int));
            }
            let hidden: usize = total - ACTIVITY_COLLAPSED_BODY_LINES;
            let tail = if hidden == 1 {
                " more line) — ⏎ expand"
            } else {
                " more lines) — ⏎ expand"
            };
            push_line(
                &mut lines,
                Line::styled(
                    joined3("   … (+", decimal_string(hidden as u64).as_str(), tail).as_str(),
                    fg(MUTED),
                ),
            );
        }
        proof {
            assert(lines_view(lines@) =~= start + event_rows(
                event@,
                i == selected,
                expanded@.contains(i),
                width as int,
            ));
        }
        i += 1;
    }
    proof {
        assert(starts@ =~= event_starts(all, expanded@, selected, width as int));
    }
    (lines, starts)
}

/// The header of each event is shown at its start, whatever is expanded.
pub proof fn event_starts_point_at_headers(
    events: Seq<ActivityView>,
    expanded: Set<usize>,
    selected: usize,
    width: int,
    n: int,
    i: int,
)
    requires
        0 <= i < n <= events.len(),
    ensures
        flat_events(events, expanded, selected, width, i).len() < flat_events(
            events,
            expanded,
            selected,
            width,
            n,
        ).len(),
        flat_events(events, expanded, selected, width, n)[flat_events(
            events,
            expanded,
            selected,
            width,
            i,
        ).len() as int] == activity_header(events[i], i == selected, width),
    decreases n,
{
    if i < n - 1 {
        event_starts_point_at_headers(events, expanded, selected, width, n - 1, i);
    }
}

/// Owns `ViewState` and reconciles it with domain state before each render.
#[derive(Debug)]
pub struct ViewStateManager {
    pub view: ViewState,
    /// The selection last seen by `prepare`, used to tell a genuine change of
    /// selection from the same pull request moving to a new place.
    pub last_selected_pr_id: Option<String>,
}

#[verifier::ext_equal]
pub struct Manager {
    pub view: Pane,
    pub last: Option<Seq<char>>,
}

impl View for ViewStateManager {
    type V = Manager;

    open spec fn view(&self) -> Manager {
        Manager { view: self.view@, last: opt_text(self.last_selected_pr_id) }
    }
}

/// The rows of the Inbox, the row that the cursor finds, and what it names
/// there.
#[verifier::opaque]
pub open spec fn located(
    folds: Seq<Option<bool>>,
    cursor: CursorView,
    groups: PrGroups,
    filter: Seq<char>,
) -> (Seq<RowView>, usize, CursorView) {
    let rows = inbox_rows(groups, folds, filter);
    let at = resolved_row(rows, cursor);
    (rows, at as usize, cursor_at(rows, at, cursor))
}

/// The rows are rebuilt and the cursor finds its row again.
pub open spec fn relocated(p: Pane, a: App) -> Pane {
    let (rows, at, cursor) = located(p.folds, p.inbox_cursor, a.prs.groups, a.search_filter);
    Pane { inbox_rows: rows, selected_row: at, inbox_cursor: cursor, ..p }
}

/// Another pull request is selected: what was loaded is dropped and asked for
/// anew.
pub open spec fn unloaded(a: App) -> App {
    App {
        detail_needs_reload: true,
        diff_needs_reload: true,
        pr_detail: None,
        pr_diff: None,
        ..a
    }
}

/// The rows are rebuilt, the cursor finds its row again, and the selection
/// follows it. Where the selection is another one than before, detail and diff
/// are dropped and asked for anew, and every pane goes back to its top.
#[verifier::opaque]
pub open spec fn reselected(m: Manager, a: App) -> (Manager, App) {
    let pane = relocated(m.view, a);
    let selected = pr_at(pane.inbox_rows, pane.selected_row as int);
    let app = App { selected_pr_id: selected, ..a };
    if selected == m.last {
        (Manager { view: pane, ..m }, app)
    } else {
        (
            Manager { view: Pane { selected_file_index: 0, ..pane }.rewound(), last: selected },
            unloaded(app),
        )
    }
}

/// The text of a loaded diff.
pub open spec fn diff_text(diff: Option<DiffResponse>) -> Option<Seq<char>> {
    match diff {
        Some(d) => Some(d.diff@),
        None => None,
    }
}

/// The caches are brought up to date.
#[verifier::opaque]
pub open spec fn recached(a: App, areas: BladeAreas) -> App {
    App {
        render_cache: a.render_cache.with_activity(
            a.pr_detail,
            areas.activity.width,
        ).with_overview(a.pr_detail, areas.overview.width).with_diff(
            a.pr_detail,
            diff_text(a.pr_diff),
            areas.diff.width,
            a.show_line_numbers,
        ),
        ..a
    }
}

/// How many files the loaded detail has.
pub open spec fn file_count(a: App) -> int {
    match a.pr_detail {
        Some(d) => d.files@.len() as int,
        None => 0,
    }
}

/// Rows of the Inbox list: the blade without its column header and preview.
pub open spec fn inbox_viewport(height: u16) -> int {
    let body = less(height as int, 1) as u16;
    less(body as int, inbox_preview_rows(body) as int)
}

/// The Inbox and file lists fit their content and viewports, with the selected
/// row in view.
#[verifier::opaque]
pub open spec fn lists_fitted(p: Pane, a: App, areas: BladeAreas) -> Pane {
    let inbox = p.inbox_scroll.resized(
        p.inbox_rows.len() as usize,
        inbox_viewport(areas.inbox.height) as usize,
    );
    let files = p.files_scroll.resized(
        file_count(a) as usize,
        less(areas.files.height as int, 1) as usize,
    );
    Pane {
        inbox_scroll: if p.inbox_rows.len() > 0 {
            inbox.showing(p.selected_row)
        } else {
            inbox
        },
        files_scroll: if file_count(a) > 0 {
            files.showing(min(p.selected_file_index as int, file_count(a) - 1) as usize)
        } else {
            files
        },
        ..p
    }
}

/// The Activity rows are laid out, with selection and expansion restricted to
/// the events there are and the selected event's header in view.
#[verifier::opaque]
pub open spec fn activity_fitted(p: Pane, a: App, areas: BladeAreas) -> Pane {
    let events = a.render_cache.activity_events;
    let area = areas.activity;
    let selected = if events.len() == 0 {
        0usize
    } else {
        min(p.activity_selected as int, events.len() - 1) as usize
    };
    let expanded = p.activity_expanded.filter(|i: usize| i < events.len());
    let rows = flat_events(events, expanded, selected, area.width as int, events.len() as int);
    let starts = event_starts(events, expanded, selected, area.width as int);
    let scroll = p.activity_scroll.resized(rows.len() as usize, area.height as usize);
    Pane {
        activity_selected: selected,
        activity_expanded: expanded,
        activity_display_lines: rows,
        activity_event_starts: starts,
        activity_scroll: if events.len() > 0 {
            scroll.showing(starts[selected as int])
        } else {
            scroll
        },
        ..p
    }
}

/// The diff and the Overview sections fit their content and viewports; a focus
/// on a section that is gone falls back to the description.
#[verifier::opaque]
pub open spec fn panes_fitted(p: Pane, a: App, areas: BladeAreas) -> Pane {
    let cache = a.render_cache;
    let summary = summary_len(cache.overview_summary.len() as int, is_summary_loading(a));
    let problems = cache.overview_problems.len() as int;
    let lost = (p.overview_focus == OverviewFocus::Summary && summary <= 0) || (p.overview_focus
        == OverviewFocus::Problems && problems <= 0);
    let body = less(
        areas.overview.height as int,
        OVERVIEW_CHROME_ROWS as int,
    );
    let sections = overview_sections(body as u16, summary, problems);
    Pane {
        diff_scroll: p.diff_scroll.resized(
            cache.diff_lines.len() as usize,
            less(areas.diff.height as int, 1) as usize,
        ),
        overview_focus: if lost {
            OverviewFocus::Description
        } else {
            p.overview_focus
        },
        overview_summary_scroll: p.overview_summary_scroll.resized(
            cache.overview_summary.len() as usize,
            less(rows_of_section(sections.summary), 1) as usize,
        ),
        overview_description_scroll: p.overview_description_scroll.resized(
            cache.overview_description.len() as usize,
            less(sections.description as int, 1) as usize,
        ),
        overview_problems_scroll: p.overview_problems_scroll.resized(
            problems as usize,
            less(rows_of_section(sections.problems), 1) as usize,
        ),
        overview_last_activity_scroll: p.overview_last_activity_scroll.resized(
            1,
            sections.last_activity as usize,
        ),
        ..p
    }
}

/// View and application, made ready for a frame.
pub open spec fn prepared(m: Manager, a: App, areas: BladeAreas) -> (Manager, App) {
    let (m1, a1) = reselected(m, a);
    let a2 = recached(a1, areas);
    let pane = panes_fitted(
        activity_fitted(lists_fitted(m1.view, a2, areas), a2, areas),
        a2,
        areas,
    );
    (Manager { view: pane, ..m1 }, a2)
}

/// A copy of the members of `set` below `n`.
fn members_below(set: &HashSet<usize>, n: usize) -> (r: HashSet<usize>)
    ensures
        r@ == set@.filter(|i: usize| i < n),
{
    let mut out: HashSet<usize> = HashSet::new();
    let mut i: usize = 0;
    proof {
        assert(out@ =~= set@.filter(|k: usize| k < 0));
    }
    while i < n
        invariant
            i <= n,
            out@ == set@.filter(|k: usize| k < i),
        decreases n - i,
    {
        if set.contains(&i) {
            out.insert(i);
        }
        proof {
            assert(out@ =~= set@.filter(|k: usize| k < i + 1));
        }
        i += 1;
        proof {
            assert(out@ =~= set@.filter(|k: usize| k < i));
        }
    }
    proof {
        assert(out@ =~= set@.filter(|k: usize| k < n));
    }
    out
}

fn relocate(view: &mut ViewState, app: &AppState)
    ensures
        final(view)@ == relocated(old(view)@, app@),
{
    proof {
        reveal(located);
        reveal(cursor_at);
    }
    view.inbox_rows = build_inbox_rows(
        &app.prs,
        &view.collapsed_sections,
        app.search_filter.as_str(),
    );
    let at: usize = find_row(&view.inbox_rows, &view.inbox_cursor);
    view.selected_row = at;
    if let Some(cursor) = cursor_of_row(&view.inbox_rows, at) {
        proof {
            assert(cursor@ == cursor_at(view@.inbox_rows, at as int, old(view)@.inbox_cursor));
        }
        view.inbox_cursor = cursor;
    }
}

fn unload(app: &mut AppState)
    ensures
        final(app)@ == unloaded(old(app)@),
{
    app.detail_needs_reload = true;
    app.diff_needs_reload = true;
    app.pr_detail = None;
    app.pr_diff = None;
}

fn rebuild_caches(app: &mut AppState, layout: &ViewLayout)
    ensures
        final(app)@ == recached(old(app)@, layout.areas()),
{
    proof {
        reveal(recached);
    }
    let ghost detail = app.pr_detail;
    app.render_cache.rebuild_activity(
        app.pr_detail.as_ref(),
        layout.blade(Blade::Activity).content.width,
    );
    app.render_cache.rebuild_overview(
        app.pr_detail.as_ref(),
        layout.blade(Blade::Overview).content.width,
    );
    let text = match &app.pr_diff {
        Some(d) => Some(d.diff.as_str()),
        None => None,
    };
    app.render_cache.rebuild_diff(
        app.pr_detail.as_ref(),
        text,
        layout.blade(Blade::Diff).content.width,
        app.show_line_numbers,
    );
}

impl Default for ViewStateManager {
    fn default() -> (r: Self)
        ensures
            r@ == (Manager { view: Pane::fresh(), last: None }),
    {
        ViewStateManager::new()
    }
}

impl ViewStateManager {
    pub fn new() -> (r: Self)
        ensures
            r@ == (Manager { view: Pane::fresh(), last: None }),
    {
        ViewStateManager { view: ViewState::new(), last_selected_pr_id: None }
    }

    fn reselect(&mut self, app: &mut AppState)
        ensures
            (final(self)@, final(app)@) == reselected(old(self)@, old(app)@),
    {
        proof {
            reveal(reselected);
        }
        self.follow_cursor(app);
        if !same_opt(&app.selected_pr_id, &self.last_selected_pr_id) {
            self.start_over(app);
        }
    }

    fn follow_cursor(&mut self, app: &mut AppState)
        ensures
            final(self)@ == (Manager {
                view: relocated(old(self)@.view, old(app)@),
                ..old(self)@
            }),
            final(app)@ == (App {
                selected_pr_id: pr_at(
                    final(self)@.view.inbox_rows,
                    final(self)@.view.selected_row as int,
                ),
                ..old(app)@
            }),
    {
        relocate(&mut self.view, app);
        app.selected_pr_id = selected_pr_for_row(&self.view.inbox_rows, self.view.selected_row);
    }

    fn start_over(&mut self, app: &mut AppState)
        ensures
            final(app)@ == unloaded(old(app)@),
            final(self)@ == (Manager {
                view: Pane { selected_file_index: 0, ..old(self)@.view }.rewound(),
                last: old(app)@.selected_pr_id,
            }),
    {
        self.last_selected_pr_id = copy_opt(&app.selected_pr_id);
        unload(app);
        self.view.selected_file_index = 0;
        self.view.reset_scroll_offsets();
    }

    fn fit_lists(&mut self, app: &AppState, layout: &ViewLayout)
        ensures
            final(self)@ == (Manager {
                view: lists_fitted(old(self)@.view, app@, layout.areas()),
                ..old(self)@
            }),
    {
        proof {
            reveal(lists_fitted);
        }
        let inbox_body: u16 = layout.blade(Blade::Inbox).content.height.saturating_sub(1);
        let rows: u16 = inbox_body.saturating_sub(inbox_preview_rows(inbox_body));
        self.view.inbox_scroll.set_content_viewport(self.view.inbox_rows.len(), rows as usize);
        let files: usize = match &app.pr_detail {
            Some(d) => d.files.len(),
            None => 0,
        };
        let viewport: u16 = layout.blade(Blade::Files).content.height.saturating_sub(1);
        self.view.files_scroll.set_content_viewport(files, viewport as usize);
        proof {
            assert(self.view@.inbox_rows.len() == self.view.inbox_rows@.len());
        }
        if self.view.inbox_rows.len() > 0 {
            self.view.inbox_scroll.keep_visible(self.view.selected_row);
        }
        if files > 0 {
            let last: usize = files - 1;
            self.view.files_scroll.keep_visible(
                if self.view.selected_file_index < last {
                    self.view.selected_file_index
                } else {
                    last
                },
            );
        }
    }

    fn fit_activity(&mut self, app: &AppState, layout: &ViewLayout)
        ensures
            final(self)@ == (Manager {
                view: activity_fitted(old(self)@.view, app@, layout.areas()),
                ..old(self)@
            }),
    {
        proof {
            reveal(activity_fitted);
        }
        let area = layout.blade(Blade::Activity).content;
        let count: usize = app.render_cache.activity_events.len();
        proof {
            assert(app@.render_cache.activity_events.len() == count);
        }
        if count == 0 {
            self.view.activity_selected = 0;
        } else if self.view.activity_selected > count - 1 {
            self.view.activity_selected = count - 1;
        }
        self.view.activity_expanded = members_below(&self.view.activity_expanded, count);
        let (lines, starts) = flatten_activity_events(
            &app.render_cache.activity_events,
            &self.view.activity_expanded,
            self.view.activity_selected,
            area.width,
        );
        self.view.activity_display_lines = lines;
        self.view.activity_event_starts = starts;
        proof {
            assert(self.view@.activity_display_lines.len()
                == self.view.activity_display_lines@.len());
            assert(self.view@.activity_expanded =~= old(self)@.view.activity_expanded.filter(
                |i: usize| i < app@.render_cache.activity_events.len(),
            ));
        }
        self.view.activity_scroll.set_content_viewport(
            self.view.activity_display_lines.len(),
            area.height as usize,
        );
        if count > 0 {
            let start: usize = self.view.activity_event_starts[self.view.activity_selected];
            self.view.activity_scroll.keep_visible(start);
        }
    }

    fn fit_panes(&mut self, app: &AppState, layout: &ViewLayout)
        ensures
            final(self)@ == (Manager {
                view: panes_fitted(old(self)@.view, app@, layout.areas()),
                ..old(self)@
            }),
    {
        proof {
            reveal(panes_fitted);
        }
        let viewport: u16 = layout.blade(Blade::Diff).content.height.saturating_sub(1);
        self.view.diff_scroll.set_content_viewport(
            app.render_cache.diff_lines.len(),
            viewport as usize,
        );
        let summary: usize = effective_summary_len(
            app.render_cache.overview_summary.len(),
            summary_loading(app),
        );
        let problems: usize = app.render_cache.overview_problems.len();
        if (self.view.overview_focus == OverviewFocus::Summary && summary == 0) || (
        self.view.overview_focus == OverviewFocus::Problems && problems == 0) {
            self.view.overview_focus = OverviewFocus::Description;
        }
        let body: u16 = layout.blade(Blade::Overview).content.height.saturating_sub(
            OVERVIEW_CHROME_ROWS,
        );
        let sections = overview_section_layout(body, summary, problems);
        let summary_rows: u16 = match sections.summary {
            Some(h) => h,
            None => 0,
        };
        let problem_rows: u16 = match sections.problems {
            Some(h) => h,
            None => 0,
        };
        self.view.overview_summary_scroll.set_content_viewport(
            app.render_cache.overview_summary.len(),
            summary_rows.saturating_sub(1) as usize,
        );
        self.view.overview_description_scroll.set_content_viewport(
            app.render_cache.overview_description.len(),
            sections.description.saturating_sub(1) as usize,
        );
        self.view.overview_problems_scroll.set_content_viewport(
            problems,
            problem_rows.saturating_sub(1) as usize,
        );
        self.view.overview_last_activity_scroll.set_content_viewport(
            1,
            sections.last_activity as usize,
        );
    }

    /// Recompute derived view state from `app`, clamp scroll offsets, and ask
    /// for detail and diff when the selected pull request changes.
    ///
    /// The cursor is an identity, not a row number: a data refresh that
    /// reorders or filters the list cannot move it onto a different item. If
    /// the item is gone, the cursor falls back to the first pull request. The
    /// selection follows the cursor, and only a genuine change of it reloads
    /// anything. Scroll offsets fit the rebuilt content and the blade
    /// geometry, with the selected row, file and event in view.
    pub fn prepare(&mut self, app: &mut AppState, layout: &ViewLayout)
        ensures
            (final(self)@, final(app)@) == prepared(old(self)@, old(app)@, layout.areas()),
    {
        self.reselect(app);
        rebuild_caches(app, layout);
        self.fit_lists(app, layout);
        self.fit_activity(app, layout);
        self.fit_panes(app, layout);
    }
}

/// As long as the cursor implies the same pull request, whatever has moved in
/// the list, nothing that was loaded is dropped or asked for again, and every
/// pane stays where it is.
pub proof fn same_selection_keeps_everything(m: Manager, a: App)
    requires
        ({
            let pane = relocated(m.view, a);
            pr_at(pane.inbox_rows, pane.selected_row as int) == m.last
        }),
    ensures
        reselected(m, a).1 == (App { selected_pr_id: m.last, ..a }),
        reselected(m, a).0.view == relocated(m.view, a),
        reselected(m, a).0.last == m.last,
{
    reveal(reselected);
}

/// A change of the selected pull request drops what was loaded, asks for it
/// anew, and takes every pane back to its top.
pub proof fn new_selection_starts_over(m: Manager, a: App)
    requires
        ({
            let pane = relocated(m.view, a);
            pr_at(pane.inbox_rows, pane.selected_row as int) != m.last
        }),
    ensures
        ({
            let (m1, a1) = reselected(m, a);
            &&& a1.detail_needs_reload && a1.diff_needs_reload
            &&& a1.pr_detail is None && a1.pr_diff is None
            &&& m1.last == a1.selected_pr_id
            &&& m1.view.selected_file_index == 0 && m1.view.activity_selected == 0
            &&& m1.view.diff_scroll.offset == 0 && m1.view.inbox_scroll.offset == 0
            &&& m1.view.files_scroll.offset == 0 && m1.view.activity_scroll.offset == 0
        }),
{
    reveal(reselected);
}

proof fn lemma_located_is_stable(
    folds: Seq<Option<bool>>,
    cursor: CursorView,
    groups: PrGroups,
    filter: Seq<char>,
)
    requires
        inbox_rows(groups, folds, filter).len() <= usize::MAX,
    ensures
        located(folds, located(folds, cursor, groups, filter).2, groups, filter) == located(
            folds,
            cursor,
            groups,
            filter,
        ),
{
    reveal(located);
    reveal(cursor_at);
    reveal(resolved_row);
    let rows = inbox_rows(groups, folds, filter);
    if rows.len() > 0 {
        lemma_cursor_is_stable(rows, cursor);
    }
}

proof fn lemma_reselected_parts(m: Manager, a: App)
    ensures
        ({
            let (m1, a1) = reselected(m, a);
            let pane = relocated(m.view, a);
            &&& m1.view.folds == m.view.folds
            &&& m1.view.inbox_cursor == pane.inbox_cursor
            &&& m1.view.inbox_rows == pane.inbox_rows
            &&& m1.view.selected_row == pane.selected_row
            &&& a1.prs == a.prs
            &&& a1.search_filter == a.search_filter
            &&& a1.selected_pr_id == m1.last
            &&& m1.last == pr_at(pane.inbox_rows, pane.selected_row as int)
        }),
{
    reveal(reselected);
}

/// Preparing the selection twice prepares it once: the cursor, its row and the
/// selection are stable until data, filter or folds change.
pub proof fn reselecting_is_idempotent(m: Manager, a: App)
    requires
        inbox_rows(a.prs.groups, m.view.folds, a.search_filter).len() <= usize::MAX,
    ensures
        reselected(reselected(m, a).0, reselected(m, a).1) == reselected(m, a),
{
    lemma_located_is_stable(m.view.folds, m.view.inbox_cursor, a.prs.groups, a.search_filter);
    lemma_reselected_parts(m, a);
    let (m1, a1) = reselected(m, a);
    assert(relocated(m1.view, a1) == m1.view);
    same_selection_keeps_everything(m1, a1);
}

proof fn lemma_lists_are_clamped(m: Manager, after: App, areas: BladeAreas)
    requires
        m.view.inbox_rows.len() <= usize::MAX,
        m.view.inbox_rows.len() > 0 ==> m.view.selected_row < m.view.inbox_rows.len(),
        file_count(after) <= usize::MAX,
    ensures
        ({
            let p = lists_fitted(m.view, after, areas);
            &&& p.inbox_scroll.offset <= p.inbox_scroll.limit()
            &&& p.files_scroll.offset <= p.files_scroll.limit()
        }),
{
    reveal(lists_fitted);
}

proof fn lemma_activity_is_clamped(p: Pane, a: App, areas: BladeAreas)
    requires
        activity_fitted(p, a, areas).activity_display_lines.len() <= usize::MAX,
        a.render_cache.activity_events.len() <= usize::MAX,
    ensures
        ({
            let q = activity_fitted(p, a, areas);
            q.activity_scroll.offset <= q.activity_scroll.limit()
        }),
{
    reveal(activity_fitted);
    let events = a.render_cache.activity_events;
    let q = activity_fitted(p, a, areas);
    if events.len() > 0 {
        event_starts_point_at_headers(
            events,
            q.activity_expanded,
            q.activity_selected,
            areas.activity.width as int,
            events.len() as int,
            q.activity_selected as int,
        );
    }
}

/// After a frame has been prepared, no list and no pane is scrolled past its
/// content. What is shown has no more rows than the machine can count.
pub proof fn prepared_panes_are_clamped(m: Manager, a: App, areas: BladeAreas)
    requires
        prepared(m, a, areas).0.view.inbox_rows.len() <= usize::MAX,
        prepared(m, a, areas).0.view.activity_display_lines.len() <= usize::MAX,
        prepared(m, a, areas).1.render_cache.activity_events.len() <= usize::MAX,
        file_count(prepared(m, a, areas).1) <= usize::MAX,
    ensures
        ({
            let p = prepared(m, a, areas).0.view;
            &&& p.inbox_scroll.offset <= p.inbox_scroll.limit()
            &&& p.files_scroll.offset <= p.files_scroll.limit()
            &&& p.activity_scroll.offset <= p.activity_scroll.limit()
            &&& p.diff_scroll.offset <= p.diff_scroll.limit()
            &&& p.overview_summary_scroll.offset <= p.overview_summary_scroll.limit()
            &&& p.overview_description_scroll.offset <= p.overview_description_scroll.limit()
            &&& p.overview_problems_scroll.offset <= p.overview_problems_scroll.limit()
            &&& p.overview_last_activity_scroll.offset <= p.overview_last_activity_scroll.limit()
        }),
{
    let (m1, a1) = reselected(m, a);
    let a2 = recached(a1, areas);
    let lists = lists_fitted(m1.view, a2, areas);
    let activity = activity_fitted(lists, a2, areas);
    let panes = panes_fitted(activity, a2, areas);
    assert(panes.inbox_scroll == lists.inbox_scroll && panes.files_scroll == lists.files_scroll
        && panes.activity_scroll == activity.activity_scroll && panes.inbox_rows
        == m1.view.inbox_rows && panes.activity_display_lines == activity.activity_display_lines) by {
        reveal(lists_fitted);
        reveal(activity_fitted);
        reveal(panes_fitted);
    }
    lemma_reselected_parts(m, a);
    assert(m1.view.inbox_rows.len() > 0 ==> m1.view.selected_row < m1.view.inbox_rows.len()) by {
        reveal(located);
        let rows = inbox_rows(a.prs.groups, m.view.folds, a.search_filter);
        if rows.len() > 0 {
            lemma_cursor_is_stable(rows, m.view.inbox_cursor);
        }
    }
    lemma_lists_are_clamped(m1, a2, areas);
    lemma_activity_is_clamped(lists, a2, areas);
    reveal(panes_fitted);
}

/// After a frame has been prepared, the selected row of the Inbox and the
/// selected file stand inside their viewports, where these have any rows.
pub proof fn prepared_lists_show_selection(m: Manager, a: App, areas: BladeAreas)
    ensures
        ({
            let (m1, a1) = prepared(m, a, areas);
            let p = m1.view;
            &&& p.inbox_rows.len() > 0 && p.inbox_scroll.viewport_height > 0
                ==> p.inbox_scroll.offset <= p.selected_row < p.inbox_scroll.offset
                + p.inbox_scroll.viewport_height
            &&& file_count(a1) > 0 && p.selected_file_index < file_count(a1)
                && p.files_scroll.viewport_height > 0 ==> p.files_scroll.offset
                <= p.selected_file_index < p.files_scroll.offset + p.files_scroll.viewport_height
        }),
{
    let (m1, a1) = reselected(m, a);
    let a2 = recached(a1, areas);
    let lists = lists_fitted(m1.view, a2, areas);
    assert(lists.inbox_rows == m1.view.inbox_rows && lists.selected_row == m1.view.selected_row
        && lists.selected_file_index == m1.view.selected_file_index) by {
        reveal(lists_fitted);
    }
    let activity = activity_fitted(lists, a2, areas);
    assert(activity.inbox_scroll == lists.inbox_scroll && activity.files_scroll
        == lists.files_scroll && activity.inbox_rows == lists.inbox_rows && activity.selected_row
        == lists.selected_row && activity.selected_file_index == lists.selected_file_index) by {
        reveal(activity_fitted);
    }
    let panes = panes_fitted(activity, a2, areas);
    assert(panes.inbox_scroll == activity.inbox_scroll && panes.files_scroll
        == activity.files_scroll && panes.inbox_rows == activity.inbox_rows && panes.selected_row
        == activity.selected_row && panes.selected_file_index == activity.selected_file_index) by {
        reveal(panes_fitted);
    }
    assert(lists.inbox_rows.len() > 0 && lists.inbox_scroll.viewport_height > 0
        ==> lists.inbox_scroll.offset <= lists.selected_row < lists.inbox_scroll.offset
        + lists.inbox_scroll.viewport_height) by {
        reveal(lists_fitted);
    }
    assert(file_count(a2) > 0 && lists.selected_file_index < file_count(a2)
        && lists.files_scroll.viewport_height > 0 ==> lists.files_scroll.offset
        <= lists.selected_file_index < lists.files_scroll.offset
        + lists.files_scroll.viewport_height) by {
        reveal(lists_fitted);
    }
}

} // verus!
