//! Moving around: cursors, files, blades and scrolling, and the key bindings.
use vstd::prelude::*;

use crate::app::{wizard_view, App, AppState};
use crate::draw::{less, max, min};
use crate::inbox_rows::{
    cursor_at, cursor_of_row, render_order_is_complete, rows_view, section_folded, CursorView,
    InboxCursor, InboxRow, InboxSection, RowView,
};
use crate::keys::{Action, KeyCode, KeyEvent};
use crate::scroll::{focus_cycled, OverviewFocus, ScrollState};
use crate::state::{file_count, Manager, Pane, ViewState, ViewStateManager};
use crate::theme::Blade;
use crate::views::diff::starts_upto;
use crate::views::overview::{effective_summary_len, is_summary_loading, summary_len, summary_loading};
use crate::wizard::{
    goes_down, goes_up, handle_wizard_key, is_down, is_letter, is_up, keys_never_restart_fetches,
    letter, type_into, typed, SetupWizardState, Wizard,
};

verus! {

/// Application, view, and the selection last seen.
#[verifier::ext_equal]
pub struct Ui {
    pub app: App,
    pub pane: Pane,
    pub last: Option<Seq<char>>,
}

pub open spec fn ui(app: App, m: Manager) -> Ui {
    Ui { app, pane: m.view, last: m.last }
}

/// `n` moved by `delta` and kept between zero and `last`.
pub open spec fn shifted(n: int, delta: int, last: int) -> int {
    max(min(n + delta, last), 0)
}

fn shift(n: usize, forward: bool, amount: usize, last: usize) -> (r: usize)
    ensures
        r == shifted(
            n as int,
            if forward {
                amount as int
            } else {
                -(amount as int)
            },
            last as int,
        ),
{
    let moved: usize = if forward {
        n.saturating_add(amount)
    } else {
        n.saturating_sub(amount)
    };
    if moved < last {
        moved
    } else {
        last
    }
}

/// The size of a signed step.
fn magnitude(delta: i32) -> (r: usize)
    ensures
        r == if delta >= 0 {
            delta as int
        } else {
            -(delta as int)
        },
{
    if delta >= 0 {
        delta as usize
    } else {
        (-(delta as i64)) as usize
    }
}

/// The nearest header above `row`.
pub open spec fn header_above(rows: Seq<RowView>, row: int) -> Option<InboxSection>
    decreases row,
{
    if row <= 0 || row > rows.len() {
        None
    } else {
        match rows[row - 1] {
            RowView::Header { section, .. } => Some(section),
            RowView::Pr { .. } => header_above(rows, row - 1),
        }
    }
}

/// The section that the cursor is in.
pub open spec fn section_at(rows: Seq<RowView>, row: int) -> Option<InboxSection> {
    if 0 <= row < rows.len() {
        match rows[row] {
            RowView::Header { section, .. } => Some(section),
            RowView::Pr { .. } => header_above(rows, row),
        }
    } else {
        None
    }
}

/// The file whose part of the diff is shown at `offset`: the last that begins
/// at or above it.
pub open spec fn file_at(boundaries: Seq<usize>, offset: usize) -> int {
    less(starts_upto(boundaries, offset, 0), 1)
}

impl Pane {
    pub open spec fn cursor_placed(self, row: usize) -> Pane {
        Pane {
            selected_row: row,
            inbox_cursor: cursor_at(self.inbox_rows, row as int, self.inbox_cursor),
            ..self
        }
    }

    pub open spec fn diff_moved(self, delta: int) -> Pane {
        Pane { diff_scroll: self.diff_scroll.moved(delta), ..self }
    }

    pub open spec fn diff_placed(self, pos: usize) -> Pane {
        Pane { diff_scroll: self.diff_scroll.placed(pos), ..self }
    }

    pub open spec fn file_set(self, i: usize) -> Pane {
        Pane { selected_file_index: i, ..self }
    }

    /// The selected file follows the diff's offset.
    pub open spec fn file_synced(self, boundaries: Seq<usize>) -> Pane {
        if boundaries.len() == 0 {
            self
        } else {
            self.file_set(file_at(boundaries, self.diff_scroll.offset) as usize)
        }
    }

    /// The diff shows the selected file, where it has a part in the diff.
    pub open spec fn file_shown(self, boundaries: Seq<usize>) -> Pane {
        if self.selected_file_index < boundaries.len() {
            self.diff_placed(boundaries[self.selected_file_index as int])
        } else {
            self
        }
    }

    /// The diff moves on by `delta` files.
    pub open spec fn file_jumped(self, boundaries: Seq<usize>, delta: int) -> Pane {
        if boundaries.len() == 0 {
            self
        } else {
            let synced = self.file_synced(boundaries);
            let last = boundaries.len() - 1;
            let target = shifted(min(synced.selected_file_index as int, last), delta, last);
            synced.file_set(target as usize).diff_placed(boundaries[target])
        }
    }

    pub open spec fn scrolled(self, delta: int) -> Pane {
        self.with_active(self.active().moved(delta))
    }

    pub open spec fn scrolled_to(self, pos: usize) -> Pane {
        self.with_active(self.active().placed(pos))
    }

    pub open spec fn blade_set(self, blade: Blade) -> Pane {
        Pane { active_blade: blade, ..self }
    }

    /// A section is folded or unfolded, and the cursor rests on its header.
    pub open spec fn fold_toggled(self, section: InboxSection) -> Pane {
        Pane {
            folds: self.folds.update(
                section.slot() as int,
                Some(!section_folded(self.folds, section)),
            ),
            inbox_cursor: CursorView::Section(section),
            ..self
        }
    }
}

impl ViewState {
    fn place_cursor(&mut self, row: usize)
        ensures
            final(self)@ == old(self)@.cursor_placed(row),
    {
        proof {
            reveal(cursor_at);
        }
        self.selected_row = row;
        if let Some(cursor) = cursor_of_row(&self.inbox_rows, row) {
            proof {
                assert(cursor@ == cursor_at(
                    self@.inbox_rows,
                    row as int,
                    old(self)@.inbox_cursor,
                ));
            }
            self.inbox_cursor = cursor;
        }
    }

    fn move_diff(&mut self, delta: isize)
        ensures
            final(self)@ == old(self)@.diff_moved(delta as int),
    {
        self.diff_scroll.scroll_by(delta);
    }

    fn place_diff(&mut self, pos: usize)
        ensures
            final(self)@ == old(self)@.diff_placed(pos),
    {
        self.diff_scroll.scroll_to(pos);
    }

    fn set_file(&mut self, i: usize)
        ensures
            final(self)@ == old(self)@.file_set(i),
    {
        self.selected_file_index = i;
    }

    fn sync_file(&mut self, boundaries: &Vec<usize>)
        ensures
            final(self)@ == old(self)@.file_synced(boundaries@),
    {
        if boundaries.len() == 0 {
            return;
        }
        let mut n: usize = 0;
        let offset: usize = self.diff_scroll.offset;
        while n < boundaries.len() && boundaries[n] <= offset
            invariant
                n <= boundaries@.len(),
                starts_upto(boundaries@, offset, 0) == starts_upto(boundaries@, offset, n as int),
            decreases boundaries@.len() - n,
        {
            n += 1;
        }
        self.set_file(n.saturating_sub(1));
    }

    fn show_file(&mut self, boundaries: &Vec<usize>)
        ensures
            final(self)@ == old(self)@.file_shown(boundaries@),
    {
        let i: usize = self.selected_file_index;
        if i < boundaries.len() {
            self.place_diff(boundaries[i]);
        }
    }

    fn jump_file(&mut self, boundaries: &Vec<usize>, forward: bool, amount: usize)
        ensures
            final(self)@ == old(self)@.file_jumped(
                boundaries@,
                if forward {
                    amount as int
                } else {
                    -(amount as int)
                },
            ),
    {
        if boundaries.len() == 0 {
            return;
        }
        self.sync_file(boundaries);
        let last: usize = boundaries.len() - 1;
        let current: usize = if self.selected_file_index < last {
            self.selected_file_index
        } else {
            last
        };
        let target: usize = shift(current, forward, amount, last);
        self.set_file(target);
        self.place_diff(boundaries[target]);
    }

    fn scroll_active(&mut self, forward: bool, amount: usize)
        ensures
            final(self)@ == old(self)@.scrolled(
                if forward {
                    amount as int
                } else {
                    -(amount as int)
                },
            ),
    {
        let s = *self.active_scroll();
        let limit: usize = s.max_scroll();
        let offset: usize = shift(s.offset, forward, amount, limit);
        *self.active_scroll_mut() = ScrollState { offset, ..s };
    }

    fn place_active(&mut self, pos: usize)
        ensures
            final(self)@ == old(self)@.scrolled_to(pos),
    {
        self.active_scroll_mut().scroll_to(pos);
    }

    fn set_blade(&mut self, blade: Blade)
        ensures
            final(self)@ == old(self)@.blade_set(blade),
    {
        self.active_blade = blade;
    }

    fn toggle_fold(&mut self, section: InboxSection)
        ensures
            final(self)@ == old(self)@.fold_toggled(section),
    {
        let collapsed = self.collapsed_sections.is_collapsed(section);
        self.collapsed_sections.insert(section, !collapsed);
        self.inbox_cursor = InboxCursor::Section(section);
    }
}

impl App {
    /// The diff is dropped and asked for anew.
    pub open spec fn diff_dropped(self) -> App {
        App { pr_diff: None, diff_needs_reload: true, ..self }
    }

    pub open spec fn diff_asked(self) -> App {
        App { diff_needs_reload: true, ..self }
    }

    pub open spec fn untoasted(self) -> App {
        App { error_message: None, ..self }
    }

    /// A detail without a rich summary is asked for again, unless a summary is
    /// on its way.
    pub open spec fn summary_asked(self) -> App {
        if self.pr_detail is Some && self.pr_detail->0.llm_rich_summary is None
            && !self.llm_detail_loading {
            App { detail_needs_reload: true, ..self }
        } else {
            self
        }
    }
}

impl Ui {
    pub open spec fn row_selected(self, row: usize) -> Ui {
        Ui { pane: self.pane.cursor_placed(row), ..self }
    }

    pub open spec fn selection_moved(self, delta: int) -> Ui {
        let len = self.pane.inbox_rows.len();
        if len == 0 {
            self
        } else {
            self.row_selected(
                shifted(self.pane.selected_row as int, delta, len - 1) as usize,
            )
        }
    }

    /// File `index`, or the last one, is selected; where that is another file,
    /// the diff is loaded anew from its top.
    pub open spec fn file_selected(self, index: int) -> Ui {
        let i = min(index, less(file_count(self.app), 1)) as usize;
        if i == self.pane.selected_file_index {
            self
        } else {
            Ui {
                app: self.app.diff_dropped(),
                pane: self.pane.file_set(i).diff_placed(0),
                ..self
            }
        }
    }

    pub open spec fn file_moved(self, delta: int) -> Ui {
        self.file_selected(max(self.pane.selected_file_index + delta, 0))
    }

    pub open spec fn paged(self, delta: int) -> Ui {
        Ui {
            pane: self.pane.diff_moved(delta).file_synced(
                self.app.render_cache.diff_file_boundaries,
            ),
            ..self
        }
    }

    /// The blade changes, and toasts go. Leaving the diff drops it; entering it
    /// asks for it and shows the selected file; entering the files brings the
    /// selection into range; entering the overview asks for a summary.
    #[verifier::opaque]
    pub open spec fn blade_changed(self, target: Blade) -> Ui {
        let left = if self.pane.active_blade == Blade::Diff && target != Blade::Diff {
            self.app.diff_cleared().untoasted()
        } else {
            self.app.untoasted()
        };
        let moved = Ui { app: left, pane: self.pane.blade_set(target), ..self };
        match target {
            Blade::Diff => Ui {
                app: left.diff_asked(),
                pane: moved.pane.file_shown(left.render_cache.diff_file_boundaries),
                ..moved
            },
            Blade::Files => moved.file_selected(moved.pane.selected_file_index as int),
            Blade::Overview => Ui { app: left.summary_asked(), ..moved },
            _ => moved,
        }
    }

    pub open spec fn blade_next(self) -> Ui {
        if self.pane.active_blade.index() + 1 < Blade::count() {
            self.blade_changed(Blade::from_index((self.pane.active_blade.index() + 1) as usize))
        } else {
            self
        }
    }

    pub open spec fn blade_prev(self) -> Ui {
        self.blade_changed(
            Blade::from_index(less(self.pane.active_blade.index() as int, 1) as usize),
        )
    }

    pub open spec fn blade_jumped(self, n: int) -> Ui {
        if n <= 0 || n > Blade::count() {
            self
        } else {
            self.blade_changed(Blade::from_index((n - 1) as usize))
        }
    }

    pub open spec fn diff_opened(self) -> Ui {
        if file_count(self.app) > 0 {
            self.blade_changed(Blade::Diff)
        } else {
            self
        }
    }

    pub open spec fn fold_switched(self) -> Ui {
        match section_at(self.pane.inbox_rows, self.pane.selected_row as int) {
            Some(section) => Ui { pane: self.pane.fold_toggled(section), ..self },
            None => self,
        }
    }

    pub open spec fn on_header(self) -> bool {
        let at = self.pane.selected_row as int;
        at < self.pane.inbox_rows.len() && self.pane.inbox_rows[at] is Header
    }

    /// One step down or up in the active blade.
    #[verifier::opaque]
    pub open spec fn stepped(self, delta: int) -> Ui {
        match self.pane.active_blade {
            Blade::Inbox => self.selection_moved(delta),
            Blade::Files => self.file_moved(delta),
            Blade::Diff => self.paged(delta),
            _ => Ui { pane: self.pane.scrolled(delta), ..self },
        }
    }

    /// Half a viewport, at least one row.
    pub open spec fn half(viewport: usize) -> int {
        max(viewport as int / 2, 1)
    }

    /// Half a page in the active blade; the diff moves by a fixed page.
    #[verifier::opaque]
    pub open spec fn half_paged(self, sign: int) -> Ui {
        match self.pane.active_blade {
            Blade::Diff => self.paged(sign * 20),
            Blade::Inbox => self.selection_moved(
                sign * Self::half(self.pane.inbox_scroll.viewport_height),
            ),
            Blade::Files => self.file_moved(
                sign * Self::half(self.pane.files_scroll.viewport_height),
            ),
            _ => Ui {
                pane: self.pane.scrolled(sign * Self::half(self.pane.active().viewport_height)),
                ..self
            },
        }
    }

    #[verifier::opaque]
    pub open spec fn topped(self) -> Ui {
        match self.pane.active_blade {
            Blade::Inbox => self.row_selected(0),
            Blade::Files => self.file_selected(0),
            Blade::Diff => Ui { pane: self.pane.diff_placed(0), ..self },
            _ => Ui { pane: self.pane.scrolled_to(0), ..self },
        }
    }

    #[verifier::opaque]
    pub open spec fn bottomed(self) -> Ui {
        match self.pane.active_blade {
            Blade::Inbox => self.row_selected(
                less(self.pane.inbox_rows.len() as int, 1) as usize,
            ),
            Blade::Files => self.file_selected(less(file_count(self.app), 1)),
            Blade::Diff => Ui {
                pane: self.pane.diff_placed(self.pane.diff_scroll.limit()).file_synced(
                    self.app.render_cache.diff_file_boundaries,
                ),
                ..self
            },
            _ => Ui { pane: self.pane.scrolled_to(self.pane.active().limit()), ..self },
        }
    }
}

impl AppState {
    fn drop_diff(&mut self)
        ensures
            final(self)@ == old(self)@.diff_dropped(),
    {
        self.pr_diff = None;
        self.diff_needs_reload = true;
    }

    fn drop_toast(&mut self)
        ensures
            final(self)@ == old(self)@.untoasted(),
    {
        self.error_message = None;
    }

    fn ask_diff(&mut self)
        ensures
            final(self)@ == old(self)@.diff_asked(),
    {
        self.diff_needs_reload = true;
    }

    fn ask_summary(&mut self)
        ensures
            final(self)@ == old(self)@.summary_asked(),
    {
        let missing = match &self.pr_detail {
            Some(d) => d.llm_rich_summary.is_none(),
            None => false,
        };
        if missing && !self.llm_detail_loading {
            self.detail_needs_reload = true;
        }
    }

    fn selected_file_count(&self) -> (r: usize)
        ensures
            r == file_count(self@),
    {
        match &self.pr_detail {
            Some(d) => d.files.len(),
            None => 0,
        }
    }

    /// Move the Inbox cursor to a specific row, updating the authoritative
    /// cursor identity, from which the row and the selection are derived for
    /// each frame.
    pub fn set_selected_row(&mut self, view: &mut ViewStateManager, row: usize)
        ensures
            ui(final(self)@, final(view)@) == ui(old(self)@, old(view)@).row_selected(row),
    {
        view.view.place_cursor(row);
    }

    fn shift_selection(&mut self, view: &mut ViewStateManager, forward: bool, amount: usize)
        ensures
            ui(final(self)@, final(view)@) == ui(old(self)@, old(view)@).selection_moved(
                if forward {
                    amount as int
                } else {
                    -(amount as int)
                },
            ),
    {
        let len: usize = view.view.inbox_rows.len();
        proof {
            assert(view@.view.inbox_rows.len() == len);
        }
        if len == 0 {
            return;
        }
        let row: usize = shift(view.view.selected_row, forward, amount, len - 1);
        self.set_selected_row(view, row);
    }

    /// Move the Inbox cursor up or down. Navigation is in row space, so it
    /// walks section headers as well as pull-request rows.
    pub fn move_selection(&mut self, view: &mut ViewStateManager, delta: i32)
        ensures
            ui(final(self)@, final(view)@) == ui(old(self)@, old(view)@).selection_moved(
                delta as int,
            ),
    {
        self.shift_selection(view, delta >= 0, magnitude(delta));
    }

    pub fn set_selected_file_index(&mut self, view: &mut ViewStateManager, index: usize)
        ensures
            ui(final(self)@, final(view)@) == ui(old(self)@, old(view)@).file_selected(
                index as int,
            ),
    {
        let last: usize = self.selected_file_count().saturating_sub(1);
        let clamped: usize = if index < last {
            index
        } else {
            last
        };
        if clamped != view.view.selected_file_index {
            view.view.set_file(clamped);
            view.view.place_diff(0);
            self.drop_diff();
        }
    }

    fn shift_file(&mut self, view: &mut ViewStateManager, forward: bool, amount: usize)
        ensures
            ui(final(self)@, final(view)@) == ui(old(self)@, old(view)@).file_moved(
                if forward {
                    amount as int
                } else {
                    -(amount as int)
                },
            ),
    {
        let last: usize = self.selected_file_count().saturating_sub(1);
        let index: usize = shift(view.view.selected_file_index, forward, amount, last);
        self.set_selected_file_index(view, index);
    }

    /// Move file selection up or down.
    pub fn move_file_selection(&mut self, view: &mut ViewStateManager, delta: i32)
        ensures
            ui(final(self)@, final(view)@) == ui(old(self)@, old(view)@).file_moved(delta as int),
    {
        self.shift_file(view, delta >= 0, magnitude(delta));
    }

    /// Scroll content for the active blade and focus.
    pub fn scroll_content(&mut self, view: &mut ViewStateManager, delta: i32)
        ensures
            ui(final(self)@, final(view)@) == (Ui {
                pane: old(view)@.view.scrolled(delta as int),
                ..ui(old(self)@, old(view)@)
            }),
    {
        view.view.scroll_active(delta >= 0, magnitude(delta));
    }

    fn shift_diff(&mut self, view: &mut ViewStateManager, delta: isize)
        ensures
            ui(final(self)@, final(view)@) == ui(old(self)@, old(view)@).paged(delta as int),
    {
        view.view.move_diff(delta);
        self.sync_selected_file_to_diff_scroll(view);
    }

    /// Scroll the diff by full pages.
    pub fn page_diff(&mut self, view: &mut ViewStateManager, delta: i32)
        ensures
            ui(final(self)@, final(view)@) == ui(old(self)@, old(view)@).paged(
                if delta >= 0 {
                    20
                } else {
                    -20
                },
            ),
    {
        self.shift_diff(
            view,
            if delta >= 0 {
                20
            } else {
                -20
            },
        );
    }

    pub fn scroll_diff_to_selected_file(&mut self, view: &mut ViewStateManager)
        ensures
            ui(final(self)@, final(view)@) == (Ui {
                pane: old(view)@.view.file_shown(old(self)@.render_cache.diff_file_boundaries),
                ..ui(old(self)@, old(view)@)
            }),
    {
        view.view.show_file(&self.render_cache.diff_file_boundaries);
    }

    pub fn sync_selected_file_to_diff_scroll(&mut self, view: &mut ViewStateManager)
        ensures
            ui(final(self)@, final(view)@) == (Ui {
                pane: old(view)@.view.file_synced(old(self)@.render_cache.diff_file_boundaries),
                ..ui(old(self)@, old(view)@)
            }),
    {
        view.view.sync_file(&self.render_cache.diff_file_boundaries);
    }

    pub fn jump_diff_file(&mut self, view: &mut ViewStateManager, delta: i32)
        ensures
            ui(final(self)@, final(view)@) == (Ui {
                pane: old(view)@.view.file_jumped(
                    old(self)@.render_cache.diff_file_boundaries,
                    delta as int,
                ),
                ..ui(old(self)@, old(view)@)
            }),
    {
        view.view.jump_file(
            &self.render_cache.diff_file_boundaries,
            delta >= 0,
            magnitude(delta),
        );
    }

    pub fn set_active_blade(&mut self, view: &mut ViewStateManager, target: Blade)
        ensures
            ui(final(self)@, final(view)@) == ui(old(self)@, old(view)@).blade_changed(target),
    {
        proof {
            reveal(Ui::blade_changed);
        }
        if view.view.active_blade == Blade::Diff && target != Blade::Diff {
            self.clear_diff_cache();
        }
        view.view.set_blade(target);
        self.drop_toast();
        match target {
            Blade::Diff => {
                self.ask_diff();
                self.scroll_diff_to_selected_file(view);
            },
            Blade::Files => {
                let i: usize = view.view.selected_file_index;
                self.set_selected_file_index(view, i);
            },
            Blade::Overview => self.ask_summary(),
            _ => {},
        }
    }

    /// Navigate to the next blade to the right (deeper).
    pub fn next_blade(&mut self, view: &mut ViewStateManager)
        ensures
            ui(final(self)@, final(view)@) == ui(old(self)@, old(view)@).blade_next(),
    {
        let next: usize = view.view.active_blade.index() + 1;
        if next < Blade::count() {
            self.set_active_blade(view, Blade::from_index(next));
        }
    }

    /// Navigate to the previous blade to the left.
    pub fn prev_blade(&mut self, view: &mut ViewStateManager)
        ensures
            ui(final(self)@, final(view)@) == ui(old(self)@, old(view)@).blade_prev(),
    {
        let prev: usize = view.view.active_blade.index().saturating_sub(1);
        self.set_active_blade(view, Blade::from_index(prev));
    }

    /// Jump directly to a blade by number.
    pub fn jump_to_blade(&mut self, view: &mut ViewStateManager, n: usize)
        ensures
            ui(final(self)@, final(view)@) == ui(old(self)@, old(view)@).blade_jumped(n as int),
    {
        if n == 0 || n > Blade::count() {
            return;
        }
        self.set_active_blade(view, Blade::from_index(n - 1));
    }

    /// Open the selected file's diff.
    pub fn open_selected_file_diff(&mut self, view: &mut ViewStateManager)
        ensures
            ui(final(self)@, final(view)@) == ui(old(self)@, old(view)@).diff_opened(),
    {
        if self.selected_file_count() > 0 {
            self.set_active_blade(view, Blade::Diff);
        }
    }

    /// Whether the Inbox cursor currently rests on a section header row.
    pub fn cursor_on_header(&self, view: &ViewStateManager) -> (r: bool)
        ensures
            r == ui(self@, view@).on_header(),
    {
        let at: usize = view.view.selected_row;
        if at < view.view.inbox_rows.len() {
            proof {
                assert(view@.view.inbox_rows[at as int] == view.view.inbox_rows@[at as int]@);
            }
            match &view.view.inbox_rows[at] {
                InboxRow::Header { .. } => true,
                InboxRow::Pr { .. } => false,
            }
        } else {
            false
        }
    }

    /// Fold or unfold the section the cursor is in (the header itself, or the
    /// section enclosing the selected row). The cursor moves onto the section's
    /// header so the user keeps their place and can unfold from there.
    pub fn toggle_collapse_current(&mut self, view: &mut ViewStateManager)
        ensures
            ui(final(self)@, final(view)@) == ui(old(self)@, old(view)@).fold_switched(),
    {
        match section_of_row(&view.view.inbox_rows, view.view.selected_row) {
            Some(section) => view.view.toggle_fold(section),
            None => {},
        }
    }

    fn step(&mut self, view: &mut ViewStateManager, forward: bool)
        ensures
            ui(final(self)@, final(view)@) == ui(old(self)@, old(view)@).stepped(
                if forward {
                    1
                } else {
                    -1
                },
            ),
    {
        proof {
            reveal(Ui::stepped);
        }
        match view.view.active_blade {
            Blade::Inbox => self.shift_selection(view, forward, 1),
            Blade::Files => self.shift_file(view, forward, 1),
            Blade::Diff => self.shift_diff(
                view,
                if forward {
                    1
                } else {
                    -1
                },
            ),
            _ => view.view.scroll_active(forward, 1),
        }
    }

    /// Half-page movement for the active blade. Diff keeps its fixed-page
    /// scroll with file sync; the other blades move by half their viewport: the
    /// cursor in the row and file lists, the scroll offset in content panes.
    fn half_page(&mut self, view: &mut ViewStateManager, forward: bool)
        ensures
            ui(final(self)@, final(view)@) == ui(old(self)@, old(view)@).half_paged(
                if forward {
                    1
                } else {
                    -1
                },
            ),
    {
        proof {
            reveal(Ui::half_paged);
        }
        match view.view.active_blade {
            Blade::Diff => self.shift_diff(
                view,
                if forward {
                    20
                } else {
                    -20
                },
            ),
            Blade::Inbox => {
                let half: usize = half_of(view.view.inbox_scroll.viewport_height);
                self.shift_selection(view, forward, half);
            },
            Blade::Files => {
                let half: usize = half_of(view.view.files_scroll.viewport_height);
                self.shift_file(view, forward, half);
            },
            _ => {
                let half: usize = half_of(view.view.active_scroll().viewport_height);
                view.view.scroll_active(forward, half);
            },
        }
    }

    /// Jump to the top of the active blade: first row, first file, or the top
    /// of the content.
    fn jump_to_top(&mut self, view: &mut ViewStateManager)
        ensures
            ui(final(self)@, final(view)@) == ui(old(self)@, old(view)@).topped(),
    {
        proof {
            reveal(Ui::topped);
        }
        match view.view.active_blade {
            Blade::Inbox => self.set_selected_row(view, 0),
            Blade::Files => self.set_selected_file_index(view, 0),
            Blade::Diff => view.view.place_diff(0),
            _ => view.view.place_active(0),
        }
    }

    /// Jump to the bottom of the active blade: last row, last file, or the end
    /// of the content. Diff also brings the selected file in line.
    fn jump_to_bottom(&mut self, view: &mut ViewStateManager)
        ensures
            ui(final(self)@, final(view)@) == ui(old(self)@, old(view)@).bottomed(),
    {
        proof {
            reveal(Ui::bottomed);
        }
        match view.view.active_blade {
            Blade::Inbox => {
                proof {
                    assert(view@.view.inbox_rows.len() == view.view.inbox_rows@.len());
                }
                let last: usize = view.view.inbox_rows.len().saturating_sub(1);
                self.set_selected_row(view, last);
            },
            Blade::Files => {
                let last: usize = self.selected_file_count().saturating_sub(1);
                self.set_selected_file_index(view, last);
            },
            Blade::Diff => {
                let limit: usize = view.view.diff_scroll.max_scroll();
                view.view.place_diff(limit);
                self.sync_selected_file_to_diff_scroll(view);
            },
            _ => {
                let limit: usize = view.view.active_scroll().max_scroll();
                view.view.place_active(limit);
            },
        }
    }
}

fn half_of(viewport: usize) -> (r: usize)
    ensures
        r == Ui::half(viewport),
{
    let half: usize = viewport / 2;
    if half < 1 {
        1
    } else {
        half
    }
}

fn section_of_row(rows: &Vec<InboxRow>, row: usize) -> (r: Option<InboxSection>)
    ensures
        r == section_at(rows_view(rows@), row as int),
{
    if row >= rows.len() {
        return None;
    }
    proof {
        assert(rows_view(rows@)[row as int] == rows@[row as int]@);
    }
    if let InboxRow::Header { section, .. } = &rows[row] {
        return Some(*section);
    }
    let mut at: usize = row;
    while at > 0
        invariant
            at <= rows@.len(),
            section_at(rows_view(rows@), row as int) == header_above(rows_view(rows@), at as int),
        decreases at,
    {
        proof {
            assert(rows_view(rows@)[at - 1] == rows@[at - 1]@);
        }
        if let InboxRow::Header { section, .. } = &rows[at - 1] {
            return Some(*section);
        }
        at -= 1;
    }
    None
}

/// A scroll offset one row further down or up, as far as there are numbers.
pub open spec fn nudged(n: usize, down: bool) -> usize {
    if down {
        min(n + 1, usize::MAX as int) as usize
    } else {
        less(n as int, 1) as usize
    }
}

fn nudge(n: usize, down: bool) -> (r: usize)
    ensures
        r == nudged(n, down),
{
    if down {
        n.saturating_add(1)
    } else {
        n.saturating_sub(1)
    }
}

impl App {
    pub open spec fn helped(self) -> App {
        App { show_help: true, help_scroll: 0, ..self }
    }

    pub open spec fn search_dropped(self) -> App {
        App { search_filter: Seq::empty(), show_search: false, ..self }
    }

    pub open spec fn search_opened(self) -> App {
        App { search_filter_saved: self.search_filter, show_search: true, ..self }
    }

    pub open spec fn search_kept(self) -> App {
        App { show_search: false, ..self }
    }

    pub open spec fn search_cancelled(self) -> App {
        App { search_filter: self.search_filter_saved, show_search: false, ..self }
    }

    pub open spec fn search_typed(self, code: KeyCode) -> App {
        App { search_filter: typed(self.search_filter, code), ..self }
    }

    /// The search overlay opens, with the filter kept to be restored; where it
    /// is open with a filter, it closes and the filter goes.
    pub open spec fn search_toggled(self) -> App {
        if self.show_search && self.search_filter.len() > 0 {
            self.search_dropped()
        } else {
            self.search_opened()
        }
    }

    /// Keys while the search overlay is open: characters and Backspace edit the
    /// filter, Enter keeps it, Esc restores what it was before.
    pub open spec fn search_key(self, code: KeyCode) -> App {
        match code {
            KeyCode::Enter => self.search_kept(),
            KeyCode::Esc => self.search_cancelled(),
            _ => self.search_typed(code),
        }
    }

    pub open spec fn help_closed(self) -> App {
        App { show_help: false, ..self }
    }

    pub open spec fn help_scrolled(self, down: bool) -> App {
        App { help_scroll: nudged(self.help_scroll, down), ..self }
    }

    pub open spec fn config_scrolled(self, down: bool) -> App {
        App { config_scroll: nudged(self.config_scroll, down), ..self }
    }

    pub open spec fn with_wizard(self, w: Option<Wizard>) -> App {
        App { setup_wizard: w, ..self }
    }

    /// Keys while the help modal is open; it swallows every key.
    pub open spec fn help_key(self, code: KeyCode) -> App {
        if code == KeyCode::Char('?') || code == KeyCode::Esc || is_letter(code, 'q', 'Q') {
            self.help_closed()
        } else if is_down(code) {
            self.help_scrolled(true)
        } else if is_up(code) {
            self.help_scrolled(false)
        } else {
            self
        }
    }

    /// Keys while the configuration inspector is open.
    pub open spec fn config_key(self, code: KeyCode) -> (App, Action) {
        if is_letter(code, 'q', 'Q') {
            (self, Action::Quit)
        } else if is_letter(code, 'c', 'C') || code == KeyCode::Esc {
            (self, Action::ToggleConfig)
        } else if is_letter(code, 'w', 'W') {
            (self, Action::OpenWizard)
        } else if code == KeyCode::Char('R') {
            (self, Action::ReloadConfig)
        } else if is_down(code) {
            (self.config_scrolled(true), Action::Idle)
        } else if is_up(code) {
            (self.config_scrolled(false), Action::Idle)
        } else {
            (self, Action::Idle)
        }
    }

    /// Keys while the wizard is open.
    pub open spec fn setup_key(self, code: KeyCode) -> (App, Action) {
        match self.setup_wizard {
            None => (self, Action::Idle),
            Some(w) => (self.with_wizard(Some(w.key(code).0)), w.key(code).1),
        }
    }

    /// A refresh is asked for, unless one is in flight.
    pub open spec fn refresh_key(self) -> (App, Action) {
        if self.refresh_inflight {
            (self, Action::Idle)
        } else {
            (App { loading: true, error_message: None, ..self }, Action::Refresh)
        }
    }

    pub open spec fn numbers_toggled(self) -> App {
        App { show_line_numbers: !self.show_line_numbers, ..self }
    }

    pub open spec fn filter_cleared(self) -> App {
        App { search_filter: Seq::empty(), ..self }
    }

    pub open spec fn has_summary(self) -> bool {
        summary_len(self.render_cache.overview_summary.len() as int, is_summary_loading(self)) > 0
    }

    pub open spec fn has_problems(self) -> bool {
        self.render_cache.overview_problems.len() > 0
    }
}

impl Pane {
    pub open spec fn focus_moved(self, a: App, step: int) -> Pane {
        Pane {
            overview_focus: focus_cycled(
                self.overview_focus,
                a.has_summary(),
                a.has_problems(),
                step,
            ),
            ..self
        }
    }

    pub open spec fn description_toggled(self) -> Pane {
        Pane { overview_description_expanded: !self.overview_description_expanded, ..self }
    }
}

impl Ui {
    pub open spec fn with_app(self, app: App) -> Ui {
        Ui { app, ..self }
    }

    pub open spec fn with_pane(self, pane: Pane) -> Ui {
        Ui { pane, ..self }
    }

    /// Esc: out of a deeper blade to the Inbox; there, it clears a filter, else
    /// a toast.
    #[verifier::opaque]
    pub open spec fn stepped_out(self) -> Ui {
        if self.pane.active_blade != Blade::Inbox {
            self.blade_changed(Blade::Inbox)
        } else if self.app.search_filter.len() > 0 {
            self.with_app(self.app.filter_cleared())
        } else {
            self.with_app(self.app.untoasted())
        }
    }

    /// Enter: one blade deeper; on a section header it folds or unfolds.
    #[verifier::opaque]
    pub open spec fn entered(self) -> Ui {
        match self.pane.active_blade {
            Blade::Inbox => if self.on_header() {
                self.fold_switched()
            } else {
                self.blade_changed(Blade::Overview)
            },
            Blade::Overview => self.blade_changed(Blade::Activity),
            Blade::Activity => self.blade_changed(Blade::Files),
            Blade::Files => self.diff_opened(),
            Blade::Diff => self,
        }
    }

    /// Keys with Control: interrupt, half pages, and copying the branch.
    #[verifier::opaque]
    pub open spec fn ctrl_key(self, code: KeyCode) -> (Ui, Action) {
        if code == KeyCode::Char('c') {
            (self, Action::Quit)
        } else if code == KeyCode::Char('d') {
            (self.half_paged(1), Action::Idle)
        } else if code == KeyCode::Char('u') {
            (self.half_paged(-1), Action::Idle)
        } else if code == KeyCode::Char('y') {
            (self.with_app(self.app.branch_copied()), Action::Idle)
        } else {
            (self, Action::Idle)
        }
    }

    /// Tab and its kin: the next or previous Overview section or diff file.
    #[verifier::opaque]
    pub open spec fn tabbed(self, step: int) -> Ui {
        match self.pane.active_blade {
            Blade::Overview => self.with_pane(self.pane.focus_moved(self.app, step)),
            Blade::Diff => self.with_pane(
                self.pane.file_jumped(self.app.render_cache.diff_file_boundaries, step),
            ),
            _ => self,
        }
    }

    /// The letters bound in particular blades.
    #[verifier::opaque]
    pub open spec fn blade_char(self, c: char) -> Ui {
        let blade = self.pane.active_blade;
        if c == 'n' && blade == Blade::Diff {
            self.with_app(self.app.numbers_toggled())
        } else if c == 'f' && blade == Blade::Diff {
            self.tabbed(1)
        } else if c == ' ' && blade == Blade::Inbox {
            self.fold_switched()
        } else if c == 'd' && blade == Blade::Overview {
            self.with_pane(self.pane.description_toggled())
        } else {
            self
        }
    }

    /// The letters and digits of the dashboard.
    #[verifier::opaque]
    pub open spec fn char_key(self, c: char) -> (Ui, Action) {
        if c == 'q' || c == 'Q' {
            (self, Action::Quit)
        } else if c == 'c' || c == 'C' {
            (self, Action::ToggleConfig)
        } else if c == 'w' || c == 'W' {
            (self, Action::OpenWizard)
        } else if c == 'R' || c == 'r' {
            (self.with_app(self.app.refresh_key().0), self.app.refresh_key().1)
        } else if c == 'o' || c == 'O' {
            (self.with_app(self.app.browser_opened()), Action::Idle)
        } else if c == 'l' {
            (self.blade_next(), Action::Idle)
        } else if c == 'h' {
            (self.blade_prev(), Action::Idle)
        } else if c == '1' {
            (self.blade_jumped(1), Action::Idle)
        } else if c == '2' {
            (self.blade_jumped(2), Action::Idle)
        } else if c == '3' {
            (self.blade_jumped(3), Action::Idle)
        } else if c == '4' {
            (self.blade_jumped(4), Action::Idle)
        } else if c == '5' {
            (self.blade_jumped(5), Action::Idle)
        } else if c == 'j' {
            (self.stepped(1), Action::Idle)
        } else if c == 'k' {
            (self.stepped(-1), Action::Idle)
        } else if c == 'g' {
            (self.topped(), Action::Idle)
        } else if c == 'G' {
            (self.bottomed(), Action::Idle)
        } else {
            (self.blade_char(c), Action::Idle)
        }
    }

    /// Keys of the dashboard itself.
    #[verifier::opaque]
    pub open spec fn dashboard_key(self, code: KeyCode) -> (Ui, Action) {
        match code {
            KeyCode::Char(c) => self.char_key(c),
            KeyCode::Right => (self.blade_next(), Action::Idle),
            KeyCode::Left => (self.blade_prev(), Action::Idle),
            KeyCode::Esc => (self.stepped_out(), Action::Idle),
            KeyCode::Enter => (self.entered(), Action::Idle),
            KeyCode::Down => (self.stepped(1), Action::Idle),
            KeyCode::Up => (self.stepped(-1), Action::Idle),
            KeyCode::Tab => (self.tabbed(1), Action::Idle),
            KeyCode::BackTab => (self.tabbed(-1), Action::Idle),
            KeyCode::Backspace => (self, Action::Idle),
            KeyCode::Other => (self, Action::Idle),
        }
    }

    /// A key, by what is open: Control first, then the wizard, the inspector,
    /// the help, the search overlay, and the dashboard.
    #[verifier::opaque]
    pub open spec fn key(self, key: KeyEvent) -> (Ui, Action) {
        if key.ctrl {
            self.ctrl_key(key.code)
        } else if self.app.setup_wizard is Some {
            (self.with_app(self.app.setup_key(key.code).0), self.app.setup_key(key.code).1)
        } else if self.app.show_config_view {
            (self.with_app(self.app.config_key(key.code).0), self.app.config_key(key.code).1)
        } else if self.app.show_help {
            (self.with_app(self.app.help_key(key.code)), Action::Idle)
        } else if key.code == KeyCode::Char('?') && !self.app.show_search {
            (self.with_app(self.app.helped()), Action::Idle)
        } else if key.code == KeyCode::Char('/') {
            (self.with_app(self.app.search_toggled()), Action::Idle)
        } else if self.app.show_search {
            (self.with_app(self.app.search_key(key.code)), Action::Idle)
        } else {
            self.dashboard_key(key.code)
        }
    }
}

impl ViewState {
    fn move_focus(&mut self, app: &AppState, forward: bool)
        ensures
            final(self)@ == old(self)@.focus_moved(
                app@,
                if forward {
                    1
                } else {
                    -1
                },
            ),
    {
        let summary: usize = effective_summary_len(
            app.render_cache.overview_summary.len(),
            summary_loading(app),
        );
        let has_summary = summary > 0;
        let has_problems = app.render_cache.overview_problems.len() > 0;
        self.overview_focus = if forward {
            self.overview_focus.next(has_summary, has_problems)
        } else {
            self.overview_focus.prev(has_summary, has_problems)
        };
    }

    fn toggle_description(&mut self)
        ensures
            final(self)@ == old(self)@.description_toggled(),
    {
        self.overview_description_expanded = !self.overview_description_expanded;
    }
}

impl AppState {
    fn open_help(&mut self)
        ensures
            final(self)@ == old(self)@.helped(),
    {
        self.show_help = true;
        self.help_scroll = 0;
    }

    fn drop_search(&mut self)
        ensures
            final(self)@ == old(self)@.search_dropped(),
    {
        self.search_filter = String::new();
        self.show_search = false;
    }

    fn open_search(&mut self)
        ensures
            final(self)@ == old(self)@.search_opened(),
    {
        self.search_filter_saved = self.search_filter.clone();
        self.show_search = true;
    }

    fn keep_search(&mut self)
        ensures
            final(self)@ == old(self)@.search_kept(),
    {
        self.show_search = false;
    }

    fn cancel_search(&mut self)
        ensures
            final(self)@ == old(self)@.search_cancelled(),
    {
        self.search_filter = self.search_filter_saved.clone();
        self.show_search = false;
    }

    fn type_search(&mut self, code: KeyCode)
        ensures
            final(self)@ == old(self)@.search_typed(code),
    {
        type_into(&mut self.search_filter, code);
    }

    fn close_help(&mut self)
        ensures
            final(self)@ == old(self)@.help_closed(),
    {
        self.show_help = false;
    }

    fn scroll_help(&mut self, down: bool)
        ensures
            final(self)@ == old(self)@.help_scrolled(down),
    {
        self.help_scroll = nudge(self.help_scroll, down);
    }

    fn scroll_config(&mut self, down: bool)
        ensures
            final(self)@ == old(self)@.config_scrolled(down),
    {
        self.config_scroll = nudge(self.config_scroll, down);
    }

    fn toggle_search(&mut self)
        ensures
            final(self)@ == old(self)@.search_toggled(),
    {
        if self.show_search && !self.search_filter.as_str().is_empty() {
            self.drop_search();
        } else {
            self.open_search();
        }
    }

    /// Handle keys while the inbox search overlay is active.
    ///
    /// Printable characters append to the filter and Backspace deletes the last
    /// one (a no-op, keeping the overlay open, when the filter is already
    /// empty). Enter accepts the filter; Esc cancels, restoring the filter to
    /// what it was when the overlay opened. Both close the overlay.
    fn handle_search_key(&mut self, key: KeyEvent) -> (r: Action)
        ensures
            final(self)@ == old(self)@.search_key(key.code),
            r == Action::Idle,
    {
        match key.code {
            KeyCode::Enter => self.keep_search(),
            KeyCode::Esc => self.cancel_search(),
            _ => self.type_search(key.code),
        }
        Action::Idle
    }

    /// Handle keys while the help modal is open. It swallows every key: `?`,
    /// Esc, and `q` close it; j/k scroll it.
    fn handle_help_key(&mut self, key: KeyEvent) -> (r: Action)
        ensures
            final(self)@ == old(self)@.help_key(key.code),
            r == Action::Idle,
    {
        if key.code == KeyCode::Char('?') || key.code == KeyCode::Esc || letter(
            key.code,
            'q',
            'Q',
        ) {
            self.close_help();
        } else if goes_down(key.code) {
            self.scroll_help(true);
        } else if goes_up(key.code) {
            self.scroll_help(false);
        }
        Action::Idle
    }

    fn handle_config_key(&mut self, key: KeyEvent) -> (r: Action)
        ensures
            (final(self)@, r) == old(self)@.config_key(key.code),
    {
        if letter(key.code, 'q', 'Q') {
            return Action::Quit;
        }
        if letter(key.code, 'c', 'C') || key.code == KeyCode::Esc {
            return Action::ToggleConfig;
        }
        if letter(key.code, 'w', 'W') {
            return Action::OpenWizard;
        }
        if key.code == KeyCode::Char('R') {
            return Action::ReloadConfig;
        }
        if goes_down(key.code) {
            self.scroll_config(true);
        } else if goes_up(key.code) {
            self.scroll_config(false);
        }
        Action::Idle
    }

    pub(crate) fn take_wizard(&mut self) -> (r: Option<Box<SetupWizardState>>)
        ensures
            wizard_view(r) == old(self)@.setup_wizard,
            final(self)@ == old(self)@.with_wizard(None),
    {
        self.setup_wizard.take()
    }

    pub(crate) fn put_wizard(&mut self, wizard: Box<SetupWizardState>)
        ensures
            final(self)@ == old(self)@.with_wizard(Some((*wizard)@)),
    {
        self.setup_wizard = Some(wizard);
    }

    /// Dispatch a key to the current wizard step's handler.
    fn handle_setup_key(&mut self, key: KeyEvent) -> (r: Action)
        requires
            old(self)@.wf(),
        ensures
            (final(self)@, r) == old(self)@.setup_key(key.code),
            final(self)@.wf(),
    {
        match self.take_wizard() {
            Some(b) => {
                let mut wizard = b;
                let action = handle_wizard_key(&mut wizard, key);
                self.put_wizard(wizard);
                action
            },
            None => Action::Idle,
        }
    }

    fn ask_refresh(&mut self) -> (r: Action)
        ensures
            (final(self)@, r) == old(self)@.refresh_key(),
    {
        if self.refresh_inflight {
            return Action::Idle;
        }
        self.loading = true;
        self.error_message = None;
        Action::Refresh
    }

    fn toggle_numbers(&mut self)
        ensures
            final(self)@ == old(self)@.numbers_toggled(),
    {
        self.show_line_numbers = !self.show_line_numbers;
    }

    fn clear_filter(&mut self)
        ensures
            final(self)@ == old(self)@.filter_cleared(),
    {
        self.search_filter = String::new();
    }

    fn handle_ctrl_key(&mut self, view: &mut ViewStateManager, key: KeyEvent) -> (r: Action)
        ensures
            (ui(final(self)@, final(view)@), r) == ui(old(self)@, old(view)@).ctrl_key(key.code),
    {
        proof {
            reveal(Ui::ctrl_key);
        }
        if key.code == KeyCode::Char('c') {
            return Action::Quit;
        }
        if key.code == KeyCode::Char('d') {
            self.half_page(view, true);
        } else if key.code == KeyCode::Char('u') {
            self.half_page(view, false);
        } else if key.code == KeyCode::Char('y') {
            self.copy_selected_branch();
        }
        Action::Idle
    }

    /// Universal step-out: from any deeper blade, back to the Inbox; on the
    /// Inbox, clear an active filter, else dismiss any toast.
    fn step_out(&mut self, view: &mut ViewStateManager)
        ensures
            ui(final(self)@, final(view)@) == ui(old(self)@, old(view)@).stepped_out(),
    {
        proof {
            reveal(Ui::stepped_out);
        }
        if view.view.active_blade != Blade::Inbox {
            self.set_active_blade(view, Blade::Inbox);
        } else if !self.search_filter.as_str().is_empty() {
            self.clear_filter();
        } else {
            self.drop_toast();
        }
    }

    fn enter(&mut self, view: &mut ViewStateManager)
        ensures
            ui(final(self)@, final(view)@) == ui(old(self)@, old(view)@).entered(),
    {
        proof {
            reveal(Ui::entered);
        }
        match view.view.active_blade {
            Blade::Inbox => {
                if self.cursor_on_header(view) {
                    self.toggle_collapse_current(view);
                } else {
                    self.set_active_blade(view, Blade::Overview);
                }
            },
            Blade::Overview => self.set_active_blade(view, Blade::Activity),
            Blade::Activity => self.set_active_blade(view, Blade::Files),
            Blade::Files => self.open_selected_file_diff(view),
            Blade::Diff => {},
        }
    }

    fn tab(&mut self, view: &mut ViewStateManager, forward: bool)
        ensures
            ui(final(self)@, final(view)@) == ui(old(self)@, old(view)@).tabbed(
                if forward {
                    1
                } else {
                    -1
                },
            ),
    {
        proof {
            reveal(Ui::tabbed);
        }
        match view.view.active_blade {
            Blade::Overview => view.view.move_focus(self, forward),
            Blade::Diff => view.view.jump_file(
                &self.render_cache.diff_file_boundaries,
                forward,
                1,
            ),
            _ => {},
        }
    }

    fn handle_blade_char(&mut self, view: &mut ViewStateManager, c: char)
        ensures
            ui(final(self)@, final(view)@) == ui(old(self)@, old(view)@).blade_char(c),
    {
        proof {
            reveal(Ui::blade_char);
        }
        let blade = view.view.active_blade;
        if c == 'n' && blade == Blade::Diff {
            self.toggle_numbers();
        } else if c == 'f' && blade == Blade::Diff {
            self.tab(view, true);
        } else if c == ' ' && blade == Blade::Inbox {
            self.toggle_collapse_current(view);
        } else if c == 'd' && blade == Blade::Overview {
            view.view.toggle_description();
        }
    }

    fn handle_char(&mut self, view: &mut ViewStateManager, c: char) -> (r: Action)
        ensures
            (ui(final(self)@, final(view)@), r) == ui(old(self)@, old(view)@).char_key(c),
    {
        proof {
            reveal(Ui::char_key);
        }
        if c == 'q' || c == 'Q' {
            return Action::Quit;
        }
        if c == 'c' || c == 'C' {
            return Action::ToggleConfig;
        }
        if c == 'w' || c == 'W' {
            return Action::OpenWizard;
        }
        if c == 'R' || c == 'r' {
            return self.ask_refresh();
        }
        if c == 'o' || c == 'O' {
            self.open_pr_in_browser();
        } else if c == 'l' {
            self.next_blade(view);
        } else if c == 'h' {
            self.prev_blade(view);
        } else if c == '1' {
            self.jump_to_blade(view, 1);
        } else if c == '2' {
            self.jump_to_blade(view, 2);
        } else if c == '3' {
            self.jump_to_blade(view, 3);
        } else if c == '4' {
            self.jump_to_blade(view, 4);
        } else if c == '5' {
            self.jump_to_blade(view, 5);
        } else if c == 'j' {
            self.step(view, true);
        } else if c == 'k' {
            self.step(view, false);
        } else if c == 'g' {
            self.jump_to_top(view);
        } else if c == 'G' {
            self.jump_to_bottom(view);
        } else {
            self.handle_blade_char(view, c);
        }
        Action::Idle
    }

    fn handle_dashboard_key(&mut self, view: &mut ViewStateManager, key: KeyEvent) -> (r: Action)
        ensures
            (ui(final(self)@, final(view)@), r) == ui(old(self)@, old(view)@).dashboard_key(
                key.code,
            ),
    {
        proof {
            reveal(Ui::dashboard_key);
        }
        match key.code {
            KeyCode::Char(c) => return self.handle_char(view, c),
            KeyCode::Right => self.next_blade(view),
            KeyCode::Left => self.prev_blade(view),
            KeyCode::Esc => self.step_out(view),
            KeyCode::Enter => self.enter(view),
            KeyCode::Down => self.step(view, true),
            KeyCode::Up => self.step(view, false),
            KeyCode::Tab => self.tab(view, true),
            KeyCode::BackTab => self.tab(view, false),
            KeyCode::Backspace => {},
            KeyCode::Other => {},
        }
        Action::Idle
    }

    /// Handle a key event.
    ///
    /// Control keys come first, so that the interrupt quits whatever is open.
    /// The wizard, the inspector and the help modal take every other key while
    /// they are open; `?` and `/` open help and search from any blade.
    pub fn handle_key(&mut self, view: &mut ViewStateManager, key: KeyEvent) -> (r: Action)
        requires
            old(self)@.wf(),
        ensures
            (ui(final(self)@, final(view)@), r) == ui(old(self)@, old(view)@).key(key),
    {
        proof {
            reveal(Ui::key);
        }
        if key.ctrl {
            return self.handle_ctrl_key(view, key);
        }
        if self.setup_wizard.is_some() {
            return self.handle_setup_key(key);
        }
        if self.show_config_view {
            return self.handle_config_key(key);
        }
        if self.show_help {
            return self.handle_help_key(key);
        }
        if key.code == KeyCode::Char('?') && !self.show_search {
            self.open_help();
            return Action::Idle;
        }
        if key.code == KeyCode::Char('/') {
            self.toggle_search();
            return Action::Idle;
        }
        if self.show_search {
            return self.handle_search_key(key);
        }
        self.handle_dashboard_key(view, key)
    }
}

proof fn lemma_blade_keeps_wizard(u: Ui, target: Blade)
    ensures
        u.blade_changed(target).app.setup_wizard == u.app.setup_wizard,
{
    reveal(Ui::blade_changed);
}

proof fn lemma_moves_keep_wizard(u: Ui, d: int)
    ensures
        u.stepped(d).app.setup_wizard == u.app.setup_wizard,
        u.half_paged(d).app.setup_wizard == u.app.setup_wizard,
        u.topped().app.setup_wizard == u.app.setup_wizard,
        u.bottomed().app.setup_wizard == u.app.setup_wizard,
        u.tabbed(d).app.setup_wizard == u.app.setup_wizard,
{
    reveal(Ui::stepped);
    reveal(Ui::half_paged);
    reveal(Ui::topped);
    reveal(Ui::bottomed);
    reveal(Ui::tabbed);
}

proof fn lemma_out_and_in_keep_wizard(u: Ui)
    ensures
        u.stepped_out().app.setup_wizard == u.app.setup_wizard,
        u.entered().app.setup_wizard == u.app.setup_wizard,
{
    reveal(Ui::stepped_out);
    reveal(Ui::entered);
    assert forall|b: Blade| #[trigger]
        u.blade_changed(b).app.setup_wizard == u.app.setup_wizard by {
        lemma_blade_keeps_wizard(u, b);
    }
}

proof fn lemma_blade_char_keeps_wizard(u: Ui, c: char)
    ensures
        u.blade_char(c).app.setup_wizard == u.app.setup_wizard,
{
    reveal(Ui::blade_char);
    lemma_moves_keep_wizard(u, 1);
}

proof fn lemma_char_keeps_wizard(u: Ui, c: char)
    ensures
        u.char_key(c).0.app.setup_wizard == u.app.setup_wizard,
{
    reveal(Ui::char_key);
    lemma_moves_keep_wizard(u, 1);
    lemma_moves_keep_wizard(u, -1);
    lemma_blade_char_keeps_wizard(u, c);
    assert forall|b: Blade| #[trigger]
        u.blade_changed(b).app.setup_wizard == u.app.setup_wizard by {
        lemma_blade_keeps_wizard(u, b);
    }
}

proof fn lemma_dashboard_keeps_wizard(u: Ui, code: KeyCode)
    ensures
        u.dashboard_key(code).0.app.setup_wizard == u.app.setup_wizard,
{
    reveal(Ui::dashboard_key);
    lemma_moves_keep_wizard(u, 1);
    lemma_moves_keep_wizard(u, -1);
    lemma_out_and_in_keep_wizard(u);
    if let KeyCode::Char(c) = code {
        lemma_char_keeps_wizard(u, c);
    }
    assert forall|b: Blade| #[trigger]
        u.blade_changed(b).app.setup_wizard == u.app.setup_wizard by {
        lemma_blade_keeps_wizard(u, b);
    }
}

proof fn lemma_ctrl_keeps_wizard(u: Ui, code: KeyCode)
    ensures
        u.ctrl_key(code).0.app.setup_wizard == u.app.setup_wizard,
{
    reveal(Ui::ctrl_key);
    lemma_moves_keep_wizard(u, 1);
    lemma_moves_keep_wizard(u, -1);
}

/// No key leaves the wizard in an invalid state, and none but the wizard's own
/// touches it.
pub proof fn keys_keep_wizard_valid(u: Ui, key: KeyEvent)
    requires
        u.app.wf(),
    ensures
        u.key(key).0.app.wf(),
        key.ctrl ==> u.key(key).0.app.setup_wizard == u.app.setup_wizard,
        u.app.setup_wizard is None ==> u.key(key).0.app.setup_wizard is None,
{
    reveal(Ui::key);
    lemma_ctrl_keeps_wizard(u, key.code);
    lemma_dashboard_keeps_wizard(u, key.code);
    if u.app.setup_wizard is Some {
        keys_never_restart_fetches(u.app.setup_wizard->0, key.code);
    }
}

/// The interrupt quits whatever is open and changes nothing.
pub proof fn interrupt_always_quits(u: Ui)
    ensures
        u.key(KeyEvent::with_ctrl(KeyCode::Char('c'))) == (u, Action::Quit),
{
    reveal(Ui::key);
    reveal(Ui::ctrl_key);
}

/// While the help modal is open over the dashboard, keys without Control do
/// nothing but close or scroll it.
pub proof fn help_swallows_keys(u: Ui, code: KeyCode)
    requires
        u.app.show_help,
        u.app.setup_wizard is None,
        !u.app.show_config_view,
    ensures
        u.key(KeyEvent::plain(code)).1 == Action::Idle,
        u.key(KeyEvent::plain(code)).0.pane == u.pane,
        u.key(KeyEvent::plain(code)).0.app == (App {
            show_help: u.key(KeyEvent::plain(code)).0.app.show_help,
            help_scroll: u.key(KeyEvent::plain(code)).0.app.help_scroll,
            ..u.app
        }),
{
    reveal(Ui::key);
}

/// The filter after the keys `codes` in the search overlay.
pub open spec fn search_keys(a: App, codes: Seq<KeyCode>) -> App
    decreases codes.len(),
{
    if codes.len() == 0 {
        a
    } else {
        search_keys(a, codes.drop_last()).search_key(codes.last())
    }
}

proof fn lemma_typing_keeps_saved(a: App, codes: Seq<KeyCode>)
    requires
        forall|i: int|
            0 <= i < codes.len() ==> #[trigger] codes[i] != KeyCode::Enter && codes[i]
                != KeyCode::Esc,
    ensures
        search_keys(a, codes).search_filter_saved == a.search_filter_saved,
        search_keys(a, codes).show_search == a.show_search,
    decreases codes.len(),
{
    if codes.len() > 0 {
        let front = codes.drop_last();
        assert forall|i: int| 0 <= i < front.len() implies #[trigger] front[i] != KeyCode::Enter
            && front[i] != KeyCode::Esc by {
            assert(front[i] == codes[i]);
        }
        lemma_typing_keeps_saved(a, front);
        assert(codes[codes.len() - 1] == codes.last());
    }
}

/// Whatever was typed into the search overlay, Esc closes it and brings back
/// the filter from before it was opened.
pub proof fn cancelled_search_restores_filter(a: App, codes: Seq<KeyCode>)
    requires
        !a.show_search,
        forall|i: int|
            0 <= i < codes.len() ==> #[trigger] codes[i] != KeyCode::Enter && codes[i]
                != KeyCode::Esc,
    ensures
        search_keys(a.search_toggled(), codes).search_key(KeyCode::Esc).search_filter
            == a.search_filter,
        !search_keys(a.search_toggled(), codes).search_key(KeyCode::Esc).show_search,
{
    lemma_typing_keeps_saved(a.search_toggled(), codes);
}

/// Backspace on an empty filter leaves the search overlay open.
pub proof fn backspace_keeps_search_open(a: App)
    requires
        a.show_search,
        a.search_filter.len() == 0,
    ensures
        a.search_key(KeyCode::Backspace) == a,
{
}

/// Folding a section twice restores it, and folding never touches another.
pub proof fn folding_twice_restores(p: Pane, section: InboxSection, other: InboxSection)
    requires
        p.folds.len() == 9,
    ensures
        section_folded(p.fold_toggled(section).folds, section) == !section_folded(
            p.folds,
            section,
        ),
        section_folded(p.fold_toggled(section).fold_toggled(section).folds, section)
            == section_folded(p.folds, section),
        other != section ==> section_folded(p.fold_toggled(section).folds, other)
            == section_folded(p.folds, other),
{
    render_order_is_complete(section);
    render_order_is_complete(other);
}

/// Going a blade deeper and back returns to the same blade.
pub proof fn next_and_previous_blade_return(u: Ui)
    requires
        u.pane.active_blade != Blade::Diff,
    ensures
        u.blade_next().blade_prev().pane.active_blade == u.pane.active_blade,
        u.blade_next().pane.active_blade.index() == u.pane.active_blade.index() + 1,
{
    reveal(Ui::blade_changed);
}

/// Leaving the diff drops it, and entering it asks for it.
pub proof fn diff_is_loaded_while_shown(u: Ui, target: Blade)
    ensures
        u.pane.active_blade == Blade::Diff && target != Blade::Diff ==> u.blade_changed(
            target,
        ).app.pr_diff is None,
        target == Blade::Diff ==> u.blade_changed(target).app.diff_needs_reload,
        u.blade_changed(target).app.error_message is None,
        u.blade_changed(target).pane.active_blade == target,
{
    reveal(Ui::blade_changed);
}

/// While a refresh is in flight, the refresh key is a no-op.
pub proof fn refresh_key_does_not_pile_up(a: App)
    requires
        a.refresh_inflight,
    ensures
        a.refresh_key() == (a, Action::Idle),
{
}

/// Moving the cursor keeps it on a row of the Inbox.
pub proof fn moved_cursor_stays_on_rows(u: Ui, delta: int)
    requires
        0 < u.pane.inbox_rows.len() <= usize::MAX,
    ensures
        u.selection_moved(delta).pane.selected_row < u.pane.inbox_rows.len(),
{
}

/// The file shown at an offset is one that the diff has.
pub proof fn synced_file_is_in_range(p: Pane, boundaries: Seq<usize>)
    requires
        0 < boundaries.len() <= usize::MAX,
    ensures
        p.file_synced(boundaries).selected_file_index < boundaries.len(),
{
    lemma_starts_bound(boundaries, p.diff_scroll.offset, 0);
}

proof fn lemma_starts_bound(starts: Seq<usize>, offset: usize, i: int)
    requires
        0 <= i <= starts.len(),
    ensures
        i <= starts_upto(starts, offset, i) <= starts.len(),
    decreases starts.len() - i,
{
    if i < starts.len() && starts[i] <= offset {
        lemma_starts_bound(starts, offset, i + 1);
    }
}

} // verus!
