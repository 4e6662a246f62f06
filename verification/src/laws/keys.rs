//! Keys: what each of them does to the dashboard.
use vstd::prelude::*;

use crate::app::{App, CommandView};
use crate::inbox_rows::{cursor_at, pr_at, CursorView, InboxSection, RowView};
use crate::keys::{Action, KeyCode, KeyEvent};
use crate::laws::inbox::shut;
use crate::navigation::{header_above, Ui};
use crate::scroll::OverviewFocus;
use crate::split::trimmed;
use crate::state::{file_count, Pane};
use crate::theme::Blade;
use crate::views::diff::starts_upto;

verus! {

/// The dashboard and nothing over it.
pub open spec fn bare(u: Ui) -> bool {
    u.app.setup_wizard is None && !u.app.show_config_view && !u.app.show_help && !u.app.show_search
}

/// What a key without Control does.
pub open spec fn press(u: Ui, code: KeyCode) -> Ui {
    u.key(KeyEvent { code, ctrl: false }).0
}

/// What a key without Control asks for.
pub open spec fn asks(u: Ui, code: KeyCode) -> Action {
    u.key(KeyEvent { code, ctrl: false }).1
}

/// The blades from left to right.
pub open spec fn blade_at(n: int) -> Blade {
    if n == 0 {
        Blade::Inbox
    } else if n == 1 {
        Blade::Overview
    } else if n == 2 {
        Blade::Activity
    } else if n == 3 {
        Blade::Files
    } else {
        Blade::Diff
    }
}

pub open spec fn blade_place(blade: Blade) -> int {
    match blade {
        Blade::Inbox => 0,
        Blade::Overview => 1,
        Blade::Activity => 2,
        Blade::Files => 3,
        Blade::Diff => 4,
    }
}

proof fn lemma_changed(u: Ui, target: Blade)
    ensures
        u.blade_changed(target).pane.active_blade == target,
        u.blade_changed(target).app.error_message is None,
        target == Blade::Diff ==> u.blade_changed(target).app.diff_needs_reload,
        u.pane.active_blade == Blade::Diff && target != Blade::Diff ==> u.blade_changed(
            target,
        ).app.pr_diff is None,
        u.blade_changed(target).app.selected_pr_id == u.app.selected_pr_id,
        u.blade_changed(target).app.pr_detail == u.app.pr_detail,
        u.blade_changed(target).app.search_filter == u.app.search_filter,
        u.blade_changed(target).pane.selected_row == u.pane.selected_row,
        u.blade_changed(target).pane.inbox_cursor == u.pane.inbox_cursor,
{
    reveal(Ui::blade_changed);
}

proof fn lemma_key(u: Ui, code: KeyCode)
    requires
        bare(u),
        code != KeyCode::Char('?'),
        code != KeyCode::Char('/'),
    ensures
        press(u, code) == u.dashboard_key(code).0,
        asks(u, code) == u.dashboard_key(code).1,
{
    reveal(Ui::key);
}

proof fn lemma_char(u: Ui, c: char)
    requires
        bare(u),
        c != '?',
        c != '/',
    ensures
        press(u, KeyCode::Char(c)) == u.char_key(c).0,
        asks(u, KeyCode::Char(c)) == u.char_key(c).1,
{
    lemma_key(u, KeyCode::Char(c));
    reveal(Ui::dashboard_key);
}

/// Right and L go one blade to the right and stop at the diff, Left and H one
/// to the left and stop at the Inbox, and Escape goes back to the Inbox.
pub proof fn arrows_go_from_blade_to_blade(u: Ui)
    requires
        bare(u),
    ensures
        ({
            let at = blade_place(u.pane.active_blade);
            let right = if at < 4 {
                blade_at(at + 1)
            } else {
                Blade::Diff
            };
            let left = if at > 0 {
                blade_at(at - 1)
            } else {
                Blade::Inbox
            };
            &&& press(u, KeyCode::Right).pane.active_blade == right
            &&& press(u, KeyCode::Char('l')).pane.active_blade == right
            &&& press(u, KeyCode::Left).pane.active_blade == left
            &&& press(u, KeyCode::Char('h')).pane.active_blade == left
            &&& at > 0 ==> press(u, KeyCode::Esc).pane.active_blade == Blade::Inbox
        }),
{
    lemma_key(u, KeyCode::Right);
    lemma_key(u, KeyCode::Left);
    lemma_key(u, KeyCode::Esc);
    lemma_char(u, 'l');
    lemma_char(u, 'h');
    reveal(Ui::dashboard_key);
    reveal(Ui::char_key);
    reveal(Ui::stepped_out);
    lemma_changed(u, Blade::Inbox);
    lemma_changed(u, Blade::Overview);
    lemma_changed(u, Blade::Activity);
    lemma_changed(u, Blade::Files);
    lemma_changed(u, Blade::Diff);
}

/// The digits go straight to their blade, counted from the left.
pub proof fn digits_jump_to_their_blade(u: Ui)
    requires
        bare(u),
    ensures
        press(u, KeyCode::Char('1')).pane.active_blade == Blade::Inbox,
        press(u, KeyCode::Char('2')).pane.active_blade == Blade::Overview,
        press(u, KeyCode::Char('3')).pane.active_blade == Blade::Activity,
        press(u, KeyCode::Char('4')).pane.active_blade == Blade::Files,
        press(u, KeyCode::Char('5')).pane.active_blade == Blade::Diff,
        press(u, KeyCode::Char('5')).app.diff_needs_reload,
{
    lemma_char(u, '1');
    lemma_char(u, '2');
    lemma_char(u, '3');
    lemma_char(u, '4');
    lemma_char(u, '5');
    reveal(Ui::char_key);
    lemma_changed(u, Blade::Inbox);
    lemma_changed(u, Blade::Overview);
    lemma_changed(u, Blade::Activity);
    lemma_changed(u, Blade::Files);
    lemma_changed(u, Blade::Diff);
}

/// Enter goes one blade deeper: from a pull request to its overview, then to
/// its activity, its files, and, where there are files, to the diff. On a
/// header it stays and folds the section.
pub proof fn enter_goes_deeper(u: Ui)
    requires
        bare(u),
    ensures
        ({
            let after = press(u, KeyCode::Enter);
            let at = u.pane.selected_row as int;
            let rows = u.pane.inbox_rows;
            &&& u.pane.active_blade == Blade::Inbox && !(at < rows.len() && rows[at] is Header)
                ==> after.pane.active_blade == Blade::Overview
            &&& u.pane.active_blade == Blade::Inbox && at < rows.len() && rows[at] is Header
                ==> after == press(u, KeyCode::Char(' ')) && after.pane.active_blade == Blade::Inbox
            &&& u.pane.active_blade == Blade::Overview ==> after.pane.active_blade
                == Blade::Activity
            &&& u.pane.active_blade == Blade::Activity ==> after.pane.active_blade == Blade::Files
            &&& u.pane.active_blade == Blade::Files && file_count(u.app) > 0
                ==> after.pane.active_blade == Blade::Diff
            &&& u.pane.active_blade == Blade::Files && file_count(u.app) <= 0 ==> after == u
            &&& u.pane.active_blade == Blade::Diff ==> after == u
        }),
{
    lemma_key(u, KeyCode::Enter);
    lemma_char(u, ' ');
    reveal(Ui::dashboard_key);
    reveal(Ui::char_key);
    reveal(Ui::blade_char);
    reveal(Ui::entered);
    lemma_changed(u, Blade::Overview);
    lemma_changed(u, Blade::Activity);
    lemma_changed(u, Blade::Files);
    lemma_changed(u, Blade::Diff);
}

/// What a cursor on a row names.
pub open spec fn named(row: RowView) -> CursorView {
    match row {
        RowView::Header { section, .. } => CursorView::Section(section),
        RowView::Pr { id } => CursorView::Pr(id),
    }
}

/// In the Inbox J and Down put the cursor on the next row, K and Up on the one
/// before, G on the first and capital G on the last; it names the row it is on,
/// and nothing else changes.
pub proof fn inbox_cursor_moves_by_rows(u: Ui)
    requires
        bare(u),
        u.pane.active_blade == Blade::Inbox,
        u.pane.selected_row < u.pane.inbox_rows.len() <= usize::MAX,
    ensures
        ({
            let rows = u.pane.inbox_rows;
            let at = u.pane.selected_row;
            let last = (rows.len() - 1) as usize;
            &&& at < last ==> press(u, KeyCode::Down) == on_row(u, (at + 1) as usize)
            &&& at == last ==> press(u, KeyCode::Down) == on_row(u, last)
            &&& at > 0 ==> press(u, KeyCode::Up) == on_row(u, (at - 1) as usize)
            &&& at == 0 ==> press(u, KeyCode::Up) == on_row(u, 0)
            &&& press(u, KeyCode::Char('j')) == press(u, KeyCode::Down)
            &&& press(u, KeyCode::Char('k')) == press(u, KeyCode::Up)
            &&& press(u, KeyCode::Char('g')) == on_row(u, 0)
            &&& press(u, KeyCode::Char('G')) == on_row(u, last)
        }),
{
    lemma_key(u, KeyCode::Down);
    lemma_key(u, KeyCode::Up);
    lemma_char(u, 'j');
    lemma_char(u, 'k');
    lemma_char(u, 'g');
    lemma_char(u, 'G');
    reveal(Ui::dashboard_key);
    reveal(Ui::char_key);
    reveal(Ui::stepped);
    reveal(Ui::topped);
    reveal(Ui::bottomed);
    reveal(cursor_at);
}

/// The dashboard with the Inbox cursor on `row`.
pub open spec fn on_row(u: Ui, row: usize) -> Ui {
    Ui {
        pane: Pane {
            selected_row: row,
            inbox_cursor: named(u.pane.inbox_rows[row as int]),
            ..u.pane
        },
        ..u
    }
}

/// The pull request that is looked at is the one of the row, or the first one
/// under a header; none where that is folded.
pub proof fn cursor_selects_its_pull_request(rows: Seq<RowView>, row: int)
    requires
        0 <= row < rows.len(),
    ensures
        rows[row] is Pr ==> pr_at(rows, row) == Some(rows[row]->id),
        rows[row] is Header && row + 1 < rows.len() && rows[row + 1] is Pr ==> pr_at(rows, row)
            == Some(rows[row + 1]->id),
        rows[row] is Header && (row + 1 == rows.len() || rows[row + 1] is Header) ==> pr_at(
            rows,
            row,
        ) is None,
{
    reveal(pr_at);
}

proof fn lemma_header_above(rows: Seq<RowView>, row: int, h: int)
    requires
        0 <= h < row <= rows.len(),
        rows[h] is Header,
        forall|k: int| h < k < row ==> #[trigger] rows[k] is Pr,
    ensures
        header_above(rows, row) == Some(rows[h]->section),
    decreases row - h,
{
    if h < row - 1 {
        assert(rows[row - 1] is Pr);
        lemma_header_above(rows, row - 1, h);
    }
}

/// Space in the Inbox folds or unfolds the section that the cursor is in, and
/// no other, and puts the cursor on its header.
pub proof fn space_folds_the_section(u: Ui, h: int, other: InboxSection)
    requires
        bare(u),
        u.pane.active_blade == Blade::Inbox,
        u.pane.folds.len() == 9,
        0 <= h <= u.pane.selected_row < u.pane.inbox_rows.len(),
        u.pane.inbox_rows[h] is Header,
        forall|k: int|
            h < k <= u.pane.selected_row ==> #[trigger] u.pane.inbox_rows[k] is Pr,
    ensures
        ({
            let after = press(u, KeyCode::Char(' ')).pane;
            let section = u.pane.inbox_rows[h]->section;
            &&& shut(after.folds, section) != shut(u.pane.folds, section)
            &&& other != section ==> shut(after.folds, other) == shut(u.pane.folds, other)
            &&& after.inbox_cursor == CursorView::Section(section)
        }),
{
    lemma_char(u, ' ');
    reveal(Ui::char_key);
    reveal(Ui::blade_char);
    let section = u.pane.inbox_rows[h]->section;
    let at = u.pane.selected_row as int;
    if h < at {
        assert(u.pane.inbox_rows[at] is Pr);
        lemma_header_above(u.pane.inbox_rows, at, h);
    }
    crate::navigation::folding_twice_restores(u.pane, section, other);
    crate::inbox_rows::render_order_is_complete(section);
    crate::inbox_rows::render_order_is_complete(other);
}

/// In the Files blade J and K go from file to file, as far as there are files;
/// another file asks for the diff anew and shows it from its top, the same one
/// changes nothing.
pub proof fn files_cursor_moves_by_files(u: Ui)
    requires
        bare(u),
        u.pane.active_blade == Blade::Files,
        u.pane.selected_file_index < file_count(u.app) <= usize::MAX,
    ensures
        ({
            let at = u.pane.selected_file_index;
            let last = file_count(u.app) - 1;
            &&& at < last ==> on_file(press(u, KeyCode::Down), (at + 1) as usize)
            &&& at == last ==> press(u, KeyCode::Down) == u
            &&& at > 0 ==> on_file(press(u, KeyCode::Up), (at - 1) as usize)
            &&& at == 0 ==> press(u, KeyCode::Up) == u
            &&& at > 0 ==> on_file(press(u, KeyCode::Char('g')), 0)
            &&& at < last ==> on_file(press(u, KeyCode::Char('G')), last as usize)
            &&& press(u, KeyCode::Char('j')) == press(u, KeyCode::Down)
            &&& press(u, KeyCode::Char('k')) == press(u, KeyCode::Up)
        }),
{
    lemma_key(u, KeyCode::Down);
    lemma_key(u, KeyCode::Up);
    lemma_char(u, 'j');
    lemma_char(u, 'k');
    lemma_char(u, 'g');
    lemma_char(u, 'G');
    reveal(Ui::dashboard_key);
    reveal(Ui::char_key);
    reveal(Ui::stepped);
    reveal(Ui::topped);
    reveal(Ui::bottomed);
}

/// Another file was just selected.
pub open spec fn on_file(u: Ui, i: usize) -> bool {
    u.pane.selected_file_index == i && u.app.pr_diff is None && u.app.diff_needs_reload
        && u.pane.diff_scroll.offset == 0
}

proof fn lemma_starts(starts: Seq<usize>, offset: usize, i: int)
    requires
        0 <= i <= starts.len(),
    ensures
        i <= starts_upto(starts, offset, i) <= starts.len(),
        forall|k: int| i <= k < starts_upto(starts, offset, i) ==> #[trigger] starts[k] <= offset,
        starts_upto(starts, offset, i) < starts.len() ==> starts[starts_upto(starts, offset, i)]
            > offset,
    decreases starts.len() - i,
{
    if i < starts.len() && starts[i] <= offset {
        lemma_starts(starts, offset, i + 1);
    }
}

/// Whether file `i` is the one shown at `offset`: it begins at or above it, and
/// the next one below it.
pub open spec fn shows_file(boundaries: Seq<usize>, offset: usize, i: int) -> bool {
    &&& 0 <= i < boundaries.len()
    &&& boundaries[i] <= offset || i == 0
    &&& i + 1 < boundaries.len() ==> boundaries[i + 1] > offset || (i == 0 && boundaries[0] > offset)
}

/// In the diff J and K scroll by a row, Control with D and U by twenty, within
/// what there is; the selected file is the one shown.
pub proof fn diff_scrolls_and_follows_its_file(u: Ui)
    requires
        bare(u),
        u.pane.active_blade == Blade::Diff,
        0 < u.app.render_cache.diff_file_boundaries.len() <= usize::MAX,
    ensures
        ({
            let s = u.pane.diff_scroll;
            let files = u.app.render_cache.diff_file_boundaries;
            let down = press(u, KeyCode::Down);
            let up = press(u, KeyCode::Up);
            let page = u.key(KeyEvent { code: KeyCode::Char('d'), ctrl: true }).0;
            let back = u.key(KeyEvent { code: KeyCode::Char('u'), ctrl: true }).0;
            &&& s.offset < s.limit() ==> down.pane.diff_scroll.offset == s.offset + 1
            &&& s.offset == s.limit() ==> down.pane.diff_scroll.offset == s.offset
            &&& 0 < s.offset <= s.limit() ==> up.pane.diff_scroll.offset == s.offset - 1
            &&& s.offset + 20 <= s.limit() ==> page.pane.diff_scroll.offset == s.offset + 20
            &&& 20 <= s.offset <= s.limit() ==> back.pane.diff_scroll.offset == s.offset - 20
            &&& shows_file(
                files,
                down.pane.diff_scroll.offset,
                down.pane.selected_file_index as int,
            )
            &&& shows_file(files, up.pane.diff_scroll.offset, up.pane.selected_file_index as int)
            &&& shows_file(
                files,
                page.pane.diff_scroll.offset,
                page.pane.selected_file_index as int,
            )
            &&& down.app == u.app && up.app == u.app && page.app == u.app
        }),
{
    lemma_key(u, KeyCode::Down);
    lemma_key(u, KeyCode::Up);
    reveal(Ui::dashboard_key);
    reveal(Ui::stepped);
    reveal(Ui::key);
    reveal(Ui::ctrl_key);
    reveal(Ui::half_paged);
    let files = u.app.render_cache.diff_file_boundaries;
    lemma_starts(files, press(u, KeyCode::Down).pane.diff_scroll.offset, 0);
    lemma_starts(files, press(u, KeyCode::Up).pane.diff_scroll.offset, 0);
    lemma_starts(
        files,
        u.key(KeyEvent { code: KeyCode::Char('d'), ctrl: true }).0.pane.diff_scroll.offset,
        0,
    );
}

/// Tab and F in the diff go to the beginning of the next file, Shift-Tab to
/// that of the one before.
pub proof fn tab_goes_from_file_to_file(u: Ui, i: int)
    requires
        bare(u),
        u.pane.active_blade == Blade::Diff,
        u.app.render_cache.diff_file_boundaries.len() <= usize::MAX,
        0 <= i < u.app.render_cache.diff_file_boundaries.len(),
        starts_upto(u.app.render_cache.diff_file_boundaries, u.pane.diff_scroll.offset, 0) == i + 1,
    ensures
        ({
            let files = u.app.render_cache.diff_file_boundaries;
            let next = press(u, KeyCode::Tab);
            let before = press(u, KeyCode::BackTab);
            &&& i + 1 < files.len() && files[i + 1] <= u.pane.diff_scroll.limit()
                ==> next.pane.selected_file_index == i + 1 && next.pane.diff_scroll.offset
                == files[i + 1]
            &&& i > 0 && files[i - 1] <= u.pane.diff_scroll.limit()
                ==> before.pane.selected_file_index == i - 1 && before.pane.diff_scroll.offset
                == files[i - 1]
            &&& press(u, KeyCode::Char('f')) == next
        }),
{
    lemma_key(u, KeyCode::Tab);
    lemma_key(u, KeyCode::BackTab);
    lemma_char(u, 'f');
    reveal(Ui::dashboard_key);
    reveal(Ui::char_key);
    reveal(Ui::blade_char);
    reveal(Ui::tabbed);
}

/// In the Overview and the Activity J and K scroll what is in focus by a row,
/// within its limit, G to its top and capital G to its end.
pub proof fn panes_scroll_by_rows(u: Ui)
    requires
        bare(u),
        u.pane.active_blade == Blade::Overview || u.pane.active_blade == Blade::Activity,
        u.pane.active().offset <= u.pane.active().limit(),
    ensures
        ({
            let s = u.pane.active();
            &&& s.offset < s.limit() ==> press(u, KeyCode::Down).pane.active().offset == s.offset
                + 1
            &&& s.offset == s.limit() ==> press(u, KeyCode::Down).pane.active() == s
            &&& s.offset > 0 ==> press(u, KeyCode::Up).pane.active().offset == s.offset - 1
            &&& press(u, KeyCode::Char('g')).pane.active().offset == 0
            &&& press(u, KeyCode::Char('G')).pane.active().offset == s.limit()
            &&& press(u, KeyCode::Down).app == u.app
        }),
{
    lemma_key(u, KeyCode::Down);
    lemma_key(u, KeyCode::Up);
    lemma_char(u, 'g');
    lemma_char(u, 'G');
    reveal(Ui::dashboard_key);
    reveal(Ui::char_key);
    reveal(Ui::stepped);
    reveal(Ui::topped);
    reveal(Ui::bottomed);
}

/// In the Inbox and among the files Control with D and U moves by half of what
/// is in view, and by one row at least.
pub proof fn half_pages_move_half_a_view(u: Ui)
    requires
        u.pane.active_blade == Blade::Inbox,
        0 < u.pane.inbox_rows.len() <= usize::MAX,
        u.pane.selected_row < u.pane.inbox_rows.len(),
    ensures
        ({
            let view = u.pane.inbox_scroll.viewport_height as int;
            let half = if view < 4 {
                1
            } else {
                view / 2
            };
            let down = u.key(KeyEvent { code: KeyCode::Char('d'), ctrl: true }).0;
            let up = u.key(KeyEvent { code: KeyCode::Char('u'), ctrl: true }).0;
            let at = u.pane.selected_row;
            &&& at + half < u.pane.inbox_rows.len() ==> down == on_row(u, (at + half) as usize)
            &&& at >= half ==> up == on_row(u, (at - half) as usize)
        }),
{
    reveal(Ui::key);
    reveal(Ui::ctrl_key);
    reveal(Ui::half_paged);
    reveal(cursor_at);
}

/// A slash opens the filter, what is typed narrows it, Backspace takes the last
/// character, Enter keeps it and Escape brings back what stood before.
pub proof fn filter_is_typed(u: Ui, c: char)
    requires
        u.app.setup_wizard is None,
        !u.app.show_config_view,
        !u.app.show_help,
    ensures
        !u.app.show_search ==> press(u, KeyCode::Char('/')) == (Ui {
            app: App { show_search: true, search_filter_saved: u.app.search_filter, ..u.app },
            ..u
        }),
        u.app.show_search && c != '/' ==> press(u, KeyCode::Char(c)) == (Ui {
            app: App { search_filter: u.app.search_filter.push(c), ..u.app },
            ..u
        }),
        u.app.show_search && u.app.search_filter.len() > 0 ==> press(u, KeyCode::Backspace) == (Ui {
            app: App { search_filter: u.app.search_filter.drop_last(), ..u.app },
            ..u
        }),
        u.app.show_search ==> press(u, KeyCode::Enter) == (Ui {
            app: App { show_search: false, ..u.app },
            ..u
        }),
        u.app.show_search ==> press(u, KeyCode::Esc) == (Ui {
            app: App {
                show_search: false,
                search_filter: u.app.search_filter_saved,
                ..u.app
            },
            ..u
        }),
        u.app.show_search && u.app.search_filter.len() > 0 ==> press(u, KeyCode::Char('/')) == (Ui {
            app: App { show_search: false, search_filter: Seq::empty(), ..u.app },
            ..u
        }),
{
    reveal(Ui::key);
}

/// In the Inbox Escape clears the filter where there is one, else the message.
pub proof fn escape_clears_filter_then_message(u: Ui)
    requires
        bare(u),
        u.pane.active_blade == Blade::Inbox,
    ensures
        u.app.search_filter.len() > 0 ==> press(u, KeyCode::Esc) == (Ui {
            app: App { search_filter: Seq::empty(), ..u.app },
            ..u
        }),
        u.app.search_filter.len() == 0 ==> press(u, KeyCode::Esc) == (Ui {
            app: App { error_message: None, ..u.app },
            ..u
        }),
{
    lemma_key(u, KeyCode::Esc);
    reveal(Ui::dashboard_key);
    reveal(Ui::stepped_out);
}

/// The letters ask for what they stand for: Q to quit, R to refresh unless that
/// is under way, C for the configuration, W for the wizard, and a question mark
/// for help.
pub proof fn letters_ask_for_their_action(u: Ui)
    requires
        bare(u),
    ensures
        asks(u, KeyCode::Char('q')) == Action::Quit,
        asks(u, KeyCode::Char('c')) == Action::ToggleConfig,
        asks(u, KeyCode::Char('w')) == Action::OpenWizard,
        !u.app.refresh_inflight ==> asks(u, KeyCode::Char('R')) == Action::Refresh && press(
            u,
            KeyCode::Char('R'),
        ).app.loading,
        u.app.refresh_inflight ==> asks(u, KeyCode::Char('R')) == Action::Idle && press(
            u,
            KeyCode::Char('R'),
        ) == u,
        press(u, KeyCode::Char('r')) == press(u, KeyCode::Char('R')),
        asks(u, KeyCode::Char('r')) == asks(u, KeyCode::Char('R')),
        press(u, KeyCode::Char('?')) == (Ui {
            app: App { show_help: true, help_scroll: 0, ..u.app },
            ..u
        }),
        asks(u, KeyCode::Char('?')) == Action::Idle,
        asks(u, KeyCode::Enter) == Action::Idle,
        asks(u, KeyCode::Char('o')) == Action::Idle,
{
    lemma_char(u, 'q');
    lemma_char(u, 'c');
    lemma_char(u, 'w');
    lemma_char(u, 'R');
    lemma_char(u, 'r');
    lemma_char(u, 'o');
    lemma_key(u, KeyCode::Enter);
    reveal(Ui::char_key);
    reveal(Ui::dashboard_key);
    assert(press(u, KeyCode::Char('?')) == (Ui {
        app: App { show_help: true, help_scroll: 0, ..u.app },
        ..u
    }) && asks(u, KeyCode::Char('?')) == Action::Idle) by {
        reveal(Ui::key);
    }
}

/// O opens the page of the pull request that is loaded, Control with Y copies
/// its branch, blanks around it dropped; without one nothing is opened, and the
/// user is told that there is nothing to copy.
pub proof fn browser_and_clipboard_get_the_loaded_pull_request(u: Ui)
    requires
        bare(u),
    ensures
        u.app.pr_detail matches Some(d) ==> press(u, KeyCode::Char('o')).app.outbox
            == u.app.outbox.push(CommandView::OpenUrl(d.url@)),
        u.app.pr_detail is None ==> press(u, KeyCode::Char('o')) == u,
        u.app.pr_detail matches Some(d) ==> trimmed(d.head_ref@).len() > 0 ==> u.key(
            KeyEvent { code: KeyCode::Char('y'), ctrl: true },
        ).0.app.outbox == u.app.outbox.push(CommandView::CopyBranch(trimmed(d.head_ref@))),
        u.app.pr_detail is None ==> u.key(
            KeyEvent { code: KeyCode::Char('y'), ctrl: true },
        ).0.app.outbox == u.app.outbox && u.key(
            KeyEvent { code: KeyCode::Char('y'), ctrl: true },
        ).0.app.error_message is Some,
{
    lemma_char(u, 'o');
    reveal(Ui::char_key);
    reveal(Ui::key);
    reveal(Ui::ctrl_key);
}

/// N in the diff switches line numbers and D in the Overview the expanded
/// description; elsewhere these letters do nothing.
pub proof fn blade_letters_work_in_their_blade(u: Ui)
    requires
        bare(u),
    ensures
        u.pane.active_blade == Blade::Diff ==> press(u, KeyCode::Char('n')) == (Ui {
            app: App { show_line_numbers: !u.app.show_line_numbers, ..u.app },
            ..u
        }),
        u.pane.active_blade != Blade::Diff ==> press(u, KeyCode::Char('n')) == u,
        u.pane.active_blade == Blade::Overview ==> press(u, KeyCode::Char('d')) == (Ui {
            pane: Pane {
                overview_description_expanded: !u.pane.overview_description_expanded,
                ..u.pane
            },
            ..u
        }),
        u.pane.active_blade != Blade::Overview ==> press(u, KeyCode::Char('d')) == u,
        u.pane.active_blade != Blade::Inbox ==> press(u, KeyCode::Char(' ')) == u,
{
    lemma_char(u, 'n');
    lemma_char(u, 'd');
    lemma_char(u, ' ');
    reveal(Ui::char_key);
    reveal(Ui::blade_char);
}

/// Over the configuration inspector C and Escape close it, Q quits, W opens the
/// wizard, capital R reloads, and J and K scroll. Over the help Escape, Q and a
/// question mark close it, and J and K scroll.
pub proof fn overlays_have_their_keys(u: Ui)
    requires
        u.app.setup_wizard is None,
    ensures
        u.app.show_config_view ==> asks(u, KeyCode::Esc) == Action::ToggleConfig && asks(
            u,
            KeyCode::Char('c'),
        ) == Action::ToggleConfig && asks(u, KeyCode::Char('q')) == Action::Quit && asks(
            u,
            KeyCode::Char('w'),
        ) == Action::OpenWizard && asks(u, KeyCode::Char('R')) == Action::ReloadConfig && asks(
            u,
            KeyCode::Char('r'),
        ) == Action::Idle,
        u.app.show_config_view && u.app.config_scroll < usize::MAX ==> press(u, KeyCode::Down) == (
        Ui { app: App { config_scroll: (u.app.config_scroll + 1) as usize, ..u.app }, ..u }),
        u.app.show_config_view && u.app.config_scroll > 0 ==> press(u, KeyCode::Up) == (Ui {
            app: App { config_scroll: (u.app.config_scroll - 1) as usize, ..u.app },
            ..u
        }),
        !u.app.show_config_view && u.app.show_help ==> press(u, KeyCode::Esc) == (Ui {
            app: App { show_help: false, ..u.app },
            ..u
        }) && press(u, KeyCode::Char('q')) == press(u, KeyCode::Esc) && press(
            u,
            KeyCode::Char('?'),
        ) == press(u, KeyCode::Esc),
        !u.app.show_config_view && u.app.show_help && u.app.help_scroll < usize::MAX ==> press(
            u,
            KeyCode::Down,
        ) == (Ui { app: App { help_scroll: (u.app.help_scroll + 1) as usize, ..u.app }, ..u }),
{
    reveal(Ui::key);
}

/// While the wizard is open every key without Control goes to it, and changes
/// nothing else.
pub proof fn open_wizard_takes_the_keys(u: Ui, code: KeyCode)
    requires
        u.app.setup_wizard is Some,
    ensures
        press(u, code) == (Ui {
            app: App { setup_wizard: Some(u.app.setup_wizard->0.key(code).0), ..u.app },
            ..u
        }),
        asks(u, code) == u.app.setup_wizard->0.key(code).1,
{
    reveal(Ui::key);
}

/// Tab in the Overview puts the focus on the next section that is shown, in the
/// order summary, problems, description and last activity, and round again.
pub proof fn tab_goes_from_section_to_section(u: Ui)
    requires
        bare(u),
        u.pane.active_blade == Blade::Overview,
    ensures
        ({
            let s = u.app.has_summary();
            let p = u.app.has_problems();
            let next = press(u, KeyCode::Tab).pane.overview_focus;
            let before = press(u, KeyCode::BackTab).pane.overview_focus;
            &&& u.pane.overview_focus == OverviewFocus::Description ==> next
                == OverviewFocus::LastActivity
            &&& u.pane.overview_focus == OverviewFocus::LastActivity ==> before
                == OverviewFocus::Description
            &&& u.pane.overview_focus == OverviewFocus::Summary && s && p ==> next
                == OverviewFocus::Problems
            &&& u.pane.overview_focus == OverviewFocus::Summary && s && !p ==> next
                == OverviewFocus::Description
            &&& u.pane.overview_focus == OverviewFocus::Problems && p ==> next
                == OverviewFocus::Description
            &&& u.pane.overview_focus == OverviewFocus::LastActivity && s ==> next
                == OverviewFocus::Summary
            &&& u.pane.overview_focus == OverviewFocus::LastActivity && !s && p ==> next
                == OverviewFocus::Problems
            &&& u.pane.overview_focus == OverviewFocus::LastActivity && !s && !p ==> next
                == OverviewFocus::Description
        }),
{
    lemma_key(u, KeyCode::Tab);
    lemma_key(u, KeyCode::BackTab);
    reveal(Ui::dashboard_key);
    reveal(Ui::tabbed);
    let s = u.app.has_summary();
    let p = u.app.has_problems();
    lemma_cycle(u.pane.overview_focus, s, p);
}

proof fn lemma_cycle(focus: OverviewFocus, s: bool, p: bool)
    ensures
        ({
            let next = crate::scroll::focus_cycled(focus, s, p, 1);
            let before = crate::scroll::focus_cycled(focus, s, p, -1);
            &&& focus == OverviewFocus::Description ==> next == OverviewFocus::LastActivity
            &&& focus == OverviewFocus::LastActivity ==> before == OverviewFocus::Description
            &&& focus == OverviewFocus::Summary && s && p ==> next == OverviewFocus::Problems
            &&& focus == OverviewFocus::Summary && s && !p ==> next == OverviewFocus::Description
            &&& focus == OverviewFocus::Problems && p ==> next == OverviewFocus::Description
            &&& focus == OverviewFocus::LastActivity && s ==> next == OverviewFocus::Summary
            &&& focus == OverviewFocus::LastActivity && !s && p ==> next == OverviewFocus::Problems
            &&& focus == OverviewFocus::LastActivity && !s && !p ==> next
                == OverviewFocus::Description
        }),
{
    let order = crate::scroll::visible_sections(s, p);
    crate::scroll::lemma_visible(s, p);
    if s && p {
        assert(order =~= seq![
            OverviewFocus::Summary,
            OverviewFocus::Problems,
            OverviewFocus::Description,
            OverviewFocus::LastActivity,
        ]);
    } else if s {
        assert(order =~= seq![
            OverviewFocus::Summary,
            OverviewFocus::Description,
            OverviewFocus::LastActivity,
        ]);
    } else if p {
        assert(order =~= seq![
            OverviewFocus::Problems,
            OverviewFocus::Description,
            OverviewFocus::LastActivity,
        ]);
    } else {
        assert(order =~= seq![OverviewFocus::Description, OverviewFocus::LastActivity]);
    }
    if order.contains(focus) {
        let i = order.index_of(focus);
        assert(order[i] == focus);
        crate::scroll::lemma_place(focus, s, p, i);
        crate::scroll::lemma_around(i, order.len() as int);
    }
}

/// Entering the files keeps the file that was selected, as far as there are
/// files. Entering the Overview asks for the detail anew where it has no rich
/// summary and none is on its way. Entering the diff shows the selected file
/// from where it begins.
pub proof fn entering_a_blade_prepares_it(u: Ui)
    requires
        bare(u),
        u.pane.active_blade == Blade::Inbox,
    ensures
        u.pane.selected_file_index < file_count(u.app) <= usize::MAX ==> press(
            u,
            KeyCode::Char('4'),
        ).pane.selected_file_index == u.pane.selected_file_index,
        u.app.pr_detail is Some && u.app.pr_detail->0.llm_rich_summary is None
            && !u.app.llm_detail_loading ==> press(u, KeyCode::Char('2')).app.detail_needs_reload,
        u.app.pr_detail is None || u.app.pr_detail->0.llm_rich_summary is Some
            || u.app.llm_detail_loading ==> press(u, KeyCode::Char('2')).app.detail_needs_reload
            == u.app.detail_needs_reload,
        ({
            let files = u.app.render_cache.diff_file_boundaries;
            let i = u.pane.selected_file_index as int;
            i < files.len() && files[i] <= u.pane.diff_scroll.limit() ==> press(
                u,
                KeyCode::Char('5'),
            ).pane.diff_scroll.offset == files[i]
        }),
{
    lemma_char(u, '4');
    lemma_char(u, '2');
    lemma_char(u, '5');
    reveal(Ui::char_key);
    reveal(Ui::blade_changed);
}

} // verus!
