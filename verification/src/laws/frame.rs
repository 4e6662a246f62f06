//! The frame: tabs, status line, key bar, overlays and scrolled rows.
use vstd::prelude::*;

use crate::api::{PrDetailResponse, PrSummary};
use crate::app::{pr_with_id, App, StartupPhase};
use crate::clock::{seconds_ago, stale_label, Clock};
use crate::daemon::SERVICE_NAME;
use crate::draw::{row_text, OpView, Rect, SpanView, Style};
use crate::frame::{blade_ops, overlay_ops};
use crate::laws::events::listed;
use crate::laws::overview::drawn;
use crate::primitives::{viewport_ops, wrapped_text};
use crate::state::Pane;
use crate::text::{begins_with, contained, decimal, text_columns};
use crate::theme::{Blade, ACTIVITY, DIFF, FAIL, FILES, ICON_PR, INBOX, OVERVIEW, PENDING};
use crate::views::chrome::{
    command_chips, command_row, command_title, data_age, hint_spans, shown_hints, tab_meta, tabs,
};
use crate::views::config::config_ops;
use crate::views::help::help_ops;
use crate::views::loading::loading_ops;
use crate::views::search::search_ops;
use crate::views::toast::toast_shown;

verus! {

/// What a tab says: the name of its blade, behind the digit that leads to it
/// unless it is the one shown.
pub open spec fn tab_text(active: Blade, blade: Blade, digit: nat, name: Seq<char>) -> Seq<char> {
    if active == blade {
        name
    } else {
        decimal(digit) + " "@ + name
    }
}

/// The tab line shows the five blades from left to right, each with the digit
/// that leads to it, and the one shown in its own colour.
pub proof fn tabs_name_the_blades(active: Blade)
    ensures
        ({
            let line = tabs(active, 5);
            &&& line.len() == 10
            &&& line[1].text == tab_text(active, Blade::Inbox, 1, "inbox"@)
            &&& line[3].text == tab_text(active, Blade::Overview, 2, "overview"@)
            &&& line[5].text == tab_text(active, Blade::Activity, 3, "activity"@)
            &&& line[7].text == tab_text(active, Blade::Files, 4, "files"@)
            &&& line[9].text == tab_text(active, Blade::Diff, 5, "diff"@)
            &&& active == Blade::Inbox ==> line[1].style.fg == Some(INBOX) && line[1].style.bold
            &&& active == Blade::Overview ==> line[3].style.fg == Some(OVERVIEW)
                && line[3].style.bold
            &&& active == Blade::Activity ==> line[5].style.fg == Some(ACTIVITY)
                && line[5].style.bold
            &&& active == Blade::Files ==> line[7].style.fg == Some(FILES) && line[7].style.bold
            &&& active == Blade::Diff ==> line[9].style.fg == Some(DIFF) && line[9].style.bold
        }),
{
    reveal_with_fuel(tabs, 6);
}

/// The right end of the tab line shows how old the data is, and the clock; a
/// spinner stands before them while a refresh is under way, as the daemon says
/// or, while it has not answered, as the interface does.
pub proof fn tab_line_tells_the_age(a: App, ago: Option<i64>, hhmm: Seq<char>)
    ensures
        ({
            let meta = tab_meta(a, ago, hhmm);
            let busy = (a.health is Some && a.health->0.refresh_in_progress) || (a.health is None
                && a.loading);
            let label = match ago {
                Some(secs) => stale_label(secs as int),
                None => "—"@,
            };
            &&& busy <==> meta.len() == 3
            &&& !busy <==> meta.len() == 2
            &&& !busy ==> meta[0].text == label
            &&& busy ==> meta[1].text == " "@ + label
            &&& meta.last().text == "  "@ + hhmm + " "@
            &&& ago is Some && ago->0 < 300 ==> meta[meta.len() - 2].style.fg == Some(
                crate::theme::SUBTEXT0,
            )
            &&& ago is Some && 300 <= ago->0 < 900 ==> meta[meta.len() - 2].style.fg == Some(
                PENDING,
            )
            &&& ago is Some && ago->0 >= 900 ==> meta[meta.len() - 2].style.fg == Some(FAIL)
        }),
{
}

/// The data is as old as the daemon's last poll, or as the list where that is
/// not known.
pub proof fn data_is_as_old_as_its_poll(a: App, clock: Clock)
    ensures
        a.health is Some && a.health->0.last_poll_at is Some && a.health->0.last_poll_at->0@.len()
            > 0 ==> data_age(a, clock) == seconds_ago(a.health->0.last_poll_at->0@, clock.now),
        (a.health is None || a.health->0.last_poll_at is None) && a.prs.updated_at@.len() > 0
            ==> data_age(a, clock) == seconds_ago(a.prs.updated_at@, clock.now),
        (a.health is None || a.health->0.last_poll_at is None) && a.prs.updated_at@.len() == 0
            ==> data_age(a, clock) is None,
{
}

/// Whether a text gives the number and the title of a pull request.
pub open spec fn titled(p: PrSummary, text: Seq<char>) -> bool {
    text == ICON_PR@ + " #"@ + decimal(p.number as nat) + " "@ + p.title@
}

/// The status line names the pull request that is loaded, else the selected
/// one, else the service.
pub proof fn status_line_names_the_pull_request(a: App, id: Seq<char>)
    ensures
        a.pr_detail matches Some(d) ==> command_title(a) == ICON_PR@ + " #"@ + decimal(
            d.number as nat,
        ) + " "@ + d.title@,
        a.pr_detail is None && a.selected_pr_id == Some(id) && listed(a.prs.groups, id)
            ==> exists|p: PrSummary| #[trigger]
            titled(p, command_title(a)) && p.id@ == id,
        a.pr_detail is None && a.selected_pr_id == Some(id) && !listed(a.prs.groups, id)
            ==> command_title(a) == SERVICE_NAME@,
        a.pr_detail is None && a.selected_pr_id is None ==> command_title(a) == SERVICE_NAME@,
{
    crate::laws::events::lookup_finds_what_is_listed(a.prs.groups, id);
    if pr_with_id(a.prs.groups, id) is Some {
        let p = pr_with_id(a.prs.groups, id)->0;
        assert(a.pr_detail is None && a.selected_pr_id == Some(id) ==> titled(p, command_title(a)));
    }
}

/// The status line shows the title, then the blade; with room, the chips of
/// the pull request behind them, in their order.
pub proof fn status_line_shows_title_and_blade(
    title: Seq<char>,
    name: Seq<char>,
    accent: crate::draw::Color,
    a: App,
    width: int,
)
    ensures
        ({
            let line = command_row(title, name, accent, command_chips(a), width);
            &&& line.len() >= 3
            &&& line[2].text == " · "@ + name && line[2].style.fg == Some(accent)
            &&& width < 60 || a.pr_detail is None ==> line.len() == 3
            &&& width >= 60 && a.pr_detail is Some ==> {
                let c = crate::views::overview::chips_of(a.pr_detail->0);
                &&& line.len() == 9
                &&& line[4].text == c[0].0 && line[6].text == c[1].0 && line[8].text == c[2].0
                &&& line[4].style.fg == Some(c[0].1) && line[6].style.fg == Some(c[1].1)
                    && line[8].style.fg == Some(c[2].1)
            }
        }),
{
    reveal_with_fuel(crate::views::chrome::with_chips, 4);
}

proof fn lemma_hints(
    list: Seq<(Seq<char>, Seq<char>)>,
    accent: crate::draw::Color,
    n: int,
)
    requires
        0 <= n <= list.len(),
    ensures
        n > 0 ==> hint_spans(list, accent, n).len() == 3 * n - 1,
        n == 0 ==> hint_spans(list, accent, n).len() == 0,
        forall|k: int|
            #![trigger list[k]]
            0 <= k < n ==> hint_spans(list, accent, n)[3 * k].text == list[k].0 && hint_spans(
                list,
                accent,
                n,
            )[3 * k + 1].text == " "@ + list[k].1,
    decreases n,
{
    if n > 0 {
        lemma_hints(list, accent, n - 1);
        let before = hint_spans(list, accent, n - 1);
        let all = hint_spans(list, accent, n);
        assert forall|k: int| #![trigger list[k]] 0 <= k < n implies all[3 * k].text == list[k].0
            && all[3 * k + 1].text == " "@ + list[k].1 by {
            if k < n - 1 {
                assert(all[3 * k] == before[3 * k]);
                assert(all[3 * k + 1] == before[3 * k + 1]);
            }
        }
    }
}

/// The key bar shows every binding of the list, in its order: the key, then
/// what it does.
pub proof fn key_bar_shows_every_binding(
    list: Seq<(Seq<char>, Seq<char>)>,
    accent: crate::draw::Color,
    k: int,
)
    requires
        0 <= k < list.len(),
    ensures
        ({
            let line = hint_spans(list, accent, list.len() as int);
            &&& line.len() == 3 * list.len() - 1
            &&& line[3 * k].text == list[k].0
            &&& line[3 * k + 1].text == " "@ + list[k].1
        }),
{
    lemma_hints(list, accent, list.len() as int);
    assert(list[k] == list[k]);
}

/// Each blade tells the keys that it has, and the inspector its own.
pub proof fn key_bar_tells_the_keys(a: App, blade: Blade)
    ensures
        ({
            let k = shown_hints(a, blade);
            &&& k.len() > 0 && k.last() == ("q"@, "quit"@)
            &&& a.show_config_view ==> k[0] == ("j/k"@, "scroll"@) && k[1] == ("R"@, "reload"@)
                && k[2] == ("c/esc"@, "close"@)
            &&& !a.show_config_view && blade == Blade::Inbox ==> k[0] == ("j/k"@, "move"@) && k[1]
                == ("g/G"@, "top/bot"@) && k[2] == ("space"@, "fold"@) && k[3] == ("⏎"@, "open"@)
                && k[4] == ("/"@, "filter"@) && k[5] == ("o"@, "browser"@) && k[6] == (
                "^y"@,
                "copy branch"@,
            ) && k[7] == ("r"@, "refresh"@) && k[8] == ("c"@, "config"@)
            &&& !a.show_config_view && blade == Blade::Overview ==> k[0] == ("j/k"@, "scroll"@)
                && k[1] == ("tab"@, "section"@) && k[2] == ("←/→"@, "blade"@) && k[3] == (
                "o"@,
                "browser"@,
            )
            &&& !a.show_config_view && blade == Blade::Files ==> k[0] == ("j/k"@, "move"@) && k[1]
                == ("⏎"@, "diff"@) && k[2] == ("←/→"@, "blade"@)
            &&& !a.show_config_view && blade == Blade::Diff ==> k[0] == ("j/k"@, "scroll"@) && k[1]
                == ("g/G"@, "top/bot"@) && k[2] == ("n"@, "numbers"@) && k[3] == ("tab"@, "file"@)
                && k[4] == ("^d/^u"@, "page"@)
        }),
{
}

/// A viewport shows the rows from its offset on, as many as it has, or its last
/// rows where fewer are left.
pub proof fn viewport_shows_rows_from_its_offset(
    lines: Seq<Seq<SpanView>>,
    scroll: int,
    style: Style,
    bar: bool,
    area: Rect,
    k: int,
)
    requires
        area.wf(),
        area.width > 0,
        area.height > 0,
        scroll >= 0,
        0 <= k < area.height,
        k < lines.len(),
    ensures
        viewport_ops(lines, scroll, style, bar, area).len() >= 2,
        viewport_ops(lines, scroll, style, bar, area)[1] matches OpView::Text {
            lines: shown,
            ..
        } && k < shown.len() <= area.height && (scroll + area.height <= lines.len() ==> shown[k]
            == lines[scroll + k]) && (lines.len() <= area.height ==> shown[k] == lines[k]) && (
        scroll + area.height > lines.len() && lines.len() > area.height ==> shown[k]
            == lines[lines.len() - area.height + k]),
{
    let ops = viewport_ops(lines, scroll, style, bar, area);
    let from = crate::primitives::scroll_clamped(lines.len() as int, area.height as int, scroll);
    let to = crate::primitives::range_end(lines.len() as int, area.height as int, scroll);
    assert(!area.is_empty());
    let content = if bar && lines.len() > area.height {
        Rect::new(
            area.x,
            area.y,
            crate::draw::less(area.width as int, 1) as u16,
            area.height,
        )
    } else {
        area
    };
    assert(content.height == area.height);
    assert(ops[1] == crate::draw::text_op(content, lines.subrange(from, to), style));
    assert(lines.subrange(from, to)[k] == lines[from + k]);
}

/// A message is told over the body: an error before any other, in its words,
/// red where it speaks of a failure. Without a message nothing is.
pub proof fn toast_tells_the_message(a: App, blade: Blade, area: Rect, m: Seq<char>)
    requires
        area.width >= 12,
        area.width <= 76,
        area.height >= 3,
    ensures
        a.error_message is None && a.transient_message is None ==> toast_shown(
            a,
            blade,
            area,
        ).len() == 0,
        a.error_message == Some(m) || (a.error_message is None && a.transient_message == Some(m))
            ==> {
            let ops = toast_shown(a, blade, area);
            let parts = wrapped_text(m, (area.width - 8) as usize);
            let color = if begins_with(m, "Help:"@) {
                blade.accent()
            } else if contained(crate::views::toast::lowered(m), "failed"@) || contained(
                crate::views::toast::lowered(m),
                "error"@,
            ) {
                FAIL
            } else {
                PENDING
            };
            &&& ops.len() == 4
            &&& ops[2] matches OpView::Panel { border, .. } && border.fg == Some(color)
            &&& ops[3] matches OpView::Text { lines, .. } && lines.len() == parts.len() && forall|
                k: int,
            |
                #![trigger parts[k]]
                0 <= k < parts.len() ==> row_text(lines[k]) == parts[k]
        },
{
    reveal(toast_shown);
    let parts = wrapped_text(m, (area.width - 8) as usize);
    assert forall|k: int| #![trigger parts[k]] 0 <= k < parts.len() implies row_text(
        crate::draw::row(
            parts[k],
            crate::draw::fg(crate::theme::TEXT).bg(crate::theme::MANTLE),
        ),
    ) == parts[k] by {
        crate::markdown::lemma_row_text_one(
            parts[k],
            crate::draw::fg(crate::theme::TEXT).bg(crate::theme::MANTLE),
        );
    }
}

/// An overlay is drawn exactly while it is open: the inspector, the filter, the
/// help and the startup screen.
pub proof fn overlays_are_drawn_while_open(a: App, p: Pane, queries: Seq<Seq<char>>, body: Rect)
    ensures
        ({
            let ops = overlay_ops(a, p, queries, body);
            let toast = toast_shown(a, p.active_blade, body);
            let started = a.startup_phase == StartupPhase::Ready;
            &&& !a.show_config_view && !a.show_search && !a.show_help && started ==> ops == toast
            &&& a.show_config_view && !a.show_search && !a.show_help && started ==> ops
                == config_ops(a, queries, body) + toast
            &&& !a.show_config_view && a.show_search && !a.show_help && started ==> ops
                == search_ops(body, a.search_filter) + toast
            &&& !a.show_config_view && !a.show_search && a.show_help && started ==> ops == help_ops(
                body,
                a.help_scroll,
            ) + toast
            &&& !a.show_config_view && !a.show_search && !a.show_help && !started ==> ops
                == loading_ops(a, body) + toast
        }),
{
    reveal(overlay_ops);
}

/// The filter overlay shows the filter as it is typed.
pub proof fn filter_overlay_shows_the_filter(area: Rect, filter: Seq<char>)
    ensures
        search_ops(area, filter).len() == 4,
        search_ops(area, filter)[3] matches OpView::Text { lines, .. } && lines.len() == 3
            && lines[0].len() == 3 && lines[0][0].text == "Filter: "@ && lines[0][2].text == "█"@,
        search_ops(area, filter)[3] matches OpView::Text { area: inner, lines, .. } && (
        text_columns("Filter: "@) + text_columns("█"@) + text_columns(filter) < inner.width
            ==> lines[0][1].text == filter),
{
    reveal(search_ops);
}

/// The blade that is shown is the active one.
pub proof fn active_blade_is_drawn(a: App, p: Pane, clock: Clock, body: Rect)
    requires
        body.width >= 8,
        body.height >= 3,
    ensures
        ({
            let ops = blade_ops(a, p, clock, body);
            let split = crate::layout::layout_rows(body, crate::views::inbox::header_and_body());
            &&& p.active_blade == Blade::Inbox ==> ops == crate::views::inbox::inbox_ops(
                a,
                p,
                clock.now,
                split,
            )
            &&& p.active_blade == Blade::Overview ==> ops == crate::views::overview::overview_ops(
                a,
                p,
                body,
                crate::layout::layout_rows(body, crate::views::overview::overview_constraints()),
            )
            &&& p.active_blade == Blade::Activity ==> ops == crate::views::activity::activity_ops(
                p,
                body,
            )
            &&& p.active_blade == Blade::Files ==> ops == crate::views::files::files_ops(
                a,
                p,
                split,
            )
            &&& p.active_blade == Blade::Diff ==> ops == crate::views::diff::diff_ops(
                a,
                p,
                body,
                split,
            )
        }),
{
    reveal(blade_ops);
}

/// The lists draw their rows through their own scrolling, and the diff says
/// that it is loading until it has come.
pub proof fn blades_draw_their_rows(a: App, p: Pane, area: Rect, rows: Seq<Rect>)
    ensures
        p.activity_display_lines.len() > 0 ==> drawn(
            crate::views::activity::activity_ops(p, area),
            viewport_ops(
                p.activity_display_lines,
                p.activity_scroll.offset as int,
                crate::draw::fg(crate::theme::TEXT).bg(crate::theme::MANTLE),
                false,
                area,
            ),
        ),
        a.pr_diff is Some ==> drawn(
            crate::views::diff::diff_ops(a, p, area, rows),
            viewport_ops(
                a.render_cache.diff_lines,
                p.diff_scroll.offset as int,
                crate::draw::fg(crate::theme::TEXT).bg(crate::theme::MANTLE),
                true,
                rows[1],
            ),
        ),
        a.pr_diff is None ==> crate::views::diff::diff_ops(a, p, area, rows).len() == 3,
        a.pr_detail is Some && a.pr_detail->0.files@.len() > 0 ==> drawn(
            crate::views::files::files_ops(a, p, rows),
            viewport_ops(
                crate::views::files::file_rows(
                    a.pr_detail->0,
                    p.selected_file_index,
                    rows[1].width,
                ),
                p.files_scroll.offset as int,
                crate::draw::fg(crate::theme::TEXT).bg(crate::theme::MANTLE),
                false,
                rows[1],
            ),
        ),
{
    reveal(crate::views::activity::activity_ops);
    reveal(crate::views::diff::diff_ops);
    reveal(crate::views::files::files_ops);
    let style = crate::draw::fg(crate::theme::TEXT).bg(crate::theme::MANTLE);
    let none = Seq::<OpView>::empty();
    let one = viewport_ops(
        p.activity_display_lines,
        p.activity_scroll.offset as int,
        style,
        false,
        area,
    );
    let two = viewport_ops(
        a.render_cache.diff_lines,
        p.diff_scroll.offset as int,
        style,
        true,
        rows[1],
    );
    let activity = crate::views::activity::activity_ops(p, area);
    let diff = crate::views::diff::diff_ops(a, p, area, rows);
    if p.activity_display_lines.len() > 0 {
        assert(activity.subrange(1, 1 + one.len() as int) =~= one);
    }
    if a.pr_diff is Some {
        assert(diff.subrange(2, 2 + two.len() as int) =~= two);
    }
    if a.pr_detail is Some && a.pr_detail->0.files@.len() > 0 {
        let three = viewport_ops(
            crate::views::files::file_rows(a.pr_detail->0, p.selected_file_index, rows[1].width),
            p.files_scroll.offset as int,
            style,
            false,
            rows[1],
        );
        let files = crate::views::files::files_ops(a, p, rows);
        assert(files.subrange(2, 2 + three.len() as int) =~= three);
    }
}

/// The head of the diff shows what the selected file adds and removes, and
/// which line of how many is in view.
pub proof fn diff_head_tells_file_and_line(a: App, p: Pane, d: PrDetailResponse, line: int)
    requires
        a.pr_detail == Some(d),
        p.selected_file_index < d.files@.len(),
        0 <= line < a.render_cache.diff_line_starts.len(),
        crate::views::diff::starts_upto(
            a.render_cache.diff_line_starts,
            p.diff_scroll.offset,
            0,
        ) == line + 1,
    ensures
        ({
            let head = crate::views::diff::diff_header(a, p);
            let f = d.files@[p.selected_file_index as int];
            &&& head.len() == 4
            &&& head[0].text == "+"@ + decimal(f.additions as nat)
            &&& head[2].text == "−"@ + decimal(f.deletions as nat)
            &&& head[3].text == "  line "@ + decimal((line + 1) as nat) + " / "@ + decimal(
                a.render_cache.diff_line_starts.len(),
            )
        }),
{
}

/// A toast has a row for each of its lines and its frame, as far as the body
/// has room for them.
pub proof fn toast_has_room_for_its_lines(lines: int, height: u16)
    requires
        lines >= 1,
    ensures
        lines + 4 <= height ==> crate::views::toast::toast_height(lines, height) == lines + 2,
        lines + 4 > height && height >= 5 ==> crate::views::toast::toast_height(lines, height)
            == height - 2,
{
}

} // verus!
