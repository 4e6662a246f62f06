//! The chrome around the blades: tab line, command line and keybar.
use vstd::prelude::*;

use crate::api::{PrDetailResponse, PrSummary};
use crate::app::{pr_with_id, App, AppState};
use crate::clock::{elapsed, format_stale_age, seconds_ago, stale_age_color, stale_label, Clock};
use crate::component::RenderContext;
use crate::daemon::SERVICE_NAME;
use crate::draw::{
    bg, blank, fg, less, line_op, max, min, row_text, sp, Color, Line, OpView, Rect, Scene,
    SpanView, Style,
};
use crate::state::{line_len, Pane};
use crate::text::{
    chars_of, decimal, decimal_string, joined, joined3, repeat_char, repeated, truncated,
    truncate_to_display_width,
};
use crate::theme::{
    Blade, BASE, ICON_PR, OVERLAY0, PENDING, SUBTEXT0, SURFACE0, TEXT,
};
use crate::views::overview::{chip_list, status_chip_data, Chip};

verus! {

/// The tabs of the first `n` blades: the active one bold in its accent, the
/// others dim behind the digit that jumps to them.
pub open spec fn tabs(active: Blade, n: int) -> Seq<SpanView>
    decreases n,
{
    if n <= 0 {
        blank().push(sp("  "@, bg(BASE)))
    } else {
        let i = n - 1;
        let blade = Blade::from_index(i as usize);
        let before = if i > 0 {
            tabs(active, i).push(sp("   "@, bg(BASE)))
        } else {
            tabs(active, i)
        };
        if blade == active {
            before.push(sp(blade.name_spec(), fg(blade.accent()).bg(BASE).bold()))
        } else {
            before.push(
                sp(decimal((i + 1) as nat) + " "@ + blade.name_spec(), fg(OVERLAY0).bg(BASE)),
            )
        }
    }
}

fn tab_spans(active: Blade) -> (r: Line)
    ensures
        r@ == tabs(active, 5),
{
    let mut line = Line::empty();
    line.push("  ", bg(BASE));
    let mut i: usize = 0;
    while i < 5
        invariant
            i <= 5,
            line@ == tabs(active, i as int),
        decreases 5 - i,
    {
        let blade = Blade::from_index(i);
        if i > 0 {
            line.push("   ", bg(BASE));
        }
        if blade == active {
            line.push(blade.name(), fg(blade.accent()).bg(BASE).bold());
        } else {
            let label = joined3(decimal_string((i + 1) as u64).as_str(), " ", blade.name());
            line.push(label.as_str(), fg(OVERLAY0).bg(BASE));
        }
        i += 1;
    }
    line
}

/// Whether a refresh is under way: as the daemon says, or as the interface
/// does while the daemon has not answered.
pub open spec fn refresh_active(a: App) -> bool {
    match a.health {
        Some(h) => h.refresh_in_progress,
        None => a.loading,
    }
}

/// The timestamp of the data: the daemon's last poll, else that of the list.
pub open spec fn data_timestamp(a: App) -> Option<Seq<char>> {
    let listed = if a.prs.updated_at@.len() == 0 {
        None
    } else {
        Some(a.prs.updated_at@)
    };
    match a.health {
        Some(h) => match h.last_poll_at {
            Some(s) if s@.len() > 0 => Some(s@),
            _ => listed,
        },
        None => listed,
    }
}

/// How many seconds old the data is.
pub open spec fn data_age(a: App, clock: Clock) -> Option<i64> {
    match data_timestamp(a) {
        Some(t) => seconds_ago(t, clock.now),
        None => None,
    }
}

pub open spec fn data_age_label(ago: Option<i64>) -> Seq<char> {
    match ago {
        Some(secs) => stale_label(secs as int),
        None => "—"@,
    }
}

/// The frame of the spinner at a tick.
pub open spec fn spinner_frame(tick: u64) -> Seq<char> {
    let i = tick % 10;
    if i == 0 {
        "⠋"@
    } else if i == 1 {
        "⠙"@
    } else if i == 2 {
        "⠹"@
    } else if i == 3 {
        "⠸"@
    } else if i == 4 {
        "⠼"@
    } else if i == 5 {
        "⠴"@
    } else if i == 6 {
        "⠦"@
    } else if i == 7 {
        "⠧"@
    } else if i == 8 {
        "⠇"@
    } else {
        "⠏"@
    }
}

/// Return a single-character spinner frame for the current animation tick.
pub fn refresh_spinner(tick: u64) -> (r: &'static str)
    ensures
        r@ == spinner_frame(tick),
{
    let i: u64 = tick % 10;
    if i == 0 {
        "⠋"
    } else if i == 1 {
        "⠙"
    } else if i == 2 {
        "⠹"
    } else if i == 3 {
        "⠸"
    } else if i == 4 {
        "⠼"
    } else if i == 5 {
        "⠴"
    } else if i == 6 {
        "⠦"
    } else if i == 7 {
        "⠧"
    } else if i == 8 {
        "⠇"
    } else {
        "⠏"
    }
}

/// The spinner comes round every ten ticks.
pub proof fn spinner_cycles(tick: u64)
    requires
        tick <= u64::MAX - 10,
    ensures
        spinner_frame((tick + 10) as u64) == spinner_frame(tick),
{
}

/// The right-hand end of the tab line: spinner while refreshing, age of the
/// data, and clock.
pub open spec fn tab_meta(a: App, ago: Option<i64>, hhmm: Seq<char>) -> Seq<SpanView> {
    let label = data_age_label(ago);
    let color = stale_age_color(ago);
    let head = if refresh_active(a) {
        blank().push(sp(spinner_frame(a.ui_tick), fg(PENDING).bg(BASE).bold())).push(
            sp(" "@ + label, fg(color).bg(BASE).dim()),
        )
    } else {
        blank().push(sp(label, fg(color).bg(BASE).dim()))
    };
    head.push(sp("  "@ + hhmm + " "@, fg(OVERLAY0).bg(BASE).dim()))
}

fn find_data_age(state: &AppState, clock: &Clock) -> (r: Option<i64>)
    ensures
        r == data_age(state@, *clock),
{
    if let Some(h) = &state.health {
        if let Some(s) = &h.last_poll_at {
            if !s.as_str().is_empty() {
                return elapsed(s.as_str(), clock.now);
            }
        }
    }
    if state.prs.updated_at.as_str().is_empty() {
        None
    } else {
        elapsed(state.prs.updated_at.as_str(), clock.now)
    }
}

/// Build the right-hand meta for the tab line from the age of the data and the
/// wall clock.
pub fn tab_meta_line(state: &AppState, ago: Option<i64>, hhmm: &str) -> (r: Line)
    ensures
        r@ == tab_meta(state@, ago, hhmm@),
{
    let label = match ago {
        Some(secs) => format_stale_age(secs),
        None => "—".to_owned(),
    };
    let color = stale_age_color(ago);
    let active = match &state.health {
        Some(h) => h.refresh_in_progress,
        None => state.loading,
    };
    let mut line = Line::empty();
    if active {
        line.push(refresh_spinner(state.ui_tick), fg(PENDING).bg(BASE).bold());
        line.push(joined(" ", label.as_str()).as_str(), fg(color).bg(BASE).dim());
    } else {
        line.push(label.as_str(), fg(color).bg(BASE).dim());
    }
    line.push(joined3("  ", hhmm, " ").as_str(), fg(OVERLAY0).bg(BASE).dim());
    line
}

/// The right-hand meta for the tab line, and the characters it takes.
pub fn tab_meta_spans(state: &AppState, clock: &Clock) -> (r: (Line, usize))
    ensures
        r.0@ == tab_meta(state@, data_age(state@, *clock), clock.hhmm@),
        r.1 == min(row_text(r.0@).len() as int, usize::MAX as int),
{
    let line = tab_meta_line(state, find_data_age(state, clock), clock.hhmm.as_str());
    let width: usize = line_len(&line);
    (line, width)
}

/// Blanks between the two ends of the tab line, at least one.
pub open spec fn tab_gap(width: int, used: int, meta: int) -> int {
    max(less(width, used + meta), 1)
}

/// The tab line.
pub open spec fn tab_line(active: Blade, meta: Seq<SpanView>, width: int) -> Seq<SpanView> {
    let left = tabs(active, 5);
    let gap = tab_gap(width, row_text(left).len() as int, row_text(meta).len() as int);
    left.push(sp(repeated(' ', gap as nat), bg(BASE))) + meta
}

/// What the tab line draws.
#[verifier::opaque]
pub open spec fn tab_op(a: App, blade: Blade, clock: Clock, area: Rect) -> OpView {
    line_op(
        area,
        tab_line(blade, tab_meta(a, data_age(a, clock), clock.hhmm@), area.width as int),
        bg(BASE),
    )
}

fn append_line(line: &mut Line, more: &Line)
    ensures
        final(line)@ == old(line)@ + more@,
{
    let mut i: usize = 0;
    proof {
        assert(line@ =~= old(line)@ + more@.take(0));
    }
    while i < more.spans.len()
        invariant
            i <= more.spans@.len(),
            line@ == old(line)@ + more@.take(i as int),
        decreases more.spans@.len() - i,
    {
        line.push_span(more.spans[i].copy());
        i += 1;
        proof {
            assert(line@ =~= old(line)@ + more@.take(i as int));
        }
    }
    proof {
        assert(more@.take(more@.len() as int) =~= more@);
    }
}

/// Render the top tab line: one entry per blade on the left, a right-aligned
/// refresh spinner, data-age indicator, and clock.
pub fn render_tab_line(scene: &mut Scene, area: Rect, ctx: &RenderContext)
    ensures
        final(scene)@ == old(scene)@.push(
            tab_op(ctx.state@, ctx.view.active_blade, *ctx.clock, area),
        ),
{
    proof {
        reveal(tab_op);
    }
    let mut line = tab_spans(ctx.view.active_blade);
    let used: usize = line_len(&line);
    let (meta, meta_width) = tab_meta_spans(ctx.state, ctx.clock);
    let mut gap: usize = (area.width as usize).saturating_sub(used.saturating_add(meta_width));
    if gap < 1 {
        gap = 1;
    }
    line.push(repeat_char(' ', gap).as_str(), bg(BASE));
    append_line(&mut line, &meta);
    scene.line(area, line, bg(BASE));
}

/// Characters that the first `n` chips take, each behind a separator.
pub open spec fn chips_width(chips: Seq<(Seq<char>, Color)>, n: int) -> nat
    decreases n,
{
    if n <= 0 {
        0
    } else {
        chips_width(chips, n - 1) + 3 + chips[n - 1].0.len()
    }
}

/// Whether the chips are shown: on sixty columns or more.
pub open spec fn chips_shown(width: int, chips: Seq<(Seq<char>, Color)>) -> bool {
    width >= 60 && chips.len() > 0
}

/// Columns for the title, at least one: the chips reserve theirs first.
pub open spec fn title_columns(width: int, suffix: int, chips: Seq<(Seq<char>, Color)>) -> int {
    let reserved = 3 + suffix + if chips_shown(width, chips) {
        chips_width(chips, chips.len() as int) as int
    } else {
        0
    };
    max(less(width, reserved), 1)
}

/// Pure width budget for the command line: chips reserve their width first,
/// the title truncates to the remainder, and chips are dropped entirely on
/// narrow areas. Returns whether chips are shown, and the title's width.
pub fn command_line_budget(area_width: u16, blade_suffix_width: usize, chips: &Vec<Chip>) -> (r: (
    bool,
    usize,
))
    ensures
        r.0 == chips_shown(area_width as int, chip_list(chips@)),
        r.1 == title_columns(area_width as int, blade_suffix_width as int, chip_list(chips@)),
{
    let ghost list = chip_list(chips@);
    let mut total: usize = 0;
    let mut i: usize = 0;
    while i < chips.len()
        invariant
            i <= chips@.len(),
            list == chip_list(chips@),
            total == min(chips_width(list, i as int) as int, usize::MAX as int),
        decreases chips@.len() - i,
    {
        proof {
            assert(list[i as int].0 == chips@[i as int].text@);
        }
        total = total.saturating_add(3).saturating_add(
            chars_of(chips[i].text.as_str()).len(),
        );
        i += 1;
    }
    let show = area_width >= 60 && chips.len() > 0;
    let mut reserved: usize = blade_suffix_width.saturating_add(3);
    if show {
        reserved = reserved.saturating_add(total);
    }
    let room: usize = (area_width as usize).saturating_sub(reserved);
    (
        show,
        if room < 1 {
            1
        } else {
            room
        },
    )
}

/// `line` with the first `n` chips behind it.
pub open spec fn with_chips(line: Seq<SpanView>, chips: Seq<(Seq<char>, Color)>, n: int) -> Seq<
    SpanView,
>
    decreases n,
{
    if n <= 0 {
        line
    } else {
        with_chips(line, chips, n - 1).push(sp(" · "@, fg(OVERLAY0).bg(BASE))).push(
            sp(chips[n - 1].0, fg(chips[n - 1].1).bg(BASE).bold()),
        )
    }
}

/// The command line.
pub open spec fn command_row(
    title: Seq<char>,
    blade_name: Seq<char>,
    accent: Color,
    chips: Seq<(Seq<char>, Color)>,
    width: int,
) -> Seq<SpanView> {
    let suffix = " · "@ + blade_name;
    let room = title_columns(width, suffix.len() as int, chips);
    let line = blank().push(sp("❯ "@, fg(TEXT).dim())).push(
        sp(truncated(title, room as nat), fg(TEXT).dim()),
    ).push(sp(suffix, fg(accent)));
    if chips_shown(width, chips) {
        with_chips(line, chips, chips.len() as int)
    } else {
        line
    }
}

/// Build the command-line spans from resolved inputs.
pub fn command_line_spans(
    title: &str,
    blade_name: &str,
    accent: Color,
    chips: &Vec<Chip>,
    width: u16,
) -> (r: Line)
    ensures
        r@ == command_row(title@, blade_name@, accent, chip_list(chips@), width as int),
{
    let suffix = joined(" · ", blade_name);
    let (show, room) = command_line_budget(width, chars_of(suffix.as_str()).len(), chips);
    let shown = truncate_to_display_width(title, room);
    let mut line = Line::empty();
    line.push("❯ ", fg(TEXT).dim());
    line.push(shown.as_str(), fg(TEXT).dim());
    line.push(suffix.as_str(), fg(accent));
    let ghost start = line@;
    let ghost list = chip_list(chips@);
    if show {
        let mut i: usize = 0;
        while i < chips.len()
            invariant
                i <= chips@.len(),
                list == chip_list(chips@),
                line@ == with_chips(start, list, i as int),
            decreases chips@.len() - i,
        {
            proof {
                assert(list[i as int] == (chips@[i as int].text@, chips@[i as int].color));
            }
            line.push(" · ", fg(OVERLAY0).bg(BASE));
            line.push(chips[i].text.as_str(), fg(chips[i].color).bg(BASE).bold());
            i += 1;
        }
        proof {
            assert(list.len() == chips@.len());
        }
    }
    line
}

pub open spec fn pr_title(number: u64, title: Seq<char>) -> Seq<char> {
    ICON_PR@ + " #"@ + decimal(number as nat) + " "@ + title
}

/// What the command line names: the loaded pull request, else the selected
/// one, else the service.
pub open spec fn command_title(a: App) -> Seq<char> {
    match a.pr_detail {
        Some(d) => pr_title(d.number, d.title@),
        None => match a.selected_pr_id {
            Some(id) => match pr_with_id(a.prs.groups, id) {
                Some(pr) => pr_title(pr.number, pr.title@),
                None => SERVICE_NAME@,
            },
            None => SERVICE_NAME@,
        },
    }
}

fn make_title(number: u64, title: &str) -> (r: String)
    ensures
        r@ == pr_title(number, title@),
{
    joined3(
        joined3(ICON_PR, " #", decimal_string(number).as_str()).as_str(),
        " ",
        title,
    )
}

/// The chips of the loaded pull request.
pub open spec fn command_chips(a: App) -> Seq<(Seq<char>, Color)> {
    match a.pr_detail {
        Some(d) => crate::views::overview::chips_of(d),
        None => Seq::empty(),
    }
}

/// What the command line draws.
#[verifier::opaque]
pub open spec fn command_op(a: App, blade: Blade, area: Rect) -> OpView {
    line_op(
        area,
        command_row(
            command_title(a),
            blade.name_spec(),
            blade.accent(),
            command_chips(a),
            area.width as int,
        ),
        bg(BASE),
    )
}

/// Render the statusline just above the keybar: number and title, blade, and
/// on wide terminals the review, merge and check chips.
pub fn render_command_line(scene: &mut Scene, area: Rect, ctx: &RenderContext)
    ensures
        final(scene)@ == old(scene)@.push(command_op(ctx.state@, ctx.view.active_blade, area)),
{
    proof {
        reveal(command_op);
    }
    let state = ctx.state;
    let title = match &state.pr_detail {
        Some(d) => make_title(d.number, d.title.as_str()),
        None => match state.selected_summary() {
            Some(pr) => make_title(pr.number, pr.title.as_str()),
            None => SERVICE_NAME.to_owned(),
        },
    };
    let chips = match &state.pr_detail {
        Some(d) => status_chip_data(d),
        None => Vec::new(),
    };
    proof {
        assert(chip_list(chips@) =~= command_chips(ctx.state@));
    }
    let line = command_line_spans(
        title.as_str(),
        ctx.view.active_blade.name(),
        ctx.view.active_blade.accent(),
        &chips,
        area.width,
    );
    scene.line(area, line, bg(BASE));
}

/// One binding: the key and what it does.
#[derive(Debug, Clone, Copy)]
pub struct KeyHint {
    pub key: &'static str,
    pub action: &'static str,
}

pub open spec fn hints(list: Seq<KeyHint>) -> Seq<(Seq<char>, Seq<char>)> {
    list.map_values(|h: KeyHint| (h.key@, h.action@))
}

fn hint(list: &mut Vec<KeyHint>, key: &'static str, action: &'static str)
    ensures
        hints(final(list)@) == hints(old(list)@).push((key@, action@)),
{
    list.push(KeyHint { key, action });
    proof {
        assert(hints(list@) =~= hints(old(list)@).push((key@, action@)));
    }
}

/// The bindings of each blade that the keybar shows.
pub open spec fn blade_hints(blade: Blade) -> Seq<(Seq<char>, Seq<char>)> {
    let none = Seq::<(Seq<char>, Seq<char>)>::empty();
    match blade {
        Blade::Inbox => none.push(("j/k"@, "move"@)).push(("g/G"@, "top/bot"@)).push(
            ("space"@, "fold"@),
        ).push(("⏎"@, "open"@)).push(("/"@, "filter"@)).push(("o"@, "browser"@)).push(
            ("^y"@, "copy branch"@),
        ).push(("r"@, "refresh"@)).push(("c"@, "config"@)).push(("?"@, "help"@)).push(
            ("q"@, "quit"@),
        ),
        Blade::Overview => none.push(("j/k"@, "scroll"@)).push(("tab"@, "section"@)).push(
            ("←/→"@, "blade"@),
        ).push(("o"@, "browser"@)).push(("?"@, "help"@)).push(("q"@, "quit"@)),
        Blade::Activity => none.push(("j/k"@, "event"@)).push(("g/G"@, "top/bot"@)).push(
            ("⏎/space"@, "expand"@),
        ).push(("y"@, "copy comment"@)).push(("o"@, "open event"@)).push(("←/→"@, "blade"@)).push(
            ("?"@, "help"@),
        ).push(("q"@, "quit"@)),
        Blade::Files => none.push(("j/k"@, "move"@)).push(("⏎"@, "diff"@)).push(
            ("←/→"@, "blade"@),
        ).push(("?"@, "help"@)).push(("q"@, "quit"@)),
        Blade::Diff => none.push(("j/k"@, "scroll"@)).push(("g/G"@, "top/bot"@)).push(
            ("n"@, "numbers"@),
        ).push(("tab"@, "file"@)).push(("^d/^u"@, "page"@)).push(("?"@, "help"@)).push(
            ("q"@, "quit"@),
        ),
    }
}

fn no_hints() -> (r: Vec<KeyHint>)
    ensures
        hints(r@) == Seq::<(Seq<char>, Seq<char>)>::empty(),
{
    let r: Vec<KeyHint> = Vec::new();
    proof {
        assert(hints(r@) =~= Seq::empty());
    }
    r
}

/// Blade-specific key hints.
pub fn blade_keys(blade: Blade) -> (r: Vec<KeyHint>)
    ensures
        hints(r@) == blade_hints(blade),
{
    let mut k = no_hints();
    match blade {
        Blade::Inbox => {
            hint(&mut k, "j/k", "move");
            hint(&mut k, "g/G", "top/bot");
            hint(&mut k, "space", "fold");
            hint(&mut k, "⏎", "open");
            hint(&mut k, "/", "filter");
            hint(&mut k, "o", "browser");
            hint(&mut k, "^y", "copy branch");
            hint(&mut k, "r", "refresh");
            hint(&mut k, "c", "config");
            hint(&mut k, "?", "help");
            hint(&mut k, "q", "quit");
        },
        Blade::Overview => {
            hint(&mut k, "j/k", "scroll");
            hint(&mut k, "tab", "section");
            hint(&mut k, "←/→", "blade");
            hint(&mut k, "o", "browser");
            hint(&mut k, "?", "help");
            hint(&mut k, "q", "quit");
        },
        Blade::Activity => {
            hint(&mut k, "j/k", "event");
            hint(&mut k, "g/G", "top/bot");
            hint(&mut k, "⏎/space", "expand");
            hint(&mut k, "y", "copy comment");
            hint(&mut k, "o", "open event");
            hint(&mut k, "←/→", "blade");
            hint(&mut k, "?", "help");
            hint(&mut k, "q", "quit");
        },
        Blade::Files => {
            hint(&mut k, "j/k", "move");
            hint(&mut k, "⏎", "diff");
            hint(&mut k, "←/→", "blade");
            hint(&mut k, "?", "help");
            hint(&mut k, "q", "quit");
        },
        Blade::Diff => {
            hint(&mut k, "j/k", "scroll");
            hint(&mut k, "g/G", "top/bot");
            hint(&mut k, "n", "numbers");
            hint(&mut k, "tab", "file");
            hint(&mut k, "^d/^u", "page");
            hint(&mut k, "?", "help");
            hint(&mut k, "q", "quit");
        },
    }
    k
}

/// Every blade shows how to get help and how to quit.
pub proof fn every_blade_shows_help_and_quit(blade: Blade)
    ensures
        blade_hints(blade).len() >= 5,
        blade_hints(blade)[blade_hints(blade).len() - 1] == ("q"@, "quit"@),
        blade_hints(blade).contains(("?"@, "help"@)),
{
    let k = blade_hints(blade);
    match blade {
        Blade::Inbox => assert(k[9] == ("?"@, "help"@)),
        Blade::Overview => assert(k[4] == ("?"@, "help"@)),
        Blade::Activity => assert(k[6] == ("?"@, "help"@)),
        Blade::Files => assert(k[3] == ("?"@, "help"@)),
        Blade::Diff => assert(k[5] == ("?"@, "help"@)),
    }
}

/// The bindings that the keybar shows: the inspector's while it is open, else
/// those of the blade.
pub open spec fn shown_hints(a: App, blade: Blade) -> Seq<(Seq<char>, Seq<char>)> {
    if a.show_config_view {
        Seq::<(Seq<char>, Seq<char>)>::empty().push(("j/k"@, "scroll"@)).push(
            ("R"@, "reload"@),
        ).push(("c/esc"@, "close"@)).push(("q"@, "quit"@))
    } else {
        blade_hints(blade)
    }
}

/// The first `n` bindings in a row.
pub open spec fn hint_spans(list: Seq<(Seq<char>, Seq<char>)>, accent: Color, n: int) -> Seq<
    SpanView,
>
    decreases n,
{
    if n <= 0 {
        blank()
    } else {
        let before = hint_spans(list, accent, n - 1);
        let gapped = if n > 1 {
            before.push(sp("  "@, fg(SURFACE0).bg(BASE)))
        } else {
            before
        };
        gapped.push(sp(list[n - 1].0, fg(accent).bg(BASE).bold())).push(
            sp(" "@ + list[n - 1].1, fg(SUBTEXT0).bg(BASE).dim()),
        )
    }
}

/// What the keybar draws.
#[verifier::opaque]
pub open spec fn keybar_op(a: App, blade: Blade, area: Rect) -> OpView {
    line_op(
        area,
        hint_spans(shown_hints(a, blade), blade.accent(), shown_hints(a, blade).len() as int),
        bg(BASE),
    )
}

/// Render the persistent keybar at the bottom of the screen.
pub fn render_keybar(scene: &mut Scene, area: Rect, ctx: &RenderContext)
    ensures
        final(scene)@ == old(scene)@.push(keybar_op(ctx.state@, ctx.view.active_blade, area)),
{
    proof {
        reveal(keybar_op);
    }
    let accent = ctx.view.active_blade.accent();
    let keys = if ctx.state.show_config_view {
        let mut k = no_hints();
        hint(&mut k, "j/k", "scroll");
        hint(&mut k, "R", "reload");
        hint(&mut k, "c/esc", "close");
        hint(&mut k, "q", "quit");
        k
    } else {
        blade_keys(ctx.view.active_blade)
    };
    let ghost list = hints(keys@);
    let mut line = Line::empty();
    let mut i: usize = 0;
    while i < keys.len()
        invariant
            i <= keys@.len(),
            list == hints(keys@),
            line@ == hint_spans(list, accent, i as int),
        decreases keys@.len() - i,
    {
        proof {
            assert(list[i as int] == (keys@[i as int].key@, keys@[i as int].action@));
        }
        if i > 0 {
            line.push("  ", fg(SURFACE0).bg(BASE));
        }
        line.push(keys[i].key, fg(accent).bg(BASE).bold());
        line.push(joined(" ", keys[i].action).as_str(), fg(SUBTEXT0).bg(BASE).dim());
        i += 1;
    }
    proof {
        assert(list.len() == keys@.len());
    }
    scene.line(area, line, bg(BASE));
}

} // verus!
