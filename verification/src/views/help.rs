//! The keybinding help modal.
use vstd::prelude::*;

use crate::component::RenderContext;
use crate::draw::{
    blank, copy_lines, fg, fill_op, less, lines_view, min, new_lines, no_lines, push_line, raw_row,
    row, sp, text_op, Color, DrawOp, Line, OpView, Rect, Scene, SpanView, Style,
};
use crate::layout::{block_inner, inset};
use crate::primitives::{clamp_scroll, range_end, scroll_clamped, visible_range};
use crate::text::{joined, repeated};
use crate::theme::{BASE, INBOX, MANTLE, SUBTEXT0, TEXT};
use crate::views::text::pad_right;

verus! {

/// A bordered, titled popup over the body: its cells reset, filled and framed.
pub open spec fn popup_ops(popup: Rect, title: Seq<char>) -> Seq<OpView> {
    seq![
        (OpView::Clear { area: popup }),
        fill_op(popup, BASE),
        (OpView::Panel {
            area: popup,
            border: fg(INBOX),
            style: fg(TEXT).bg(MANTLE),
            title: Some(raw_row(title)),
        }),
    ]
}

/// Draws a bordered, titled popup and gives its inside.
pub fn render_popup(scene: &mut Scene, popup: Rect, title: &str) -> (r: Rect)
    ensures
        r == inset(popup),
        final(scene)@ == old(scene)@ + popup_ops(popup, title@),
{
    scene.clear(popup);
    scene.fill(popup, BASE);
    scene.push(
        DrawOp::Panel {
            area: popup,
            border: fg(INBOX),
            style: fg(TEXT).bg(MANTLE),
            title: Some(Line::raw(title)),
        },
    );
    proof {
        assert(scene@ =~= old(scene)@ + popup_ops(popup, title@));
    }
    block_inner(popup)
}

/// The rows of a scrolled list that are in view.
pub open spec fn window(lines: Seq<Seq<SpanView>>, height: int, scroll: int) -> Seq<Seq<SpanView>> {
    lines.subrange(
        scroll_clamped(lines.len() as int, height, scroll),
        range_end(lines.len() as int, height, scroll),
    )
}

/// The rows of a scrolled list that are in view.
pub fn visible_lines(lines: &Vec<Line>, height: u16, scroll: usize) -> (r: Vec<Line>)
    ensures
        lines_view(r@) == window(lines_view(lines@), height as int, scroll as int),
{
    proof {
        assert(lines_view(lines@).len() == lines@.len());
    }
    let range = visible_range(lines.len(), height as usize, scroll);
    copy_lines(lines, range.start, range.end)
}

/// A rectangle of at most 70 by 24 cells in the middle of `area`, leaving a
/// margin where it can.
pub open spec fn help_area(area: Rect) -> Rect {
    let width = min(
        70,
        if area.width <= 5 {
            1
        } else {
            area.width - 4
        },
    );
    let height = min(
        24,
        if area.height <= 3 {
            1
        } else {
            area.height - 2
        },
    );
    Rect {
        x: (area.x + less(area.width as int, width) / 2) as u16,
        y: (area.y + less(area.height as int, height) / 2) as u16,
        width: width as u16,
        height: height as u16,
    }
}

/// The help modal lies within its area, and in the middle of it.
pub proof fn help_lies_within(area: Rect)
    requires
        area.wf(),
        area.width > 0,
        area.height > 0,
    ensures
        ({
            let popup = help_area(area);
            let left = popup.x - area.x;
            let right = area.x + area.width - (popup.x + popup.width);
            let above = popup.y - area.y;
            let below = area.y + area.height - (popup.y + popup.height);
            &&& 0 <= left <= right <= left + 1
            &&& 0 <= above <= below <= above + 1
        }),
{
}

fn help_rect(area: Rect) -> (r: Rect)
    requires
        area.wf(),
    ensures
        r == help_area(area),
{
    let w: u16 = if area.width <= 5 {
        1
    } else {
        area.width - 4
    };
    let h: u16 = if area.height <= 3 {
        1
    } else {
        area.height - 2
    };
    let width: u16 = if w < 70 {
        w
    } else {
        70
    };
    let height: u16 = if h < 24 {
        h
    } else {
        24
    };
    Rect {
        x: area.x + area.width.saturating_sub(width) / 2,
        y: area.y + area.height.saturating_sub(height) / 2,
        width,
        height,
    }
}

pub open spec fn section_title(title: Seq<char>) -> Seq<SpanView> {
    row(title, fg(INBOX).bold())
}

/// One key and its action: the key column padded to a fixed width.
pub open spec fn binding_row(key: Seq<char>, action: Seq<char>) -> Seq<SpanView> {
    blank().push(
        sp("  "@ + key + repeated(' ', less(12, key.len() as int) as nat), fg(TEXT).bold()),
    ).push(sp(action, fg(SUBTEXT0)))
}

/// The rows of the help modal.
pub open spec fn help_rows() -> Seq<Seq<SpanView>> {
    let global = no_lines().push(row("j/k scroll · ? / esc / q close"@, fg(SUBTEXT0).dim())).push(
        blank(),
    ).push(section_title("Global"@)).push(binding_row("q"@, "quit"@)).push(
        binding_row("r / R"@, "refresh"@),
    ).push(binding_row("c"@, "config"@)).push(binding_row("w"@, "setup wizard"@)).push(
        binding_row("o"@, "open in browser"@),
    ).push(binding_row("/"@, "filter inbox"@)).push(binding_row("1–5"@, "jump to blade"@)).push(
        binding_row("← → / h l"@, "move between blades"@),
    ).push(binding_row("esc"@, "step out / back"@)).push(binding_row("?"@, "toggle this help"@)).push(
        blank(),
    );
    let inbox = global.push(section_title("Inbox"@)).push(binding_row("j / k"@, "move cursor"@)).push(
        binding_row("g / G"@, "first / last"@),
    ).push(binding_row("^d / ^u"@, "half-page"@)).push(binding_row("space"@, "fold section"@)).push(
        binding_row("⏎"@, "open PR / fold header"@),
    ).push(blank());
    let overview = inbox.push(section_title("Overview"@)).push(
        binding_row("tab / S-tab"@, "cycle section"@),
    ).push(binding_row("d"@, "expand description"@)).push(
        binding_row("j / k"@, "scroll section"@),
    ).push(blank());
    let activity = overview.push(section_title("Activity"@)).push(
        binding_row("j / k"@, "scroll"@),
    ).push(binding_row("g / G"@, "top / bottom"@)).push(binding_row("^d / ^u"@, "half-page"@)).push(
        blank(),
    );
    let files = activity.push(section_title("Files"@)).push(binding_row("j / k"@, "move"@)).push(
        binding_row("⏎"@, "view diff"@),
    ).push(blank());
    let diff = files.push(section_title("Diff"@)).push(binding_row("n"@, "line numbers"@)).push(
        binding_row("f, tab/S-tab"@, "next / prev file"@),
    ).push(binding_row("g / G"@, "top / bottom"@)).push(binding_row("^d / ^u"@, "page"@)).push(
        blank(),
    );
    diff.push(section_title("Filter overlay"@)).push(binding_row("⏎"@, "accept"@)).push(
        binding_row("esc"@, "cancel"@),
    ).push(binding_row("⌫"@, "delete char"@))
}

fn section(lines: &mut Vec<Line>, title: &str)
    ensures
        lines_view(final(lines)@) == lines_view(old(lines)@).push(section_title(title@)),
{
    push_line(lines, Line::styled(title, fg(INBOX).bold()));
}

fn binding(lines: &mut Vec<Line>, key: &str, action: &str)
    ensures
        lines_view(final(lines)@) == lines_view(old(lines)@).push(binding_row(key@, action@)),
{
    let line = Line::empty().with(
        joined("  ", pad_right(key, 12).as_str()).as_str(),
        fg(TEXT).bold(),
    ).with(action, fg(SUBTEXT0));
    proof {
        assert("  "@ + (key@ + repeated(' ', less(12, key@.len() as int) as nat)) =~= "  "@ + key@
            + repeated(' ', less(12, key@.len() as int) as nat));
    }
    push_line(lines, line);
}

pub fn help_lines() -> (r: Vec<Line>)
    ensures
        lines_view(r@) == help_rows(),
{
    let mut lines = new_lines();
    push_line(&mut lines, Line::styled("j/k scroll · ? / esc / q close", fg(SUBTEXT0).dim()));
    push_line(&mut lines, Line::empty());
    section(&mut lines, "Global");
    binding(&mut lines, "q", "quit");
    binding(&mut lines, "r / R", "refresh");
    binding(&mut lines, "c", "config");
    binding(&mut lines, "w", "setup wizard");
    binding(&mut lines, "o", "open in browser");
    binding(&mut lines, "/", "filter inbox");
    binding(&mut lines, "1–5", "jump to blade");
    binding(&mut lines, "← → / h l", "move between blades");
    binding(&mut lines, "esc", "step out / back");
    binding(&mut lines, "?", "toggle this help");
    push_line(&mut lines, Line::empty());
    section(&mut lines, "Inbox");
    binding(&mut lines, "j / k", "move cursor");
    binding(&mut lines, "g / G", "first / last");
    binding(&mut lines, "^d / ^u", "half-page");
    binding(&mut lines, "space", "fold section");
    binding(&mut lines, "⏎", "open PR / fold header");
    push_line(&mut lines, Line::empty());
    section(&mut lines, "Overview");
    binding(&mut lines, "tab / S-tab", "cycle section");
    binding(&mut lines, "d", "expand description");
    binding(&mut lines, "j / k", "scroll section");
    push_line(&mut lines, Line::empty());
    section(&mut lines, "Activity");
    binding(&mut lines, "j / k", "scroll");
    binding(&mut lines, "g / G", "top / bottom");
    binding(&mut lines, "^d / ^u", "half-page");
    push_line(&mut lines, Line::empty());
    section(&mut lines, "Files");
    binding(&mut lines, "j / k", "move");
    binding(&mut lines, "⏎", "view diff");
    push_line(&mut lines, Line::empty());
    section(&mut lines, "Diff");
    binding(&mut lines, "n", "line numbers");
    binding(&mut lines, "f, tab/S-tab", "next / prev file");
    binding(&mut lines, "g / G", "top / bottom");
    binding(&mut lines, "^d / ^u", "page");
    push_line(&mut lines, Line::empty());
    section(&mut lines, "Filter overlay");
    binding(&mut lines, "⏎", "accept");
    binding(&mut lines, "esc", "cancel");
    binding(&mut lines, "⌫", "delete char");
    lines
}

#[verifier::opaque]
pub open spec fn help_ops(area: Rect, scroll: usize) -> Seq<OpView> {
    let popup = help_area(area);
    popup_ops(popup, " Help "@).push(
        text_op(
            inset(popup),
            window(help_rows(), inset(popup).height as int, scroll as int),
            fg(TEXT).bg(MANTLE),
        ),
    )
}

/// Render the keybinding help modal: a centered overlay with a two-column
/// table, grouped by scope, scrolled by `help_scroll`.
pub fn render_help(scene: &mut Scene, area: Rect, ctx: &RenderContext)
    requires
        area.wf(),
    ensures
        final(scene)@ == old(scene)@ + help_ops(area, ctx.state.help_scroll),
{
    proof {
        reveal(help_ops);
    }
    let popup = help_rect(area);
    let inner = render_popup(scene, popup, " Help ");
    let lines = help_lines();
    let visible = visible_lines(&lines, inner.height, ctx.state.help_scroll);
    scene.text(inner, visible, fg(TEXT).bg(MANTLE));
    proof {
        assert(scene@ =~= old(scene)@ + help_ops(area, ctx.state.help_scroll));
    }
}

} // verus!
