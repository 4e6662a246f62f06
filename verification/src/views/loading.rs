//! The overlay shown while the interface starts up.
use vstd::prelude::*;

use crate::app::{App, StartupPhase};
use crate::component::RenderContext;
use crate::draw::{
    blank, fg, less, new_lines, no_lines, push_line, raw_row, row, sp, Align, DrawOp, Line, OpView,
    Rect, Scene, SpanView,
};
use crate::layout::{block_inner, centered, centered_rect, inset};
use crate::theme::{INBOX, MANTLE, OVERLAY0, SUBTEXT0, TEXT};

verus! {

pub open spec fn dial(tick: u64) -> Seq<char> {
    let i = tick % 4;
    if i == 0 {
        "|"@
    } else if i == 1 {
        "/"@
    } else if i == 2 {
        "-"@
    } else {
        "\\"@
    }
}

fn spinner(tick: u64) -> (r: &'static str)
    ensures
        r@ == dial(tick),
{
    let i: u64 = tick % 4;
    if i == 0 {
        "|"
    } else if i == 1 {
        "/"
    } else if i == 2 {
        "-"
    } else {
        "\\"
    }
}

pub open spec fn phase_name(phase: StartupPhase) -> Seq<char> {
    match phase {
        StartupPhase::Starting => "Starting daemon"@,
        StartupPhase::Ready => "Ready"@,
    }
}

pub fn phase_label(phase: StartupPhase) -> (r: &'static str)
    ensures
        r@ == phase_name(phase),
{
    match phase {
        StartupPhase::Starting => "Starting daemon",
        StartupPhase::Ready => "Ready",
    }
}

/// Cells of the bar: as asked for, between twelve and forty-four.
pub open spec fn bar_cells(width: int) -> int {
    if width < 12 {
        12
    } else if width > 44 {
        44
    } else {
        width
    }
}

/// Cell `j` of a bar of `cells`: lit where it is among the seven cells from
/// the tick's place on, around the end.
pub open spec fn bar_cell(tick: u64, cells: int, j: int) -> char {
    let pos = tick as int % cells;
    let behind = if j >= pos {
        j - pos
    } else {
        j + cells - pos
    };
    if behind < 7 {
        '#'
    } else {
        '-'
    }
}

pub open spec fn bar_text(tick: u64, width: int) -> Seq<char> {
    let cells = bar_cells(width);
    seq!['['] + Seq::new(cells as nat, |j: int| bar_cell(tick, cells, j)) + seq![']']
}

pub fn progress_bar(tick: u64, width: usize) -> (r: String)
    ensures
        r@ == bar_text(tick, width as int),
{
    let cells: u64 = if width < 12 {
        12
    } else if width > 44 {
        44
    } else {
        width as u64
    };
    let ghost run = Seq::new(cells as nat, |j: int| bar_cell(tick, cells as int, j));
    let pos: u64 = tick % cells;
    let mut out = String::new();
    out.push('[');
    let mut j: u64 = 0;
    proof {
        assert(out@ =~= seq!['['] + run.take(0));
    }
    while j < cells
        invariant
            j <= cells <= 44,
            cells >= 12,
            pos == tick % cells,
            pos < cells,
            run == Seq::new(cells as nat, |j: int| bar_cell(tick, cells as int, j)),
            out@ == seq!['['] + run.take(j as int),
        decreases cells - j,
    {
        let behind: u64 = if j >= pos {
            j - pos
        } else {
            j + cells - pos
        };
        out.push(
            if behind < 7 {
                '#'
            } else {
                '-'
            },
        );
        j += 1;
        proof {
            assert(out@ =~= seq!['['] + run.take(j as int));
        }
    }
    out.push(']');
    proof {
        assert(out@ =~= bar_text(tick, width as int));
    }
    out
}

/// The bar has the same length at every tick.
pub proof fn bar_keeps_its_width(a: u64, b: u64, width: int)
    ensures
        bar_text(a, width).len() == bar_text(b, width).len(),
        bar_text(a, width).len() == bar_cells(width) + 2,
        14 <= bar_text(a, width).len() <= 46,
{
}

/// The window of the bar starts at the tick's place and moves on with it.
pub proof fn bar_window_follows_tick(tick: u64, width: int, k: int)
    requires
        0 <= k < 7,
    ensures
        ({
            let cells = bar_cells(width);
            bar_cell(tick, cells, (tick as int % cells + k) % cells) == '#'
        }),
{
    let cells = bar_cells(width);
    let pos = tick as int % cells;
    let j = (pos + k) % cells;
    assert(j == if pos + k < cells {
        pos + k
    } else {
        pos + k - cells
    }) by (nonlinear_arith)
        requires
            0 <= pos < cells,
            0 <= k < 7,
            cells >= 12,
            j == (pos + k) % cells,
    ;
}

pub open spec fn loading_rows(a: App, width: int) -> Seq<Seq<SpanView>> {
    no_lines().push(blank()).push(
        blank().push(sp(dial(a.ui_tick), fg(INBOX).bold())).push(sp(" "@, fg(TEXT))).push(
            sp(phase_name(a.startup_phase), fg(TEXT).bold()),
        ),
    ).push(blank()).push(row(bar_text(a.ui_tick, less(width, 4)), fg(INBOX))).push(
        row("Starting daemon, checking setup, and loading PRs"@, fg(SUBTEXT0)),
    ).push(row("Press q to quit"@, fg(OVERLAY0)))
}

#[verifier::opaque]
pub open spec fn loading_ops(a: App, area: Rect) -> Seq<OpView> {
    let popup = centered(area, 52, 8);
    seq![
        (OpView::Clear { area: popup }),
        (OpView::Panel {
            area: popup,
            border: fg(INBOX),
            style: fg(TEXT).bg(MANTLE),
            title: Some(raw_row(" Brunson "@)),
        }),
        (OpView::Text {
            area: inset(popup),
            lines: loading_rows(a, inset(popup).width as int),
            style: fg(TEXT).bg(MANTLE),
            align: Align::Center,
            wrap: false,
            scroll: 0,
        }),
    ]
}

pub fn render_loading(scene: &mut Scene, area: Rect, ctx: &RenderContext)
    requires
        area.wf(),
    ensures
        final(scene)@ == old(scene)@ + loading_ops(ctx.state@, area),
{
    proof {
        reveal(loading_ops);
    }
    let popup = centered_rect(area, 52, 8);
    scene.clear(popup);
    scene.push(
        DrawOp::Panel {
            area: popup,
            border: fg(INBOX),
            style: fg(TEXT).bg(MANTLE),
            title: Some(Line::raw(" Brunson ")),
        },
    );
    let inner = block_inner(popup);
    let bar = progress_bar(ctx.state.ui_tick, inner.width.saturating_sub(4) as usize);
    let mut lines = new_lines();
    push_line(&mut lines, Line::empty());
    push_line(
        &mut lines,
        Line::empty().with(spinner(ctx.state.ui_tick), fg(INBOX).bold()).with(" ", fg(TEXT)).with(
            phase_label(ctx.state.startup_phase),
            fg(TEXT).bold(),
        ),
    );
    push_line(&mut lines, Line::empty());
    push_line(&mut lines, Line::styled(bar.as_str(), fg(INBOX)));
    push_line(
        &mut lines,
        Line::styled("Starting daemon, checking setup, and loading PRs", fg(SUBTEXT0)),
    );
    push_line(&mut lines, Line::styled("Press q to quit", fg(OVERLAY0)));
    scene.push(
        DrawOp::Text {
            area: inner,
            lines,
            style: fg(TEXT).bg(MANTLE),
            align: Align::Center,
            wrap: false,
            scroll: 0,
        },
    );
    proof {
        assert(scene@ =~= old(scene)@ + loading_ops(ctx.state@, area));
    }
}

} // verus!
