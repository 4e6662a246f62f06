//! The inbox filter overlay.
use vstd::prelude::*;

use crate::component::RenderContext;
use crate::draw::{
    bg, blank, fg, less, max, min, new_lines, no_lines, push_line, row, text_op, Line, OpView, Rect,
    Scene,
};
use crate::layout::inset;
use crate::theme::{INBOX, MANTLE, SUBTEXT0, TEXT};
use crate::views::help::{popup_ops, render_popup};
use crate::views::text::{input_row, render_text_input_line};

verus! {

/// The overlay's place: at the bottom of the body, five rows high, with a
/// margin at both sides.
pub open spec fn search_area(area: Rect) -> Rect {
    let margin: int = if area.width >= 100 {
        8
    } else {
        2
    };
    Rect {
        x: min(area.x + margin, u16::MAX as int) as u16,
        y: min(area.y + less(area.height as int, 5), u16::MAX as int) as u16,
        width: max(less(area.width as int, margin * 2), 1) as u16,
        height: min(5, area.height as int) as u16,
    }
}

fn search_rect(area: Rect) -> (r: Rect)
    ensures
        r == search_area(area),
{
    let margin: u16 = if area.width >= 100 {
        8
    } else {
        2
    };
    let width: u16 = area.width.saturating_sub(margin * 2);
    Rect {
        x: area.x.saturating_add(margin),
        y: area.y.saturating_add(area.height.saturating_sub(5)),
        width: if width < 1 {
            1
        } else {
            width
        },
        height: if area.height < 5 {
            area.height
        } else {
            5
        },
    }
}

#[verifier::opaque]
pub open spec fn search_ops(area: Rect, filter: Seq<char>) -> Seq<OpView> {
    let popup = search_area(area);
    let inner = inset(popup);
    popup_ops(popup, " Filter "@).push(
        text_op(
            inner,
            no_lines().push(
                input_row(
                    "Filter: "@,
                    filter,
                    inner.width as int,
                    true,
                    fg(SUBTEXT0),
                    fg(TEXT),
                    fg(INBOX),
                ),
            ).push(blank()).push(
                row("Enter accept · Esc cancel · Backspace delete"@, fg(SUBTEXT0).dim()),
            ),
            bg(MANTLE),
        ),
    )
}

/// Render the inbox filter search overlay anchored just above the keybar.
pub fn render_search_overlay(scene: &mut Scene, area: Rect, ctx: &RenderContext)
    ensures
        final(scene)@ == old(scene)@ + search_ops(area, ctx.state@.search_filter),
{
    proof {
        reveal(search_ops);
    }
    let popup = search_rect(area);
    let inner = render_popup(scene, popup, " Filter ");
    let mut lines = new_lines();
    push_line(
        &mut lines,
        render_text_input_line(
            "Filter: ",
            ctx.state.search_filter.as_str(),
            inner.width,
            true,
            fg(SUBTEXT0),
            fg(TEXT),
            fg(INBOX),
        ),
    );
    push_line(&mut lines, Line::empty());
    push_line(
        &mut lines,
        Line::styled("Enter accept · Esc cancel · Backspace delete", fg(SUBTEXT0).dim()),
    );
    scene.text(inner, lines, bg(MANTLE));
    proof {
        assert(scene@ =~= old(scene)@ + search_ops(area, ctx.state@.search_filter));
    }
}

} // verus!
