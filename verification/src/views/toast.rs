//! The toast: a message over the body.
use vstd::prelude::*;

use crate::app::App;
use crate::component::RenderContext;
use crate::draw::{
    bg, fg, fill_op, less, lines_view, max, min, new_lines, push_line, row, Align, Color, DrawOp,
    Line, OpView, Rect, Scene, SpanView,
};
use crate::layout::{block_inner, centered, centered_rect, inset};
use crate::primitives::{wrap_text, wrapped_text};
use crate::split::texts;
use crate::text::{begins_with, chars_of, contained, contains_text, has_prefix};
use crate::theme::{Blade, FAIL, MANTLE, PENDING, TEXT};

verus! {

/// Centered overlay layer that shows the error message, else the passing one,
/// over the body. The keybar is never replaced by it.
#[derive(Debug, Clone, Copy)]
pub struct InlineToast;

#[derive(Debug, Clone, Copy, PartialEq, Eq, Structural)]
pub enum ToastKind {
    Error,
    Info,
    Help,
}

/// A character with an ASCII capital made small.
pub open spec fn small(c: char) -> char {
    if 0x41 <= c as u32 <= 0x5a {
        ((c as u32 + 0x20) as u8) as char
    } else {
        c
    }
}

/// `s` with its ASCII capitals made small.
pub open spec fn lowered(s: Seq<char>) -> Seq<char> {
    s.map_values(|c: char| small(c))
}

fn make_small(c: char) -> (r: char)
    ensures
        r == small(c),
{
    let n: u32 = c as u32;
    if 0x41 <= n && n <= 0x5a {
        ((n + 0x20) as u8) as char
    } else {
        c
    }
}

fn lower_ascii(s: &str) -> (r: String)
    ensures
        r@ == lowered(s@),
{
    let chars = chars_of(s);
    let mut out = String::new();
    let mut i: usize = 0;
    proof {
        assert(out@ =~= lowered(s@).take(0));
    }
    while i < chars.len()
        invariant
            i <= chars@.len(),
            chars@ == s@,
            out@ == lowered(s@).take(i as int),
        decreases chars@.len() - i,
    {
        out.push(make_small(chars[i]));
        i += 1;
        proof {
            assert(out@ =~= lowered(s@).take(i as int));
        }
    }
    proof {
        assert(lowered(s@).take(s@.len() as int) =~= lowered(s@));
    }
    out
}

/// What kind of message a text is: help by its beginning, an error where it
/// speaks of one in any case of letters.
pub open spec fn kind_of(message: Seq<char>) -> ToastKind {
    if begins_with(message, "Help:"@) {
        ToastKind::Help
    } else if contained(lowered(message), "failed"@) || contained(lowered(message), "error"@) {
        ToastKind::Error
    } else {
        ToastKind::Info
    }
}

pub fn toast_kind(message: &str) -> (r: ToastKind)
    ensures
        r == kind_of(message@),
{
    if has_prefix(&chars_of(message), "Help:") {
        return ToastKind::Help;
    }
    let lower = lower_ascii(message);
    if contains_text(lower.as_str(), "failed") || contains_text(lower.as_str(), "error") {
        ToastKind::Error
    } else {
        ToastKind::Info
    }
}

#[verifier::allow_in_spec]
pub fn toast_color(kind: ToastKind, blade: Blade) -> Color
    returns
        (match kind {
            ToastKind::Error => FAIL,
            ToastKind::Info => PENDING,
            ToastKind::Help => blade.accent(),
        }),
{
    match kind {
        ToastKind::Error => FAIL,
        ToastKind::Info => PENDING,
        ToastKind::Help => blade.accent(),
    }
}

/// Columns of a toast over a body: eight to seventy-two.
pub open spec fn toast_width(width: u16) -> int {
    let w = less(width as int, 4);
    if w < 8 {
        8
    } else if w > 72 {
        72
    } else {
        w
    }
}

/// Rows of a toast of so many lines: its border and its lines as far as the
/// body has room, at least three.
pub open spec fn toast_height(lines: int, height: u16) -> int {
    max(min(lines + 2, less(height as int, 2)), 3)
}

/// What a toast draws, given the lines into which its message is broken.
pub open spec fn toast_ops(lines: Seq<Seq<char>>, color: Color, area: Rect) -> Seq<OpView> {
    let rect = centered(
        area,
        toast_width(area.width) as u16,
        toast_height(lines.len() as int, area.height) as u16,
    );
    seq![
        (OpView::Clear { area: rect }),
        fill_op(rect, MANTLE),
        (OpView::Panel { area: rect, border: fg(color).bg(MANTLE), style: bg(MANTLE), title: None }),
        (OpView::Text {
            area: inset(rect),
            lines: lines.map_values(|l: Seq<char>| row(l, fg(TEXT).bg(MANTLE))),
            style: bg(MANTLE),
            align: Align::Center,
            wrap: true,
            scroll: 0,
        }),
    ]
}

/// The message of the toast: an error first.
pub open spec fn toast_message(a: App) -> Option<Seq<char>> {
    match a.error_message {
        Some(m) => Some(m),
        None => a.transient_message,
    }
}

/// What is drawn over the body: nothing without a message or without room.
#[verifier::opaque]
pub open spec fn toast_shown(a: App, blade: Blade, area: Rect) -> Seq<OpView> {
    match toast_message(a) {
        Some(m) if area.width >= 8 && area.height >= 3 => toast_ops(
            wrapped_text(m, (toast_width(area.width) - 4) as usize),
            toast_color(kind_of(m), blade),
            area,
        ),
        _ => Seq::empty(),
    }
}

/// Draw a toast of lines that are broken already.
pub fn render_toast_lines(scene: &mut Scene, area: Rect, lines: &Vec<String>, color: Color)
    requires
        area.wf(),
    ensures
        final(scene)@ == old(scene)@ + toast_ops(texts(lines@), color, area),
{
    let space: u16 = area.width.saturating_sub(4);
    let width: u16 = if space < 8 {
        8
    } else if space > 72 {
        72
    } else {
        space
    };
    let limit: u16 = area.height.saturating_sub(2);
    let count: usize = lines.len();
    let mut height: u16 = if count < 65533 && (count as u16) + 2 < limit {
        count as u16 + 2
    } else {
        limit
    };
    if height < 3 {
        height = 3;
    }
    let rect = centered_rect(area, width, height);
    scene.clear(rect);
    scene.fill(rect, MANTLE);
    scene.push(
        DrawOp::Panel { area: rect, border: fg(color).bg(MANTLE), style: bg(MANTLE), title: None },
    );
    let ghost want = texts(lines@).map_values(|l: Seq<char>| row(l, fg(TEXT).bg(MANTLE)));
    let mut out = new_lines();
    let mut i: usize = 0;
    proof {
        assert(lines_view(out@) =~= want.take(0));
    }
    while i < lines.len()
        invariant
            i <= lines@.len(),
            want == texts(lines@).map_values(|l: Seq<char>| row(l, fg(TEXT).bg(MANTLE))),
            lines_view(out@) == want.take(i as int),
        decreases lines@.len() - i,
    {
        push_line(&mut out, Line::styled(lines[i].as_str(), fg(TEXT).bg(MANTLE)));
        i += 1;
        proof {
            assert(lines_view(out@) =~= want.take(i as int));
        }
    }
    proof {
        assert(want.take(want.len() as int) =~= want);
        assert(texts(lines@).len() == lines@.len());
    }
    scene.push(
        DrawOp::Text {
            area: block_inner(rect),
            lines: out,
            style: bg(MANTLE),
            align: Align::Center,
            wrap: true,
            scroll: 0,
        },
    );
    proof {
        assert(scene@ =~= old(scene)@ + toast_ops(texts(lines@), color, area));
    }
}

impl InlineToast {
    pub fn render(&self, scene: &mut Scene, area: Rect, ctx: &RenderContext)
        requires
            area.wf(),
        ensures
            final(scene)@ == old(scene)@ + toast_shown(ctx.state@, ctx.view.active_blade, area),
    {
        proof {
            reveal(toast_shown);
        }
        let message = match &ctx.state.error_message {
            Some(m) => Some(m.as_str()),
            None => match &ctx.state.transient_message {
                Some(m) => Some(m.as_str()),
                None => None,
            },
        };
        if let Some(m) = message {
            if area.width >= 8 && area.height >= 3 {
                let color = toast_color(toast_kind(m), ctx.view.active_blade);
                let space: u16 = area.width - 4;
                let width: u16 = if space < 8 {
                    8
                } else if space > 72 {
                    72
                } else {
                    space
                };
                let lines = wrap_text(m, (width - 4) as usize);
                render_toast_lines(scene, area, &lines, color);
                return;
            }
        }
        proof {
            assert(scene@ =~= old(scene)@ + toast_shown(
                ctx.state@,
                ctx.view.active_blade,
                area,
            ));
        }
    }
}

} // verus!
