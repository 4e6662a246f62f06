//! Building blocks of the views: surfaces, scrolling viewports, sections,
//! dividers and flowing text.
use vstd::prelude::*;

use crate::draw::{
    bg, copy_lines, fg, fill_op, less, line_op, lines_view, max, min, new_lines, no_lines,
    push_line, raw_row, sp, text_op, Color, DrawOp, Line, OpView, Rect, Scene, SpanView, Style,
};
use crate::layout::{block_inner, inset};
use crate::markdown::{markdown_lines, markdown_text_rows};
use crate::split::{split_lines, text_lines, texts};
use crate::text::{chars_of, joined, joined3, repeat_char, repeated, string_of};
use crate::theme::{BORDER, MANTLE, MUTED, SURFACE0, TEXT};

verus! {

/// A filled area with an optional border.
#[derive(Debug, Clone, Copy)]
pub struct Surface {
    pub bg: Color,
    pub border: Option<Color>,
}

pub open spec fn surface_ops(s: Surface, area: Rect) -> Seq<OpView> {
    let fill = seq![fill_op(area, s.bg)];
    match s.border {
        Some(border) => fill.push(
            OpView::Panel { area, border: fg(border).bg(s.bg), style: bg(s.bg), title: None },
        ),
        None => fill,
    }
}

impl Surface {
    pub fn new(bg: Color) -> (r: Self)
        ensures
            r == (Surface { bg, border: None }),
    {
        Surface { bg, border: None }
    }

    pub fn bordered(bg: Color, border: Color) -> (r: Self)
        ensures
            r == (Surface { bg, border: Some(border) }),
    {
        Surface { bg, border: Some(border) }
    }

    pub open spec fn inside(self, area: Rect) -> Rect {
        if self.border is Some {
            inset(area)
        } else {
            area
        }
    }

    pub fn inner(&self, area: Rect) -> (r: Rect)
        ensures
            r == self.inside(area),
    {
        if self.border.is_some() {
            block_inner(area)
        } else {
            area
        }
    }

    pub fn render(&self, scene: &mut Scene, area: Rect) -> (r: Rect)
        ensures
            r == self.inside(area),
            final(scene)@ == old(scene)@ + surface_ops(*self, area),
    {
        scene.fill(area, self.bg);
        match self.border {
            Some(border) => {
                scene.push(
                    DrawOp::Panel {
                        area,
                        border: fg(border).bg(self.bg),
                        style: bg(self.bg),
                        title: None,
                    },
                );
                proof {
                    assert(scene@ =~= old(scene)@ + surface_ops(*self, area));
                }
                block_inner(area)
            },
            None => {
                proof {
                    assert(scene@ =~= old(scene)@ + surface_ops(*self, area));
                }
                area
            },
        }
    }
}

/// The column, first row and height of a scrollbar's thumb.
#[derive(Debug, Clone, Copy, PartialEq, Eq, Structural)]
pub struct ScrollbarGeometry {
    pub x: u16,
    pub y: u16,
    pub height: u16,
}

/// The offset `requested`, or the greatest that still fills the viewport.
pub open spec fn scroll_clamped(content_len: int, viewport_height: int, requested: int) -> int {
    min(requested, less(content_len, viewport_height))
}

pub fn clamp_scroll(content_len: usize, viewport_height: usize, requested: usize) -> (r: usize)
    ensures
        r == scroll_clamped(content_len as int, viewport_height as int, requested as int),
{
    let limit: usize = content_len.saturating_sub(viewport_height);
    if requested < limit {
        requested
    } else {
        limit
    }
}

pub open spec fn range_end(content_len: int, viewport_height: int, requested: int) -> int {
    min(scroll_clamped(content_len, viewport_height, requested) + viewport_height, content_len)
}

/// The rows that a viewport shows.
pub fn visible_range(
    content_len: usize,
    viewport_height: usize,
    requested: usize,
) -> (r: std::ops::Range<usize>)
    ensures
        r.start == scroll_clamped(content_len as int, viewport_height as int, requested as int),
        r.end == range_end(content_len as int, viewport_height as int, requested as int),
        r.start <= r.end <= content_len,
{
    let start: usize = clamp_scroll(content_len, viewport_height, requested);
    let end: usize = if content_len - start < viewport_height {
        content_len
    } else {
        start + viewport_height
    };
    start..end
}

/// A viewport shows as many rows as it has, or all the rows there are.
pub proof fn viewport_is_filled(content_len: int, viewport_height: int, requested: int)
    requires
        0 <= content_len,
        0 <= viewport_height,
        0 <= requested,
    ensures
        range_end(content_len, viewport_height, requested) - scroll_clamped(
            content_len,
            viewport_height,
            requested,
        ) == min(viewport_height, content_len),
{
}

/// Height of the thumb: the share of the content that is in view, at least
/// one row.
pub open spec fn thumb_height(content_len: int, track: int) -> int {
    min(max((track * track) / content_len, 1), track)
}

/// Rows above the thumb, in proportion to the offset and rounded to the
/// nearest; none where the product leaves sixty-four bits.
pub open spec fn thumb_offset(content_len: int, track: int, requested: int) -> int {
    let limit = less(content_len, track);
    let scroll = min(requested, limit);
    let travel = track - thumb_height(content_len, track);
    if limit == 0 || scroll * travel + limit / 2 > u64::MAX {
        0
    } else {
        (scroll * travel + limit / 2) / limit
    }
}

pub open spec fn scrollbar(content_len: int, area: Rect, requested: int) -> Option<
    ScrollbarGeometry,
> {
    if area.height == 0 || area.width == 0 || content_len <= area.height {
        None
    } else {
        Some(
            ScrollbarGeometry {
                x: (area.right() - 1) as u16,
                y: (area.y + thumb_offset(content_len, area.height as int, requested)) as u16,
                height: thumb_height(content_len, area.height as int) as u16,
            },
        )
    }
}

proof fn lemma_thumb(content_len: int, track: int, requested: int)
    requires
        0 < track < content_len,
        track <= u16::MAX,
        0 <= requested,
    ensures
        1 <= thumb_height(content_len, track) <= track,
        0 <= thumb_offset(content_len, track, requested) <= track - thumb_height(
            content_len,
            track,
        ),
{
    let limit = content_len - track;
    let scroll = min(requested, limit);
    let travel = track - thumb_height(content_len, track);
    assert((track * track) / content_len >= 0) by (nonlinear_arith)
        requires
            track > 0,
            content_len > 0,
    ;
    assert(0 <= scroll * travel + limit / 2 && scroll * travel + limit / 2 < (travel + 1) * limit)
        by (nonlinear_arith)
        requires
            0 <= scroll <= limit,
            0 <= travel,
            limit > 0,
    ;
    let total = scroll * travel + limit / 2;
    assert(0 <= total / limit <= travel) by (nonlinear_arith)
        requires
            0 <= total < (travel + 1) * limit,
            limit > 0,
    ;
}

/// The thumb lies inside its track.
pub proof fn thumb_lies_in_track(content_len: int, area: Rect, requested: int)
    requires
        area.wf(),
        0 <= requested,
        scrollbar(content_len, area, requested) is Some,
    ensures
        area.y <= scrollbar(content_len, area, requested)->0.y,
        scrollbar(content_len, area, requested)->0.y + scrollbar(
            content_len,
            area,
            requested,
        )->0.height <= area.y + area.height,
        scrollbar(content_len, area, requested)->0.height >= 1,
{
    lemma_thumb(content_len, area.height as int, requested);
}

/// The thumb stands at the top for the first offset and at the bottom for the
/// last one, in the last column, and never moves up as the offset grows. It is
/// shown just where there is an area and the content is longer. Content is
/// counted up to thirty-two bits.
pub proof fn thumb_follows_scroll(content_len: int, area: Rect, a: int, b: int)
    requires
        area.wf(),
        0 <= a <= b,
        0 <= content_len <= u32::MAX,
    ensures
        scrollbar(content_len, area, a) is Some <==> area.width > 0 && area.height > 0
            && content_len > area.height,
        scrollbar(content_len, area, a) is Some ==> ({
            let first = scrollbar(content_len, area, a)->0;
            let second = scrollbar(content_len, area, b)->0;
            &&& first.x == area.right() - 1
            &&& first.height == second.height
            &&& first.y <= second.y
            &&& a == 0 ==> first.y == area.y
            &&& a >= content_len - area.height ==> first.y + first.height == area.y + area.height
        }),
{
    let track = area.height as int;
    if 0 < track < content_len {
        lemma_thumb(content_len, track, a);
        lemma_thumb(content_len, track, b);
        let limit = content_len - track;
        let travel = track - thumb_height(content_len, track);
        let low = min(a, limit);
        let high = min(b, limit);
        assert(high * travel <= u32::MAX * u16::MAX) by (nonlinear_arith)
            requires
                0 <= high <= u32::MAX,
                0 <= travel <= u16::MAX,
        ;
        assert(low * travel <= high * travel) by (nonlinear_arith)
            requires
                low <= high,
                0 <= travel,
        ;
        let x = low * travel + limit / 2;
        let y = high * travel + limit / 2;
        assert(x / limit <= y / limit) by (nonlinear_arith)
            requires
                x <= y,
                limit > 0,
        ;
        if a == 0 {
            assert(low * travel == 0) by (nonlinear_arith)
                requires
                    low == 0,
            ;
            assert((limit / 2) / limit == 0) by (nonlinear_arith)
                requires
                    limit > 0,
            ;
        }
        if a >= limit {
            assert((limit * travel + limit / 2) / limit == travel) by (nonlinear_arith)
                requires
                    limit > 0,
                    travel >= 0,
            ;
        }
    }
}

pub fn scrollbar_geometry(content_len: usize, area: Rect, requested: usize) -> (r: Option<
    ScrollbarGeometry,
>)
    requires
        area.wf(),
    ensures
        r == scrollbar(content_len as int, area, requested as int),
{
    if area.height == 0 || area.width == 0 || content_len <= area.height as usize {
        return None;
    }
    let track: usize = area.height as usize;
    proof {
        assert(track * track <= 65535 * 65535) by (nonlinear_arith)
            requires
                0 <= track <= 65535,
        ;
        lemma_thumb(content_len as int, track as int, requested as int);
    }
    let share: usize = (track * track) / content_len;
    let mut thumb: usize = if share > 1 {
        share
    } else {
        1
    };
    if thumb > track {
        thumb = track;
    }
    let limit: usize = content_len - track;
    let scroll: usize = if requested < limit {
        requested
    } else {
        limit
    };
    let travel: usize = track - thumb;
    proof {
        assert(scroll * travel >= 0) by (nonlinear_arith)
            requires
                0 <= scroll,
                0 <= travel,
        ;
    }
    let offset: u64 = match (scroll as u64).checked_mul(travel as u64) {
        Some(product) => match product.checked_add((limit / 2) as u64) {
            Some(sum) => sum / limit as u64,
            None => 0,
        },
        None => 0,
    };
    Some(
        ScrollbarGeometry {
            x: area.right() - 1,
            y: area.y + offset as u16,
            height: thumb as u16,
        },
    )
}

/// A window onto a list of rows.
pub struct ScrollViewport<'a> {
    pub lines: &'a Vec<Line>,
    pub scroll: usize,
    pub style: Style,
    pub show_scrollbar: bool,
}

/// The cells of column `x` from row `from` on, `n` of them.
pub open spec fn column_ops(x: u16, from: u16, n: int, symbol: char, style: Style) -> Seq<OpView> {
    Seq::new(n as nat, |i: int| OpView::Cell { x, y: (from + i) as u16, symbol, style })
}

pub open spec fn backdrop(style: Style) -> Color {
    match style.bg {
        Some(c) => c,
        None => MANTLE,
    }
}

/// What a viewport draws.
pub open spec fn viewport_ops(
    lines: Seq<Seq<SpanView>>,
    scroll: int,
    style: Style,
    show_scrollbar: bool,
    area: Rect,
) -> Seq<OpView> {
    let fill = seq![fill_op(area, backdrop(style))];
    if area.is_empty() {
        fill
    } else {
        let content = if show_scrollbar && lines.len() > area.height {
            Rect::new(area.x, area.y, less(area.width as int, 1) as u16, area.height)
        } else {
            area
        };
        let from = scroll_clamped(lines.len() as int, content.height as int, scroll);
        let to = range_end(lines.len() as int, content.height as int, scroll);
        let body = fill.push(text_op(content, lines.subrange(from, to), style));
        match scrollbar(lines.len() as int, area, scroll) {
            Some(thumb) if show_scrollbar => body + column_ops(
                thumb.x,
                area.y,
                area.height as int,
                '│',
                fg(MUTED).bg(backdrop(style)),
            ) + column_ops(
                thumb.x,
                thumb.y,
                thumb.height as int,
                '█',
                fg(TEXT).bg(backdrop(style)),
            ),
            _ => body,
        }
    }
}

fn render_column(scene: &mut Scene, x: u16, from: u16, n: u16, symbol: char, style: Style)
    requires
        from + n <= u16::MAX,
    ensures
        final(scene)@ == old(scene)@ + column_ops(x, from, n as int, symbol, style),
{
    let mut i: u16 = 0;
    proof {
        assert(scene@ =~= old(scene)@ + column_ops(x, from, 0, symbol, style));
    }
    while i < n
        invariant
            i <= n,
            from + n <= u16::MAX,
            scene@ == old(scene)@ + column_ops(x, from, i as int, symbol, style),
        decreases n - i,
    {
        scene.cell(x, from + i, symbol, style);
        i += 1;
        proof {
            assert(scene@ =~= old(scene)@ + column_ops(x, from, i as int, symbol, style));
        }
    }
}

impl<'a> ScrollViewport<'a> {
    pub fn new(lines: &'a Vec<Line>, scroll: usize) -> (r: Self)
        ensures
            r.lines@ == lines@,
            r.scroll == scroll,
            r.style == fg(TEXT).bg(MANTLE),
            !r.show_scrollbar,
    {
        ScrollViewport { lines, scroll, style: fg(TEXT).bg(MANTLE), show_scrollbar: false }
    }

    pub fn style(self, style: Style) -> (r: Self)
        ensures
            r == (ScrollViewport { style, ..self }),
    {
        ScrollViewport { style, ..self }
    }

    pub fn scrollbar(self, show: bool) -> (r: Self)
        ensures
            r == (ScrollViewport { show_scrollbar: show, ..self }),
    {
        ScrollViewport { show_scrollbar: show, ..self }
    }

    pub fn clamped_scroll(&self, height: u16) -> (r: usize)
        ensures
            r == scroll_clamped(self.lines@.len() as int, height as int, self.scroll as int),
    {
        clamp_scroll(self.lines.len(), height as usize, self.scroll)
    }

    pub fn visible_range(&self, height: u16) -> (r: std::ops::Range<usize>)
        ensures
            r.start == scroll_clamped(self.lines@.len() as int, height as int, self.scroll as int),
            r.end == range_end(self.lines@.len() as int, height as int, self.scroll as int),
            r.start <= r.end <= self.lines@.len(),
    {
        visible_range(self.lines.len(), height as usize, self.scroll)
    }

    pub fn scrollbar_geometry(&self, area: Rect) -> (r: Option<ScrollbarGeometry>)
        requires
            area.wf(),
        ensures
            r == scrollbar(self.lines@.len() as int, area, self.scroll as int),
    {
        scrollbar_geometry(self.lines.len(), area, self.scroll)
    }

    pub fn render(&self, scene: &mut Scene, area: Rect)
        requires
            area.wf(),
        ensures
            final(scene)@ == old(scene)@ + viewport_ops(
                lines_view(self.lines@),
                self.scroll as int,
                self.style,
                self.show_scrollbar,
                area,
            ),
    {
        let back = match self.style.bg {
            Some(c) => c,
            None => MANTLE,
        };
        let ghost want = viewport_ops(
            lines_view(self.lines@),
            self.scroll as int,
            self.style,
            self.show_scrollbar,
            area,
        );
        scene.fill(area, back);
        if area.is_empty() {
            proof {
                assert(scene@ =~= old(scene)@ + want);
            }
            return;
        }
        let content = if self.show_scrollbar && self.lines.len() > area.height as usize {
            Rect::new(area.x, area.y, area.width.saturating_sub(1), area.height)
        } else {
            area
        };
        let range = self.visible_range(content.height);
        let visible = copy_lines(self.lines, range.start, range.end);
        scene.text(content, visible, self.style);
        proof {
            assert(lines_view(self.lines@).len() == self.lines@.len());
        }
        let ghost body = seq![fill_op(area, back)].push(
            text_op(content, lines_view(visible@), self.style),
        );
        proof {
            assert(scene@ =~= old(scene)@ + body);
        }
        if self.show_scrollbar {
            if let Some(thumb) = self.scrollbar_geometry(area) {
                proof {
                    thumb_lies_in_track(self.lines@.len() as int, area, self.scroll as int);
                }
                render_column(scene, thumb.x, area.y, area.height, '│', fg(MUTED).bg(back));
                render_column(scene, thumb.x, thumb.y, thumb.height, '█', fg(TEXT).bg(back));
            }
        }
        proof {
            assert(scene@ =~= old(scene)@ + want);
        }
    }
}

/// A titled, bordered pane that can be folded.
pub struct Section<'a> {
    pub title: &'a str,
    pub lines: &'a Vec<Line>,
    pub scroll: usize,
    pub collapsed: bool,
    pub focused: bool,
}

pub open spec fn section_ops(s: Section<'_>, area: Rect) -> Seq<OpView> {
    let frame = surface_ops(
        Surface {
            bg: MANTLE,
            border: Some(
                if s.focused {
                    TEXT
                } else {
                    BORDER
                },
            ),
        },
        area,
    );
    if area.width < 2 || area.height < 2 {
        frame
    } else {
        let marker = if s.collapsed {
            "▸ "@
        } else {
            "▾ "@
        };
        let title = line_op(
            Rect::new((area.x + 1) as u16, area.y, less(area.width as int, 2) as u16, 1),
            seq![
                sp(marker, fg(MUTED).bg(MANTLE)),
                sp(s.title@, fg(TEXT).bg(MANTLE).bold()),
            ],
            bg(MANTLE),
        );
        if !s.collapsed && area.height > 2 {
            frame.push(title) + viewport_ops(
                lines_view(s.lines@),
                s.scroll as int,
                fg(TEXT).bg(MANTLE),
                true,
                section_body(area),
            )
        } else {
            frame.push(title)
        }
    }
}

pub open spec fn section_body(area: Rect) -> Rect {
    Rect::new(
        (area.x + 1) as u16,
        (area.y + 1) as u16,
        less(area.width as int, 2) as u16,
        less(area.height as int, 2) as u16,
    )
}

impl<'a> Section<'a> {
    pub fn new(title: &'a str, lines: &'a Vec<Line>) -> (r: Self)
        ensures
            r.title@ == title@,
            r.lines@ == lines@,
            r.scroll == 0,
            !r.collapsed,
            !r.focused,
    {
        Section { title, lines, scroll: 0, collapsed: false, focused: false }
    }

    pub fn render(&self, scene: &mut Scene, area: Rect)
        requires
            area.wf(),
        ensures
            final(scene)@ == old(scene)@ + section_ops(*self, area),
    {
        let border = if self.focused {
            TEXT
        } else {
            BORDER
        };
        let _ = Surface::bordered(MANTLE, border).render(scene, area);
        if area.width < 2 || area.height < 2 {
            return;
        }
        let title_area = Rect::new(area.x + 1, area.y, area.width.saturating_sub(2), 1);
        let marker = if self.collapsed {
            "▸ "
        } else {
            "▾ "
        };
        let line = Line::empty().with(marker, fg(MUTED).bg(MANTLE)).with(
            self.title,
            fg(TEXT).bg(MANTLE).bold(),
        );
        let ghost so_far = scene@;
        proof {
            assert(line@ =~= seq![
                sp(marker@, fg(MUTED).bg(MANTLE)),
                sp(self.title@, fg(TEXT).bg(MANTLE).bold()),
            ]);
        }
        scene.line(title_area, line, bg(MANTLE));
        if !self.collapsed && area.height > 2 {
            let body = Rect::new(
                area.x + 1,
                area.y + 1,
                area.width.saturating_sub(2),
                area.height.saturating_sub(2),
            );
            ScrollViewport::new(self.lines, self.scroll).style(fg(TEXT).bg(MANTLE)).scrollbar(
                true,
            ).render(scene, body);
        }
        proof {
            assert(scene@ =~= old(scene)@ + section_ops(*self, area));
        }
    }
}

/// The lines into which a text is broken at a width.
pub uninterp spec fn wrapped_text(text: Seq<char>, width: usize) -> Seq<Seq<char>>;

/// Wraps `textwrap::wrap` with its default options. The lines depend on the
/// text and the width alone.
#[verifier::external_body]
pub(crate) fn wrap_text(text: &str, width: usize) -> (r: Vec<String>)
    ensures
        texts(r@) == wrapped_text(text@, width),
{
    textwrap::wrap(text, width).into_iter().map(|line| line.into_owned()).collect()
}

pub struct TextFlow;

/// One unstyled row for each line.
pub open spec fn raw_rows(lines: Seq<Seq<char>>) -> Seq<Seq<SpanView>> {
    lines.map_values(|l: Seq<char>| raw_row(l))
}

/// One unstyled row for each line of `texts`.
pub fn rows_of(lines: &Vec<String>) -> (r: Vec<Line>)
    ensures
        lines_view(r@) == raw_rows(texts(lines@)),
{
    let mut out = new_lines();
    let mut i: usize = 0;
    proof {
        assert(lines_view(out@) =~= raw_rows(texts(lines@)).take(0));
    }
    while i < lines.len()
        invariant
            i <= lines@.len(),
            lines_view(out@) == raw_rows(texts(lines@)).take(i as int),
        decreases lines@.len() - i,
    {
        push_line(&mut out, Line::raw(lines[i].as_str()));
        i += 1;
        proof {
            assert(lines_view(out@) =~= raw_rows(texts(lines@)).take(i as int));
        }
    }
    proof {
        assert(lines_view(out@) =~= raw_rows(texts(lines@)));
    }
    out
}

impl TextFlow {
    /// Wraps a text into rows; none at width zero.
    pub fn wrap(text: &str, width: usize) -> (r: Vec<Line>)
        ensures
            lines_view(r@) == if width == 0 {
                no_lines()
            } else {
                raw_rows(wrapped_text(text@, width))
            },
    {
        if width == 0 {
            return new_lines();
        }
        rows_of(&wrap_text(text, width))
    }

    pub fn markdown(text: &str, width: usize) -> (r: Vec<Line>)
        ensures
            lines_view(r@) == markdown_text_rows(text@, width as int),
    {
        markdown_lines(text, width)
    }
}

/// A horizontal rule with an optional label.
#[derive(Debug, Clone)]
pub struct Divider {
    pub label: Option<String>,
    pub color: Color,
}

impl Default for Divider {
    fn default() -> (r: Self)
        ensures
            r.label is None,
            r.color == SURFACE0,
    {
        Divider { label: None, color: SURFACE0 }
    }
}

/// The characters of a divider: a rule, broken near its start by the label.
pub open spec fn divider_text(label: Seq<char>, width: nat) -> Seq<char> {
    if label.len() == 0 {
        repeated('─', width)
    } else {
        ("─ "@ + label + " "@ + repeated('─', width)).take(width as int)
    }
}

impl Divider {
    pub fn new() -> (r: Self)
        ensures
            r.label is None,
            r.color == SURFACE0,
    {
        Divider { label: None, color: SURFACE0 }
    }

    pub fn labeled(label: String) -> (r: Self)
        ensures
            r.label == Some(label),
            r.color == SURFACE0,
    {
        Divider { label: Some(label), color: SURFACE0 }
    }

    pub open spec fn label_text(self) -> Seq<char> {
        match self.label {
            Some(l) => l@,
            None => Seq::empty(),
        }
    }

    pub open spec fn ops(self, area: Rect) -> Seq<OpView> {
        let fill = seq![fill_op(area, MANTLE)];
        if area.is_empty() {
            fill
        } else {
            fill.push(
                text_op(
                    area,
                    raw_rows(text_lines(divider_text(self.label_text(), area.width as nat))),
                    fg(self.color).bg(MANTLE),
                ),
            )
        }
    }

    pub fn render(&self, scene: &mut Scene, area: Rect)
        ensures
            final(scene)@ == old(scene)@ + self.ops(area),
    {
        scene.fill(area, MANTLE);
        if area.is_empty() {
            proof {
                assert(scene@ =~= old(scene)@ + self.ops(area));
            }
            return;
        }
        let label = match &self.label {
            Some(l) => l.as_str(),
            None => "",
        };
        proof {
            reveal_strlit("");
            assert(label@ =~= self.label_text());
        }
        let width: usize = area.width as usize;
        let rule = repeat_char('─', width);
        let text = if label.is_empty() {
            rule
        } else {
            let decorated = joined(joined3("─ ", label, " ").as_str(), rule.as_str());
            let chars = chars_of(decorated.as_str());
            proof {
                assert(chars@.subrange(0, width as int) =~= chars@.take(width as int));
            }
            string_of(&chars, 0, width)
        };
        scene.text(area, rows_of(&split_lines(text.as_str())), fg(self.color).bg(MANTLE));
        proof {
            assert(scene@ =~= old(scene)@ + self.ops(area));
        }
    }
}

/// A divider is exactly as long as its area is wide.
pub proof fn divider_fills_width(label: Seq<char>, width: nat)
    ensures
        divider_text(label, width).len() == width,
{
}

} // verus!
