//! What a frame is made of: colours, styles, styled text, rectangles, and
//! the list of drawing steps that a terminal back end carries out in order.
use vstd::prelude::*;

use crate::split::{split_lines, text_lines, texts};

verus! {

/// The colours of the interface, a dark palette.
#[derive(Clone, Copy, Debug, PartialEq, Eq, Structural)]
pub enum Color {
    Crust,
    Mantle,
    Surface0,
    Surface1,
    Surface2,
    Overlay0,
    Overlay1,
    Subtext0,
    Subtext1,
    Text,
    Green,
    AddedBg,
    Red,
    DeletedBg,
    Sapphire,
    Blue,
    Yellow,
    Peach,
    Mauve,
    Teal,
}

impl Color {
    /// The red, green and blue parts of the colour.
    #[verifier::allow_in_spec]
    pub fn rgb(self) -> (u8, u8, u8)
        returns
            (match self {
                Color::Crust => (17u8, 17u8, 27u8),
                Color::Mantle => (24u8, 24u8, 37u8),
                Color::Surface0 => (49u8, 50u8, 68u8),
                Color::Surface1 => (69u8, 71u8, 90u8),
                Color::Surface2 => (88u8, 91u8, 112u8),
                Color::Overlay0 => (108u8, 112u8, 134u8),
                Color::Overlay1 => (127u8, 132u8, 156u8),
                Color::Subtext0 => (166u8, 173u8, 200u8),
                Color::Subtext1 => (186u8, 194u8, 222u8),
                Color::Text => (205u8, 214u8, 244u8),
                Color::Green => (166u8, 227u8, 161u8),
                Color::AddedBg => (26u8, 46u8, 34u8),
                Color::Red => (243u8, 139u8, 168u8),
                Color::DeletedBg => (48u8, 24u8, 32u8),
                Color::Sapphire => (116u8, 199u8, 236u8),
                Color::Blue => (137u8, 180u8, 250u8),
                Color::Yellow => (249u8, 226u8, 175u8),
                Color::Peach => (250u8, 179u8, 135u8),
                Color::Mauve => (203u8, 166u8, 247u8),
                Color::Teal => (148u8, 226u8, 213u8),
            }),
    {
        match self {
            Color::Crust => (17, 17, 27),
            Color::Mantle => (24, 24, 37),
            Color::Surface0 => (49, 50, 68),
            Color::Surface1 => (69, 71, 90),
            Color::Surface2 => (88, 91, 112),
            Color::Overlay0 => (108, 112, 134),
            Color::Overlay1 => (127, 132, 156),
            Color::Subtext0 => (166, 173, 200),
            Color::Subtext1 => (186, 194, 222),
            Color::Text => (205, 214, 244),
            Color::Green => (166, 227, 161),
            Color::AddedBg => (26, 46, 34),
            Color::Red => (243, 139, 168),
            Color::DeletedBg => (48, 24, 32),
            Color::Sapphire => (116, 199, 236),
            Color::Blue => (137, 180, 250),
            Color::Yellow => (249, 226, 175),
            Color::Peach => (250, 179, 135),
            Color::Mauve => (203, 166, 247),
            Color::Teal => (148, 226, 213),
        }
    }
}

/// Two colours of the palette that look alike are the same colour.
pub proof fn palette_is_distinct(a: Color, b: Color)
    requires
        a.rgb() == b.rgb(),
    ensures
        a == b,
{
}

/// Colours and attributes of a piece of text; what is `None` or `false` is
/// left as it stands on the screen.
#[derive(Clone, Copy, Debug, PartialEq, Eq, Structural)]
pub struct Style {
    pub fg: Option<Color>,
    pub bg: Option<Color>,
    pub bold: bool,
    pub dim: bool,
    pub italic: bool,
    pub underlined: bool,
    pub crossed_out: bool,
}

impl Style {
    /// The style that changes nothing.
    #[verifier::allow_in_spec]
    pub fn plain() -> Style
        returns
            (Style {
                fg: None,
                bg: None,
                bold: false,
                dim: false,
                italic: false,
                underlined: false,
                crossed_out: false,
            }),
    {
        Style {
            fg: None,
            bg: None,
            bold: false,
            dim: false,
            italic: false,
            underlined: false,
            crossed_out: false,
        }
    }

    #[verifier::allow_in_spec]
    pub fn fg(self, color: Color) -> Style
        returns
            (Style { fg: Some(color), ..self }),
    {
        Style { fg: Some(color), ..self }
    }

    #[verifier::allow_in_spec]
    pub fn bg(self, color: Color) -> Style
        returns
            (Style { bg: Some(color), ..self }),
    {
        Style { bg: Some(color), ..self }
    }

    #[verifier::allow_in_spec]
    pub fn bold(self) -> Style
        returns
            (Style { bold: true, ..self }),
    {
        Style { bold: true, ..self }
    }

    #[verifier::allow_in_spec]
    pub fn dim(self) -> Style
        returns
            (Style { dim: true, ..self }),
    {
        Style { dim: true, ..self }
    }

    #[verifier::allow_in_spec]
    pub fn italic(self) -> Style
        returns
            (Style { italic: true, ..self }),
    {
        Style { italic: true, ..self }
    }

    #[verifier::allow_in_spec]
    pub fn underlined(self) -> Style
        returns
            (Style { underlined: true, ..self }),
    {
        Style { underlined: true, ..self }
    }

    #[verifier::allow_in_spec]
    pub fn crossed_out(self) -> Style
        returns
            (Style { crossed_out: true, ..self }),
    {
        Style { crossed_out: true, ..self }
    }
}

/// The style with a foreground colour alone.
#[verifier::allow_in_spec]
pub fn fg(color: Color) -> Style
    returns
        Style::plain().fg(color),
{
    Style::plain().fg(color)
}

/// The style with a background colour alone.
#[verifier::allow_in_spec]
pub fn bg(color: Color) -> Style
    returns
        Style::plain().bg(color),
{
    Style::plain().bg(color)
}

/// A run of characters in one style.
#[derive(Clone, Debug)]
pub struct Span {
    pub content: String,
    pub style: Style,
}

/// The characters and the style of a span.
#[verifier::ext_equal]
pub struct SpanView {
    pub text: Seq<char>,
    pub style: Style,
}

impl View for Span {
    type V = SpanView;

    open spec fn view(&self) -> SpanView {
        SpanView { text: self.content@, style: self.style }
    }
}

/// The span of `text` in `style`.
pub open spec fn sp(text: Seq<char>, style: Style) -> SpanView {
    SpanView { text, style }
}

/// The characters and styles of a list of spans.
pub open spec fn spans_view(spans: Seq<Span>) -> Seq<SpanView> {
    spans.map_values(|s: Span| s@)
}

impl Span {
    pub fn styled(text: &str, style: Style) -> (r: Span)
        ensures
            r@ == sp(text@, style),
    {
        Span { content: text.to_owned(), style }
    }

    pub fn raw(text: &str) -> (r: Span)
        ensures
            r@ == sp(text@, Style::plain()),
    {
        Span { content: text.to_owned(), style: Style::plain() }
    }

    pub fn copy(&self) -> (r: Span)
        ensures
            r@ == self@,
    {
        Span { content: self.content.clone(), style: self.style }
    }
}

/// Adds a span at the end of a list.
pub fn push_span(spans: &mut Vec<Span>, span: Span)
    ensures
        spans_view(final(spans)@) == spans_view(old(spans)@).push(span@),
{
    spans.push(span);
    proof {
        assert(spans_view(spans@) =~= spans_view(old(spans)@).push(span@));
    }
}

/// One row of styled text.
#[derive(Clone, Debug)]
pub struct Line {
    pub spans: Vec<Span>,
}

/// The spans of a row.
pub type LineView = Seq<SpanView>;

impl View for Line {
    type V = Seq<SpanView>;

    open spec fn view(&self) -> Seq<SpanView> {
        spans_view(self.spans@)
    }
}

/// The row of `text` in one style.
pub open spec fn row(text: Seq<char>, style: Style) -> Seq<SpanView> {
    seq![sp(text, style)]
}

/// The row of `text` without a style, one span for each line of it.
pub open spec fn raw_row(text: Seq<char>) -> Seq<SpanView> {
    text_lines(text).map_values(|l: Seq<char>| sp(l, Style::plain()))
}

/// The row without any span.
pub open spec fn blank() -> Seq<SpanView> {
    Seq::empty()
}

/// The characters of a row, span after span.
pub open spec fn row_text(line: Seq<SpanView>) -> Seq<char>
    decreases line.len(),
{
    if line.len() == 0 {
        Seq::empty()
    } else {
        row_text(line.drop_last()) + line.last().text
    }
}

impl Line {
    pub fn empty() -> (r: Line)
        ensures
            r@ == blank(),
    {
        let r = Line { spans: Vec::new() };
        proof {
            assert(r@ =~= blank());
        }
        r
    }

    pub fn styled(text: &str, style: Style) -> (r: Line)
        ensures
            r@ == row(text@, style),
    {
        let mut r = Line::empty();
        r.push(text, style);
        proof {
            assert(r@ =~= row(text@, style));
        }
        r
    }

    /// A row of unstyled text; line endings in it are left out.
    pub fn raw(text: &str) -> (r: Line)
        ensures
            r@ == raw_row(text@),
    {
        let list = split_lines(text);
        let mut r = Line::empty();
        let mut i: usize = 0;
        proof {
            assert(r@ =~= raw_row(text@).take(0));
        }
        while i < list.len()
            invariant
                i <= list@.len(),
                texts(list@) == text_lines(text@),
                r@ == raw_row(text@).take(i as int),
            decreases list@.len() - i,
        {
            proof {
                assert(texts(list@)[i as int] == list@[i as int]@);
            }
            r.push(list[i].as_str(), Style::plain());
            i += 1;
            proof {
                assert(r@ =~= raw_row(text@).take(i as int));
            }
        }
        proof {
            assert(r@ =~= raw_row(text@));
        }
        r
    }

    pub fn from_spans(spans: Vec<Span>) -> (r: Line)
        ensures
            r@ == spans_view(spans@),
    {
        Line { spans }
    }

    /// Adds `text` in `style` at the end of the row.
    pub fn push(&mut self, text: &str, style: Style)
        ensures
            final(self)@ == old(self)@.push(sp(text@, style)),
    {
        push_span(&mut self.spans, Span::styled(text, style));
    }

    /// Adds a span at the end of the row.
    pub fn push_span(&mut self, span: Span)
        ensures
            final(self)@ == old(self)@.push(span@),
    {
        push_span(&mut self.spans, span);
    }

    /// The row with `text` in `style` at its end.
    pub fn with(self, text: &str, style: Style) -> (r: Line)
        ensures
            r@ == self@.push(sp(text@, style)),
    {
        let mut spans = self.spans;
        push_span(&mut spans, Span::styled(text, style));
        Line { spans }
    }

    pub fn copy(&self) -> (r: Line)
        ensures
            r@ == self@,
    {
        let mut r = Line::empty();
        let mut i: usize = 0;
        while i < self.spans.len()
            invariant
                i <= self.spans@.len(),
                r@ == self@.take(i as int),
            decreases self.spans@.len() - i,
        {
            r.push_span(self.spans[i].copy());
            i += 1;
            proof {
                assert(r@ =~= self@.take(i as int));
            }
        }
        proof {
            assert(r@ =~= self@);
        }
        r
    }
}

/// The spans of a list of rows.
pub open spec fn lines_view(lines: Seq<Line>) -> Seq<Seq<SpanView>> {
    lines.map_values(|l: Line| l@)
}

/// No rows.
pub open spec fn no_lines() -> Seq<Seq<SpanView>> {
    Seq::empty()
}

/// An empty list of rows.
pub fn new_lines() -> (r: Vec<Line>)
    ensures
        lines_view(r@) == no_lines(),
        r@.len() == 0,
{
    let r: Vec<Line> = Vec::new();
    proof {
        assert(lines_view(r@) =~= no_lines());
    }
    r
}

/// Adds a row below the others.
pub fn push_line(lines: &mut Vec<Line>, line: Line)
    ensures
        lines_view(final(lines)@) == lines_view(old(lines)@).push(line@),
        final(lines)@.len() == old(lines)@.len() + 1,
{
    lines.push(line);
    proof {
        assert(lines_view(lines@) =~= lines_view(old(lines)@).push(line@));
    }
}

/// Adds the rows of `more` below the others.
pub fn append_lines(lines: &mut Vec<Line>, more: Vec<Line>)
    ensures
        lines_view(final(lines)@) == lines_view(old(lines)@) + lines_view(more@),
        final(lines)@ == old(lines)@ + more@,
{
    let mut rest = more;
    lines.append(&mut rest);
    proof {
        assert(lines_view(lines@) =~= lines_view(old(lines)@) + lines_view(more@));
    }
}

/// A copy of `lines[from..to]`.
pub fn copy_lines(lines: &Vec<Line>, from: usize, to: usize) -> (r: Vec<Line>)
    requires
        from <= to <= lines@.len(),
    ensures
        lines_view(r@) == lines_view(lines@).subrange(from as int, to as int),
        r@.len() == to - from,
{
    let mut out: Vec<Line> = new_lines();
    let mut i: usize = from;
    while i < to
        invariant
            from <= i <= to <= lines@.len(),
            lines_view(out@) == lines_view(lines@).subrange(from as int, i as int),
        decreases to - i,
    {
        push_line(&mut out, lines[i].copy());
        i += 1;
        proof {
            assert(lines_view(out@) =~= lines_view(lines@).subrange(from as int, i as int));
        }
    }
    proof {
        assert(lines_view(out@).len() == out@.len());
    }
    out
}

/// A rectangle of terminal cells.
#[derive(Clone, Copy, Debug, PartialEq, Eq, Structural)]
pub struct Rect {
    pub x: u16,
    pub y: u16,
    pub width: u16,
    pub height: u16,
}

pub open spec fn min(a: int, b: int) -> int {
    if a < b {
        a
    } else {
        b
    }
}

pub open spec fn max(a: int, b: int) -> int {
    if a > b {
        a
    } else {
        b
    }
}

/// `a - b`, or zero where `b` is greater.
pub open spec fn less(a: int, b: int) -> int {
    if a > b {
        a - b
    } else {
        0
    }
}

impl Rect {
    /// The rectangle ends within the coordinate space.
    pub open spec fn wf(self) -> bool {
        self.x + self.width <= u16::MAX && self.y + self.height <= u16::MAX
    }

    /// The rectangle at `(x, y)`, cut where it would leave the coordinate
    /// space.
    #[verifier::allow_in_spec]
    pub fn new(x: u16, y: u16, width: u16, height: u16) -> Rect
        returns
            (Rect {
                x,
                y,
                width: if width > u16::MAX - x {
                    (u16::MAX - x) as u16
                } else {
                    width
                },
                height: if height > u16::MAX - y {
                    (u16::MAX - y) as u16
                } else {
                    height
                },
            }),
    {
        Rect {
            x,
            y,
            width: if width > u16::MAX - x {
                u16::MAX - x
            } else {
                width
            },
            height: if height > u16::MAX - y {
                u16::MAX - y
            } else {
                height
            },
        }
    }

    /// The first column to the right of the rectangle.
    pub open spec fn right_spec(self) -> u16 {
        min(self.x + self.width, u16::MAX as int) as u16
    }

    /// The first row below the rectangle.
    pub open spec fn bottom_spec(self) -> u16 {
        min(self.y + self.height, u16::MAX as int) as u16
    }

    #[verifier::when_used_as_spec(right_spec)]
    pub fn right(self) -> (r: u16)
        ensures
            r == self.right_spec(),
    {
        self.x.saturating_add(self.width)
    }

    #[verifier::when_used_as_spec(bottom_spec)]
    pub fn bottom(self) -> (r: u16)
        ensures
            r == self.bottom_spec(),
    {
        self.y.saturating_add(self.height)
    }

    /// The rectangle without `x` columns and `y` rows on each side; nothing
    /// where it is smaller than that. No more is taken off than a coordinate
    /// can hold.
    pub open spec fn shrunk(self, x: u16, y: u16) -> Rect {
        let columns = min(2 * x, u16::MAX as int);
        let rows = min(2 * y, u16::MAX as int);
        if self.width < columns || self.height < rows {
            Rect { x: 0, y: 0, width: 0, height: 0 }
        } else {
            Rect {
                x: min(self.x + x, u16::MAX as int) as u16,
                y: min(self.y + y, u16::MAX as int) as u16,
                width: (self.width - columns) as u16,
                height: (self.height - rows) as u16,
            }
        }
    }

    pub fn shrink(self, x: u16, y: u16) -> (r: Rect)
        ensures
            r == self.shrunk(x, y),
    {
        let columns: u16 = x.saturating_add(x);
        let rows: u16 = y.saturating_add(y);
        if self.width < columns || self.height < rows {
            Rect { x: 0, y: 0, width: 0, height: 0 }
        } else {
            Rect {
                x: self.x.saturating_add(x),
                y: self.y.saturating_add(y),
                width: self.width - columns,
                height: self.height - rows,
            }
        }
    }

    #[verifier::allow_in_spec]
    pub fn is_empty(self) -> bool
        returns
            (self.width == 0 || self.height == 0),
    {
        self.width == 0 || self.height == 0
    }
}

/// Where a text stands between the two sides of its area.
#[derive(Clone, Copy, Debug, PartialEq, Eq, Structural)]
pub enum Align {
    Left,
    Center,
}

/// One drawing step.
#[derive(Clone, Debug)]
pub enum DrawOp {
    /// Blanks every cell of `area` and gives it the background `color`.
    Fill { area: Rect, color: Color },
    /// Resets every cell of `area`.
    Clear { area: Rect },
    /// Draws a rounded border around `area`, with an optional title in its
    /// top row, over the style `style`.
    Panel { area: Rect, border: Style, style: Style, title: Option<Line> },
    /// Writes rows of text into `area`, leaving out the first `scroll` rows.
    Text { area: Rect, lines: Vec<Line>, style: Style, align: Align, wrap: bool, scroll: u16 },
    /// Writes one character.
    Cell { x: u16, y: u16, symbol: char, style: Style },
}

/// One drawing step over the views of its texts.
#[verifier::ext_equal]
pub enum OpView {
    Fill { area: Rect, color: Color },
    Clear { area: Rect },
    Panel { area: Rect, border: Style, style: Style, title: Option<Seq<SpanView>> },
    Text {
        area: Rect,
        lines: Seq<Seq<SpanView>>,
        style: Style,
        align: Align,
        wrap: bool,
        scroll: u16,
    },
    Cell { x: u16, y: u16, symbol: char, style: Style },
}

impl View for DrawOp {
    type V = OpView;

    open spec fn view(&self) -> OpView {
        match *self {
            DrawOp::Fill { area, color } => OpView::Fill { area, color },
            DrawOp::Clear { area } => OpView::Clear { area },
            DrawOp::Panel { area, border, style, title } => OpView::Panel {
                area,
                border,
                style,
                title: match title {
                    Some(t) => Some(t@),
                    None => None,
                },
            },
            DrawOp::Text { area, lines, style, align, wrap, scroll } => OpView::Text {
                area,
                lines: lines_view(lines@),
                style,
                align,
                wrap,
                scroll,
            },
            DrawOp::Cell { x, y, symbol, style } => OpView::Cell { x, y, symbol, style },
        }
    }
}

/// The drawing steps of a frame, in order.
#[derive(Clone, Debug)]
pub struct Scene {
    pub ops: Vec<DrawOp>,
}

impl View for Scene {
    type V = Seq<OpView>;

    open spec fn view(&self) -> Seq<OpView> {
        self.ops@.map_values(|o: DrawOp| o@)
    }
}

/// Left-aligned rows that are not wrapped.
pub open spec fn text_op(area: Rect, lines: Seq<Seq<SpanView>>, style: Style) -> OpView {
    OpView::Text { area, lines, style, align: Align::Left, wrap: false, scroll: 0 }
}

/// One left-aligned row that is not wrapped.
pub open spec fn line_op(area: Rect, line: Seq<SpanView>, style: Style) -> OpView {
    text_op(area, no_lines().push(line), style)
}

pub open spec fn fill_op(area: Rect, color: Color) -> OpView {
    OpView::Fill { area, color }
}

impl Scene {
    pub fn new() -> (r: Scene)
        ensures
            r@ == Seq::<OpView>::empty(),
    {
        let r = Scene { ops: Vec::new() };
        proof {
            assert(r@ =~= Seq::<OpView>::empty());
        }
        r
    }

    /// Adds a step after the others.
    pub fn push(&mut self, op: DrawOp)
        ensures
            final(self)@ == old(self)@.push(op@),
    {
        self.ops.push(op);
        proof {
            assert(self@ =~= old(self)@.push(op@));
        }
    }

    pub fn fill(&mut self, area: Rect, color: Color)
        ensures
            final(self)@ == old(self)@.push(fill_op(area, color)),
    {
        self.push(DrawOp::Fill { area, color });
    }

    pub fn clear(&mut self, area: Rect)
        ensures
            final(self)@ == old(self)@.push(OpView::Clear { area }),
    {
        self.push(DrawOp::Clear { area });
    }

    pub fn text(&mut self, area: Rect, lines: Vec<Line>, style: Style)
        ensures
            final(self)@ == old(self)@.push(text_op(area, lines_view(lines@), style)),
    {
        self.push(
            DrawOp::Text { area, lines, style, align: Align::Left, wrap: false, scroll: 0 },
        );
    }

    pub fn line(&mut self, area: Rect, line: Line, style: Style)
        ensures
            final(self)@ == old(self)@.push(line_op(area, line@, style)),
    {
        let mut lines = new_lines();
        push_line(&mut lines, line);
        self.text(area, lines, style);
    }

    pub fn cell(&mut self, x: u16, y: u16, symbol: char, style: Style)
        ensures
            final(self)@ == old(self)@.push((OpView::Cell { x, y, symbol, style })),
    {
        self.push(DrawOp::Cell { x, y, symbol, style });
    }
}

} // verus!
