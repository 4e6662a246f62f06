//! Markdown as wrapped, styled rows.
use vstd::prelude::*;

use pulldown_cmark::{Event, Tag, TagEnd};

use crate::draw::{
    append_lines, blank, fg, less, lines_view, max, min, new_lines, no_lines, push_line, push_span,
    row, row_text, sp, spans_view, Line, Span, SpanView, Style,
};
use crate::split::{split_lines, split_words, text_lines, texts, trim_text, trimmed, words};
use crate::text::{
    chars_of, decimal, decimal_string, joined, joined3, repeat_char, repeated, same_text,
    string_of, text_columns, text_width,
};
use crate::theme::{CODE_BG, LINK, MUTED, TEXT};

verus! {

/// Declares `pulldown_cmark::Event`: a value of it is carried, never looked into
/// but by the functions below that tell its variants apart.
#[verifier::external_type_specification]
#[verifier::external_body]
pub struct ExEvent<'a>(Event<'a>);

/// Declares `pulldown_cmark::Tag`: a value of it is carried, never looked into
/// but by the functions below that tell its variants apart.
#[verifier::external_type_specification]
#[verifier::external_body]
pub struct ExTag<'a>(Tag<'a>);

/// Declares `pulldown_cmark::TagEnd`: a value of it is carried, never looked into
/// but by the functions below that tell its variants apart.
#[verifier::external_type_specification]
#[verifier::external_body]
pub struct ExTagEnd(TagEnd);

/// What opens an element; the elements without a rendering of their own are
/// `Other`.
#[derive(Debug, Clone)]
pub enum MdTag {
    Paragraph,
    Heading(u8),
    BlockQuote,
    CodeBlock,
    List(Option<u64>),
    Item,
    Emphasis,
    Strong,
    Strikethrough,
    Link(String),
    Image(String),
    Other,
}

/// What closes an element.
#[derive(Debug, Clone, Copy, PartialEq, Eq, Structural)]
pub enum MdTagEnd {
    Paragraph,
    Heading,
    BlockQuote,
    CodeBlock,
    List,
    Item,
    Emphasis,
    Strong,
    Strikethrough,
    Link,
    Image,
    Other,
}

/// One event of a parsed document.
#[derive(Debug, Clone)]
pub enum MdEvent {
    Start(MdTag),
    End(MdTagEnd),
    Text(String),
    Code(String),
    InlineMath(String),
    DisplayMath(String),
    Html(String),
    InlineHtml(String),
    FootnoteReference(String),
    SoftBreak,
    HardBreak,
    Rule,
    TaskListMarker(bool),
}

/// One event as the parser hands it out, its tag not yet looked into.
pub enum RawEvent<'a> {
    Start(Tag<'a>),
    End(TagEnd),
    Text(String),
    Code(String),
    InlineMath(String),
    DisplayMath(String),
    Html(String),
    InlineHtml(String),
    FootnoteReference(String),
    SoftBreak,
    HardBreak,
    Rule,
    TaskListMarker(bool),
}

#[verifier::ext_equal]
pub enum TagView {
    Paragraph,
    Heading(u8),
    BlockQuote,
    CodeBlock,
    List(Option<u64>),
    Item,
    Emphasis,
    Strong,
    Strikethrough,
    Link(Seq<char>),
    Image(Seq<char>),
    Other,
}

#[verifier::ext_equal]
pub enum EventView {
    Start(TagView),
    End(MdTagEnd),
    Text(Seq<char>),
    Code(Seq<char>),
    InlineMath(Seq<char>),
    DisplayMath(Seq<char>),
    Html(Seq<char>),
    InlineHtml(Seq<char>),
    FootnoteReference(Seq<char>),
    SoftBreak,
    HardBreak,
    Rule,
    TaskListMarker(bool),
}

impl View for MdTag {
    type V = TagView;

    open spec fn view(&self) -> TagView {
        match *self {
            MdTag::Paragraph => TagView::Paragraph,
            MdTag::Heading(n) => TagView::Heading(n),
            MdTag::BlockQuote => TagView::BlockQuote,
            MdTag::CodeBlock => TagView::CodeBlock,
            MdTag::List(n) => TagView::List(n),
            MdTag::Item => TagView::Item,
            MdTag::Emphasis => TagView::Emphasis,
            MdTag::Strong => TagView::Strong,
            MdTag::Strikethrough => TagView::Strikethrough,
            MdTag::Link(url) => TagView::Link(url@),
            MdTag::Image(url) => TagView::Image(url@),
            MdTag::Other => TagView::Other,
        }
    }
}

impl View for MdEvent {
    type V = EventView;

    open spec fn view(&self) -> EventView {
        match *self {
            MdEvent::Start(t) => EventView::Start(t@),
            MdEvent::End(t) => EventView::End(t),
            MdEvent::Text(s) => EventView::Text(s@),
            MdEvent::Code(s) => EventView::Code(s@),
            MdEvent::InlineMath(s) => EventView::InlineMath(s@),
            MdEvent::DisplayMath(s) => EventView::DisplayMath(s@),
            MdEvent::Html(s) => EventView::Html(s@),
            MdEvent::InlineHtml(s) => EventView::InlineHtml(s@),
            MdEvent::FootnoteReference(s) => EventView::FootnoteReference(s@),
            MdEvent::SoftBreak => EventView::SoftBreak,
            MdEvent::HardBreak => EventView::HardBreak,
            MdEvent::Rule => EventView::Rule,
            MdEvent::TaskListMarker(b) => EventView::TaskListMarker(b),
        }
    }
}

impl<'a> View for RawEvent<'a> {
    type V = EventView;

    open spec fn view(&self) -> EventView {
        match *self {
            RawEvent::Start(t) => EventView::Start(tag_parts(t)),
            RawEvent::End(t) => EventView::End(tag_end_kind(t)),
            RawEvent::Text(s) => EventView::Text(s@),
            RawEvent::Code(s) => EventView::Code(s@),
            RawEvent::InlineMath(s) => EventView::InlineMath(s@),
            RawEvent::DisplayMath(s) => EventView::DisplayMath(s@),
            RawEvent::Html(s) => EventView::Html(s@),
            RawEvent::InlineHtml(s) => EventView::InlineHtml(s@),
            RawEvent::FootnoteReference(s) => EventView::FootnoteReference(s@),
            RawEvent::SoftBreak => EventView::SoftBreak,
            RawEvent::HardBreak => EventView::HardBreak,
            RawEvent::Rule => EventView::Rule,
            RawEvent::TaskListMarker(b) => EventView::TaskListMarker(b),
        }
    }
}

/// The events of a CommonMark document.
pub uninterp spec fn markdown_events(text: Seq<char>) -> Seq<EventView>;

/// What an event of the parser holds.
pub uninterp spec fn event_parts(event: Event<'_>) -> EventView;

/// What an opening tag of the parser holds.
pub uninterp spec fn tag_parts(tag: Tag<'_>) -> TagView;

/// Which element a closing tag of the parser closes.
pub uninterp spec fn tag_end_kind(end: TagEnd) -> MdTagEnd;

/// Wraps `pulldown_cmark::Parser::new`, walked to its end: the events, in
/// document order, depend on the text alone.
#[verifier::external_body]
fn parse_events<'a>(text: &'a str) -> (r: Vec<Event<'a>>)
    ensures
        r@.map_values(|e: Event<'a>| event_parts(e)) == markdown_events(text@),
{
    pulldown_cmark::Parser::new(text).collect()
}

/// Tells the variants of `pulldown_cmark::Event` apart and moves out their
/// texts.
#[verifier::external_body]
fn open_event<'a>(event: Event<'a>) -> (r: RawEvent<'a>)
    ensures
        r@ == event_parts(event),
{
    match event {
        Event::Start(t) => RawEvent::Start(t),
        Event::End(t) => RawEvent::End(t),
        Event::Text(s) => RawEvent::Text(s.into_string()),
        Event::Code(s) => RawEvent::Code(s.into_string()),
        Event::InlineMath(s) => RawEvent::InlineMath(s.into_string()),
        Event::DisplayMath(s) => RawEvent::DisplayMath(s.into_string()),
        Event::Html(s) => RawEvent::Html(s.into_string()),
        Event::InlineHtml(s) => RawEvent::InlineHtml(s.into_string()),
        Event::FootnoteReference(s) => RawEvent::FootnoteReference(s.into_string()),
        Event::SoftBreak => RawEvent::SoftBreak,
        Event::HardBreak => RawEvent::HardBreak,
        Event::Rule => RawEvent::Rule,
        Event::TaskListMarker(b) => RawEvent::TaskListMarker(b),
    }
}

/// Tells the variants of `pulldown_cmark::Tag` apart and moves out a heading's
/// level, a list's first number and a destination.
#[verifier::external_body]
fn open_tag<'a>(tag: Tag<'a>) -> (r: MdTag)
    ensures
        r@ == tag_parts(tag),
{
    match tag {
        Tag::Paragraph => MdTag::Paragraph,
        Tag::Heading { level, .. } => MdTag::Heading(level as u8),
        Tag::BlockQuote(_) => MdTag::BlockQuote,
        Tag::CodeBlock(_) => MdTag::CodeBlock,
        Tag::List(start) => MdTag::List(start),
        Tag::Item => MdTag::Item,
        Tag::Emphasis => MdTag::Emphasis,
        Tag::Strong => MdTag::Strong,
        Tag::Strikethrough => MdTag::Strikethrough,
        Tag::Link { dest_url, .. } => MdTag::Link(dest_url.into_string()),
        Tag::Image { dest_url, .. } => MdTag::Image(dest_url.into_string()),
        _ => MdTag::Other,
    }
}

/// Tells the variants of `pulldown_cmark::TagEnd` apart.
#[verifier::external_body]
fn open_tag_end(end: TagEnd) -> (r: MdTagEnd)
    ensures
        r == tag_end_kind(end),
{
    match end {
        TagEnd::Paragraph => MdTagEnd::Paragraph,
        TagEnd::Heading(_) => MdTagEnd::Heading,
        TagEnd::BlockQuote(_) => MdTagEnd::BlockQuote,
        TagEnd::CodeBlock => MdTagEnd::CodeBlock,
        TagEnd::List(_) => MdTagEnd::List,
        TagEnd::Item => MdTagEnd::Item,
        TagEnd::Emphasis => MdTagEnd::Emphasis,
        TagEnd::Strong => MdTagEnd::Strong,
        TagEnd::Strikethrough => MdTagEnd::Strikethrough,
        TagEnd::Link => MdTagEnd::Link,
        TagEnd::Image => MdTagEnd::Image,
        _ => MdTagEnd::Other,
    }
}

pub open spec fn events_view(events: Seq<MdEvent>) -> Seq<EventView> {
    events.map_values(|e: MdEvent| e@)
}

/// The events of a Markdown text.
pub fn parse_markdown(text: &str) -> (r: Vec<MdEvent>)
    ensures
        events_view(r@) == markdown_events(text@),
{
    let raw = parse_events(text);
    let ghost parts = raw@.map_values(|e: Event<'_>| event_parts(e));
    let mut out: Vec<MdEvent> = Vec::new();
    for event in it: raw
        invariant
            it.seq() == raw@,
            parts == raw@.map_values(|e: Event<'_>| event_parts(e)),
            events_view(out@) == parts.take(it.index() as int),
    {
        let opened = match open_event(event) {
            RawEvent::Start(t) => MdEvent::Start(open_tag(t)),
            RawEvent::End(t) => MdEvent::End(open_tag_end(t)),
            RawEvent::Text(s) => MdEvent::Text(s),
            RawEvent::Code(s) => MdEvent::Code(s),
            RawEvent::InlineMath(s) => MdEvent::InlineMath(s),
            RawEvent::DisplayMath(s) => MdEvent::DisplayMath(s),
            RawEvent::Html(s) => MdEvent::Html(s),
            RawEvent::InlineHtml(s) => MdEvent::InlineHtml(s),
            RawEvent::FootnoteReference(s) => MdEvent::FootnoteReference(s),
            RawEvent::SoftBreak => MdEvent::SoftBreak,
            RawEvent::HardBreak => MdEvent::HardBreak,
            RawEvent::Rule => MdEvent::Rule,
            RawEvent::TaskListMarker(b) => MdEvent::TaskListMarker(b),
        };
        let ghost done = out@;
        out.push(opened);
        proof {
            assert(opened@ == parts[it.index() as int]);
            assert(events_view(out@) =~= events_view(done).push(opened@));
            assert(events_view(out@) =~= parts.take(it.index() as int + 1));
        }
    }
    proof {
        assert(parts.take(parts.len() as int) =~= parts);
    }
    out
}

/// One level of a list: whether it is numbered, and the next number.
#[derive(Debug, Clone, Copy)]
pub struct ListFrame {
    pub ordered: bool,
    pub next: u64,
}

/// The style of running text.
#[verifier::allow_in_spec]
pub fn base_style() -> Style
    returns
        fg(TEXT),
{
    fg(TEXT)
}

#[verifier::allow_in_spec]
pub fn link_style() -> Style
    returns
        fg(LINK).underlined(),
{
    fg(LINK).underlined()
}

#[verifier::allow_in_spec]
pub fn code_style() -> Style
    returns
        fg(TEXT).bg(CODE_BG),
{
    fg(TEXT).bg(CODE_BG)
}

/// A document while it is being laid out: the rows done, the row begun, and
/// what the open elements ask for.
pub struct Md {
    pub width: int,
    pub lines: Seq<Seq<SpanView>>,
    pub current: Seq<SpanView>,
    /// Whether the next word is set off by a space.
    pub gap: bool,
    pub styles: Seq<Style>,
    /// What the next row begins with, and what the rows after it begin with.
    pub first: Seq<char>,
    pub cont: Seq<char>,
    pub prefixes: Seq<(Seq<char>, Seq<char>)>,
    pub lists: Seq<ListFrame>,
    pub in_code: bool,
    pub code: Seq<char>,
    pub link_url: Option<Seq<char>>,
    pub link_text: Option<Seq<char>>,
    pub image_url: Option<Seq<char>>,
    pub image_alt: Option<Seq<char>>,
}

/// What the rows of a code block begin with.
pub const CODE_LEAD: &'static str = "  │ ";

/// `#` once for each level, then a space.
pub open spec fn heading_mark(level: u8) -> Seq<char> {
    let n: nat = if level < 1 {
        1
    } else if level > 6 {
        6
    } else {
        level as nat
    };
    repeated('#', n) + " "@
}

/// The bullet or number of a list item, and the indent of its further rows.
pub open spec fn item_mark(lists: Seq<ListFrame>, number: u64) -> (Seq<char>, Seq<char>) {
    let indent = repeated(' ', 2 * less(lists.len() as int, 1) as nat);
    if lists.len() == 0 {
        (indent, indent)
    } else {
        let bullet = if lists.last().ordered {
            decimal(number as nat) + ". "@
        } else {
            "• "@
        };
        (indent + bullet, indent + repeated(' ', bullet.len()))
    }
}

/// How many of the first `k` characters of `s` are set behind `lead`: as many
/// as fit in `width` columns, but one at least.
pub open spec fn fit_piece(lead: Seq<char>, s: Seq<char>, k: int, width: int) -> int
    decreases k,
{
    if k <= 1 {
        1
    } else if text_columns(lead + s.take(k)) <= width {
        k
    } else {
        fit_piece(lead, s, k - 1, width)
    }
}

/// How many characters of `s` are set behind `lead` on one row.
pub open spec fn piece(lead: Seq<char>, s: Seq<char>, width: int) -> int {
    fit_piece(lead, s, min(s.len() as int, width), width)
}

pub open spec fn code_line(text: Seq<char>) -> Seq<SpanView> {
    seq![sp(CODE_LEAD@, fg(MUTED)), sp(text, code_style())]
}

/// The rows of one line of a code block, cut where it is too long.
pub open spec fn code_rows(text: Seq<char>, width: int) -> Seq<Seq<SpanView>>
    decreases text.len(),
{
    let n = piece(CODE_LEAD@, text, width);
    if text_columns(CODE_LEAD@ + text) <= width || n <= 0 || n >= text.len() {
        no_lines().push(code_line(text))
    } else {
        no_lines().push(code_line(text.take(n))) + code_rows(text.skip(n), width)
    }
}

/// The rows of the first `n` lines of a code block.
pub open spec fn code_block_rows(list: Seq<Seq<char>>, width: int, n: int) -> Seq<Seq<SpanView>>
    decreases n,
{
    if n <= 0 {
        no_lines()
    } else {
        code_block_rows(list, width, n - 1) + code_rows(list[n - 1], width)
    }
}

/// A rule across the width.
pub open spec fn rule_line(width: int) -> Seq<SpanView> {
    let full = repeated('─', max(width, 1) as nat);
    row(full.take(piece(seq![], full, width)), base_style())
}

impl Md {
    pub open spec fn start(width: int) -> Md {
        Md {
            width,
            lines: no_lines(),
            current: blank(),
            gap: false,
            styles: seq![base_style()],
            first: seq![],
            cont: seq![],
            prefixes: seq![],
            lists: seq![],
            in_code: false,
            code: seq![],
            link_url: None,
            link_text: None,
            image_url: None,
            image_alt: None,
        }
    }

    pub open spec fn style(self) -> Style {
        if self.styles.len() > 0 {
            self.styles.last()
        } else {
            base_style()
        }
    }

    /// The row begun is ended: it joins the rows done, behind its prefix.
    pub open spec fn closed(self) -> Md {
        if self.current.len() == 0 {
            self
        } else {
            let lead = if self.first.len() == 0 {
                blank()
            } else {
                row(self.first, base_style())
            };
            Md {
                lines: self.lines.push(lead + self.current),
                current: blank(),
                first: self.cont,
                gap: false,
                ..self
            }
        }
    }

    /// The columns that the row begun takes, its prefix counted, with `more`
    /// behind it.
    pub open spec fn columns_with(self, more: Seq<char>) -> int {
        text_columns(self.first + row_text(self.current) + more) as int
    }

    /// A word is set: on the row begun where it fits, else on the next; a word
    /// too long for a whole row is cut.
    pub open spec fn emit(self, word: Seq<char>, style: Style) -> Md
        decreases
                word.len(),
                (if self.current.len() == 0 {
                    0nat
                } else {
                    1nat
                }),
    {
        if word.len() == 0 {
            self
        } else if self.current.len() == 0 {
            if text_columns(self.first + word) > self.width {
                let n = piece(self.first, word, self.width);
                if 0 < n <= word.len() {
                    Md { current: row(word.take(n), style), ..self }.closed().emit(
                        word.skip(n),
                        style,
                    )
                } else {
                    self
                }
            } else {
                Md { current: row(word, style), gap: true, ..self }
            }
        } else {
            let space = if self.gap {
                " "@
            } else {
                ""@
            };
            if self.columns_with(space + word) > self.width {
                self.closed().emit(word, style)
            } else {
                let spaced = if self.gap {
                    self.current.push(sp(" "@, base_style()))
                } else {
                    self.current
                };
                Md { current: spaced.push(sp(word, style)), gap: true, ..self }
            }
        }
    }

    pub open spec fn emit_all(self, list: Seq<Seq<char>>, style: Style) -> Md
        decreases list.len(),
    {
        if list.len() == 0 {
            self
        } else {
            self.emit_all(list.drop_last(), style).emit(list.last(), style)
        }
    }

    pub open spec fn captured(self, s: Seq<char>) -> Md {
        Md {
            link_text: match self.link_text {
                Some(t) => Some(t + s),
                None => None,
            },
            image_alt: match self.image_alt {
                Some(t) => Some(t + s),
                None => None,
            },
            ..self
        }
    }

    pub open spec fn with_text(self, s: Seq<char>) -> Md {
        if self.in_code {
            Md { code: self.code + s, ..self }
        } else {
            self.captured(s).emit_all(words(s), self.style())
        }
    }

    pub open spec fn with_code(self, s: Seq<char>) -> Md {
        if self.in_code {
            Md { code: self.code + s, ..self }
        } else {
            self.captured(s).emit(s, code_style())
        }
    }

    pub open spec fn blanked(self) -> Md {
        if self.lines.len() > 0 && self.lines.last().len() == 0 {
            self
        } else {
            Md { lines: self.lines.push(blank()), ..self }
        }
    }

    pub open spec fn prefixed(self, first: Seq<char>, cont: Seq<char>) -> Md {
        Md { prefixes: self.prefixes.push((self.first, self.cont)), first, cont, ..self }
    }

    /// A new prefix is taken up. The row begun runs on under it where it fits
    /// there; else it is ended first.
    pub open spec fn entered(self, first: Seq<char>, cont: Seq<char>) -> Md {
        if self.current.len() > 0 && text_columns(first + row_text(self.current)) > self.width {
            self.closed().prefixed(first, cont)
        } else {
            self.prefixed(first, cont)
        }
    }

    pub open spec fn unprefixed(self) -> Md {
        if self.prefixes.len() == 0 {
            self
        } else {
            Md {
                first: self.prefixes.last().0,
                cont: self.prefixes.last().1,
                prefixes: self.prefixes.drop_last(),
                ..self
            }
        }
    }

    pub open spec fn styled(self, style: Style) -> Md {
        Md { styles: self.styles.push(style), ..self }
    }

    pub open spec fn unstyled(self) -> Md {
        if self.styles.len() == 0 {
            self
        } else {
            Md { styles: self.styles.drop_last(), ..self }
        }
    }

    pub open spec fn code_flushed(self) -> Md {
        let list = text_lines(self.code);
        Md {
            lines: self.lines + code_block_rows(list, self.width, list.len() as int),
            ..self
        }
    }

    pub open spec fn link_flushed(self) -> Md {
        let url = self.link_url.unwrap_or(seq![]);
        let text = trimmed(self.link_text.unwrap_or(seq![]));
        let done = Md { link_url: None, link_text: None, ..self };
        if url.len() > 0 && text.len() > 0 && text != url {
            done.emit("("@ + url + ")"@, fg(MUTED))
        } else {
            done
        }
    }

    pub open spec fn image_flushed(self) -> Md {
        let alt = trimmed(self.image_alt.unwrap_or(seq![]));
        let done = Md { image_url: None, image_alt: None, ..self };
        if alt.len() > 0 {
            done.emit("🖼 "@ + alt, base_style().dim())
        } else {
            done
        }
    }

    pub open spec fn opened(self, tag: TagView) -> Md {
        match tag {
            TagView::Heading(level) => self.entered(
                heading_mark(level),
                heading_mark(level),
            ).styled(base_style().bold()),
            TagView::BlockQuote => self.entered("▌ "@, "  "@),
            TagView::CodeBlock => Md { in_code: true, code: seq![], ..self.closed() },
            TagView::List(start) => Md {
                lists: self.lists.push(
                    ListFrame {
                        ordered: start is Some,
                        next: match start {
                            Some(n) => n,
                            None => 1,
                        },
                    },
                ),
                ..self
            },
            TagView::Item => {
                if self.lists.len() == 0 {
                    let mark = item_mark(self.lists, 1);
                    self.entered(mark.0, mark.1)
                } else {
                    let top = self.lists.last();
                    let lists = self.lists.update(
                        self.lists.len() - 1,
                        ListFrame { next: top.next.wrapping_add(1), ..top },
                    );
                    let mark = item_mark(lists, top.next);
                    Md { lists, ..self }.entered(mark.0, mark.1)
                }
            },
            TagView::Emphasis => self.styled(self.style().italic()),
            TagView::Strong => self.styled(self.style().bold()),
            TagView::Strikethrough => self.styled(self.style().crossed_out()),
            TagView::Link(url) => Md {
                link_url: Some(url),
                link_text: Some(seq![]),
                ..self
            }.styled(link_style()),
            TagView::Image(url) => Md {
                image_url: Some(url),
                image_alt: Some(seq![]),
                ..self
            }.styled(base_style().dim()),
            TagView::Paragraph => self,
            TagView::Other => self,
        }
    }

    pub open spec fn ended(self, end: MdTagEnd) -> Md {
        match end {
            MdTagEnd::Paragraph => self.closed().blanked(),
            MdTagEnd::Heading => self.closed().unprefixed().unstyled(),
            MdTagEnd::BlockQuote => self.closed().unprefixed(),
            MdTagEnd::CodeBlock => Md { in_code: false, ..self.code_flushed() },
            MdTagEnd::Item => self.closed().unprefixed(),
            MdTagEnd::List => Md {
                lists: if self.lists.len() == 0 {
                    self.lists
                } else {
                    self.lists.drop_last()
                },
                ..self
            },
            MdTagEnd::Emphasis => self.unstyled(),
            MdTagEnd::Strong => self.unstyled(),
            MdTagEnd::Strikethrough => self.unstyled(),
            MdTagEnd::Link => self.link_flushed().unstyled(),
            MdTagEnd::Image => self.image_flushed().unstyled(),
            MdTagEnd::Other => self,
        }
    }

    /// One event laid out.
    pub open spec fn step(self, event: EventView) -> Md {
        match event {
            EventView::Start(tag) => self.opened(tag),
            EventView::End(end) => self.ended(end),
            EventView::Text(s) => self.with_text(s),
            EventView::Code(s) => self.with_code(s),
            EventView::Html(s) => self.with_text(s),
            EventView::InlineHtml(s) => self.with_text(s),
            EventView::InlineMath(s) => self.with_text(s),
            EventView::DisplayMath(s) => self.with_text(s),
            EventView::SoftBreak => Md { gap: self.gap || self.current.len() > 0, ..self },
            EventView::HardBreak => Md { gap: false, ..self.closed() },
            EventView::Rule => {
                let done = self.closed();
                Md { lines: done.lines.push(rule_line(self.width)), ..done }
            },
            EventView::FootnoteReference(_) => self,
            EventView::TaskListMarker(checked) => Md {
                gap: true,
                ..self.emit(
                    if checked {
                        "[x]"@
                    } else {
                        "[ ]"@
                    },
                    base_style(),
                )
            },
        }
    }

    pub open spec fn run(self, events: Seq<EventView>) -> Md
        decreases events.len(),
    {
        if events.len() == 0 {
            self
        } else {
            self.run(events.drop_last()).step(events.last())
        }
    }
}

/// The rows of a document at a width of at least one column.
pub open spec fn markdown_rows(events: Seq<EventView>, width: int) -> Seq<Seq<SpanView>> {
    Md::start(max(width, 1)).run(events).closed().lines
}

struct MarkdownBuffer {
    width: usize,
    lines: Vec<Line>,
    current: Vec<Span>,
    current_text: String,
    needs_space: bool,
    style_stack: Vec<Style>,
    first_prefix: String,
    cont_prefix: String,
    prefix_stack: Vec<(String, String)>,
    list_stack: Vec<ListFrame>,
    in_code_block: bool,
    code_buffer: String,
    link_url: Option<String>,
    link_text: Option<String>,
    image_url: Option<String>,
    image_alt: Option<String>,
}

/// The characters of an optional text.
pub open spec fn opt_text(s: Option<String>) -> Option<Seq<char>> {
    match s {
        Some(t) => Some(t@),
        None => None,
    }
}

pub open spec fn prefix_view(v: Seq<(String, String)>) -> Seq<(Seq<char>, Seq<char>)> {
    v.map_values(|p: (String, String)| (p.0@, p.1@))
}

impl View for MarkdownBuffer {
    type V = Md;

    closed spec fn view(&self) -> Md {
        Md {
            width: self.width as int,
            lines: lines_view(self.lines@),
            current: spans_view(self.current@),
            gap: self.needs_space,
            styles: self.style_stack@,
            first: self.first_prefix@,
            cont: self.cont_prefix@,
            prefixes: prefix_view(self.prefix_stack@),
            lists: self.list_stack@,
            in_code: self.in_code_block,
            code: self.code_buffer@,
            link_url: opt_text(self.link_url),
            link_text: opt_text(self.link_text),
            image_url: opt_text(self.image_url),
            image_alt: opt_text(self.image_alt),
        }
    }
}

impl MarkdownBuffer {
    spec fn wf(self) -> bool {
        &&& self.width >= 1
        &&& self.current_text@ == row_text(spans_view(self.current@))
    }

    fn new(width: usize) -> (r: Self)
        requires
            width >= 1,
        ensures
            r@ == Md::start(width as int),
            r.wf(),
    {
        let mut style_stack: Vec<Style> = Vec::new();
        style_stack.push(base_style());
        let r = MarkdownBuffer {
            width,
            lines: Vec::new(),
            current: Vec::new(),
            current_text: String::new(),
            needs_space: false,
            style_stack,
            first_prefix: String::new(),
            cont_prefix: String::new(),
            prefix_stack: Vec::new(),
            list_stack: Vec::new(),
            in_code_block: false,
            code_buffer: String::new(),
            link_url: None,
            link_text: None,
            image_url: None,
            image_alt: None,
        };
        proof {
            let m = Md::start(width as int);
            assert(r@.lines =~= m.lines);
            assert(r@.current =~= m.current);
            assert(r@.styles =~= m.styles);
            assert(r@.first =~= m.first);
            assert(r@.cont =~= m.cont);
            assert(r@.code =~= m.code);
            assert(r@.prefixes =~= m.prefixes);
            assert(r@.lists =~= m.lists);
        }
        r
    }

    fn current_style(&self) -> (r: Style)
        ensures
            r == self@.style(),
    {
        let n: usize = self.style_stack.len();
        if n > 0 {
            self.style_stack[n - 1]
        } else {
            base_style()
        }
    }

    fn finalize_line(&mut self)
        requires
            old(self).wf(),
        ensures
            final(self)@ == old(self)@.closed(),
            final(self).wf(),
            final(self).current@.len() == 0,
    {
        if self.current.len() == 0 {
            return;
        }
        let mut spans: Vec<Span> = Vec::new();
        let ghost lead = if self@.first.len() == 0 {
            blank()
        } else {
            row(self@.first, base_style())
        };
        if !self.first_prefix.as_str().is_empty() {
            spans.push(Span::styled(self.first_prefix.as_str(), base_style()));
        }
        proof {
            assert(spans_view(spans@) =~= lead);
        }
        let ghost lead_spans = spans@;
        let ghost body = self.current@;
        spans.append(&mut self.current);
        proof {
            assert(spans_view(spans@) =~= lead + spans_view(body));
        }
        push_line(&mut self.lines, Line::from_spans(spans));
        self.current_text = String::new();
        self.first_prefix = self.cont_prefix.clone();
        self.needs_space = false;
        proof {
            assert(spans_view(self.current@) =~= blank());
            assert(self.current_text@ =~= row_text(blank()));
        }
    }

    fn push_piece(&mut self, text: &str, style: Style)
        requires
            old(self).wf(),
        ensures
            final(self)@ == (Md { current: old(self)@.current.push(sp(text@, style)), ..old(self)@ }),
            final(self).wf(),
    {
        proof {
            lemma_row_text_push(self@.current, sp(text@, style));
        }
        push_span(&mut self.current, Span::styled(text, style));
        self.current_text.append(text);
        proof {
            assert(spans_view(self.current@) == old(self)@.current.push(sp(text@, style)));
        }
    }

    fn emit_word(&mut self, word: &str, style: Style)
        requires
            old(self).wf(),
        ensures
            final(self)@ == old(self)@.emit(word@, style),
            final(self).wf(),
    {
        let chars = chars_of(word);
        let mut from: usize = 0;
        proof {
            assert(word@.skip(0) =~= word@);
        }
        while from < chars.len()
            invariant
                self.wf(),
                from <= chars@.len(),
                chars@ == word@,
                self@.emit(word@.skip(from as int), style) == old(self)@.emit(word@, style),
            decreases chars@.len() - from, self.current@.len(),
        {
            let ghost rest = word@.skip(from as int);
            let whole = string_of(&chars, from, chars.len());
            proof {
                assert(whole@ =~= rest);
            }
            if self.current.len() == 0 {
                proof {
                    assert(self@.current =~= blank());
                }
                if text_width(joined(self.first_prefix.as_str(), whole.as_str()).as_str())
                    > self.width {
                    let n: usize = find_piece(self.first_prefix.as_str(), &chars, from, self.width);
                    let head = string_of(&chars, from, from + n);
                    proof {
                        assert(head@ =~= rest.take(n as int));
                    }
                    self.push_piece(head.as_str(), style);
                    proof {
                        assert(self@.current =~= row(rest.take(n as int), style));
                    }
                    self.finalize_line();
                    proof {
                        assert(rest.skip(n as int) =~= word@.skip(from + n));
                    }
                    from += n;
                } else {
                    self.push_piece(whole.as_str(), style);
                    self.needs_space = true;
                    proof {
                        assert(self@.current =~= row(rest, style));
                    }
                    return;
                }
            } else {
                proof {
                    assert(self@.current.len() > 0);
                }
                let space = if self.needs_space {
                    " "
                } else {
                    ""
                };
                let begun = joined(self.first_prefix.as_str(), self.current_text.as_str());
                let tried = joined(begun.as_str(), joined(space, whole.as_str()).as_str());
                if text_width(tried.as_str()) > self.width {
                    self.finalize_line();
                } else {
                    if self.needs_space {
                        self.push_piece(" ", base_style());
                    }
                    self.push_piece(whole.as_str(), style);
                    self.needs_space = true;
                    return;
                }
            }
        }
        proof {
            assert(word@.skip(from as int).len() == 0);
        }
    }

    fn push_words(&mut self, text: &str, style: Style)
        requires
            old(self).wf(),
        ensures
            final(self)@ == old(self)@.emit_all(words(text@), style),
            final(self).wf(),
    {
        let list = split_words(text);
        let ghost all = words(text@);
        let mut i: usize = 0;
        proof {
            assert(all.take(0) =~= Seq::empty());
        }
        while i < list.len()
            invariant
                self.wf(),
                i <= list@.len(),
                texts(list@) == all,
                self@ == old(self)@.emit_all(all.take(i as int), style),
            decreases list@.len() - i,
        {
            proof {
                assert(all.take(i + 1).drop_last() =~= all.take(i as int));
                assert(all[i as int] == list@[i as int]@);
            }
            self.emit_word(list[i].as_str(), style);
            i += 1;
        }
        proof {
            assert(all.take(list@.len() as int) =~= all);
        }
    }

    fn maybe_capture_link_or_alt(&mut self, s: &str)
        requires
            old(self).wf(),
        ensures
            final(self)@ == old(self)@.captured(s@),
            final(self).wf(),
    {
        self.link_text = match self.link_text.take() {
            Some(t) => Some(joined(t.as_str(), s)),
            None => None,
        };
        self.image_alt = match self.image_alt.take() {
            Some(t) => Some(joined(t.as_str(), s)),
            None => None,
        };
    }

    fn text(&mut self, s: &str)
        requires
            old(self).wf(),
        ensures
            final(self)@ == old(self)@.with_text(s@),
            final(self).wf(),
    {
        if self.in_code_block {
            self.code_buffer.append(s);
            return;
        }
        let style = self.current_style();
        self.maybe_capture_link_or_alt(s);
        self.push_words(s, style);
    }

    fn code(&mut self, c: &str)
        requires
            old(self).wf(),
        ensures
            final(self)@ == old(self)@.with_code(c@),
            final(self).wf(),
    {
        if self.in_code_block {
            self.code_buffer.append(c);
            return;
        }
        self.maybe_capture_link_or_alt(c);
        self.emit_word(c, code_style());
    }

    fn push_blank(&mut self)
        requires
            old(self).wf(),
        ensures
            final(self)@ == old(self)@.blanked(),
            final(self).wf(),
    {
        let n: usize = self.lines.len();
        if n > 0 && self.lines[n - 1].spans.len() == 0 {
            return;
        }
        push_line(&mut self.lines, Line::empty());
    }

    fn push_prefix(&mut self, first: &str, cont: &str)
        requires
            old(self).wf(),
        ensures
            final(self)@ == old(self)@.prefixed(first@, cont@),
            final(self).wf(),
    {
        let ghost was = self.prefix_stack@;
        self.prefix_stack.push((self.first_prefix.clone(), self.cont_prefix.clone()));
        proof {
            assert(prefix_view(self.prefix_stack@) =~= prefix_view(was).push(
                (self@.first, self@.cont),
            ));
        }
        self.first_prefix = first.to_owned();
        self.cont_prefix = cont.to_owned();
    }

    fn enter(&mut self, first: &str, cont: &str)
        requires
            old(self).wf(),
        ensures
            final(self)@ == old(self)@.entered(first@, cont@),
            final(self).wf(),
    {
        proof {
            assert(self@.current.len() == self.current@.len());
        }
        if self.current.len() > 0 && text_width(
            joined(first, self.current_text.as_str()).as_str(),
        ) > self.width {
            self.finalize_line();
        }
        self.push_prefix(first, cont);
    }

    fn pop_prefix(&mut self)
        requires
            old(self).wf(),
        ensures
            final(self)@ == old(self)@.unprefixed(),
            final(self).wf(),
    {
        let ghost was = self.prefix_stack@;
        if let Some((first, cont)) = self.prefix_stack.pop() {
            proof {
                assert(prefix_view(self.prefix_stack@) =~= prefix_view(was).drop_last());
            }
            self.first_prefix = first;
            self.cont_prefix = cont;
        }
    }

    fn push_style(&mut self, style: Style)
        requires
            old(self).wf(),
        ensures
            final(self)@ == old(self)@.styled(style),
            final(self).wf(),
    {
        self.style_stack.push(style);
    }

    fn pop_style(&mut self)
        requires
            old(self).wf(),
        ensures
            final(self)@ == old(self)@.unstyled(),
            final(self).wf(),
    {
        let _ = self.style_stack.pop();
    }

    fn start_tag(&mut self, tag: &MdTag)
        requires
            old(self).wf(),
        ensures
            final(self)@ == old(self)@.opened(tag@),
            final(self).wf(),
    {
        match tag {
            MdTag::Paragraph => {},
            MdTag::Heading(level) => {
                let prefix = heading_prefix(*level);
                self.enter(prefix.as_str(), prefix.as_str());
                self.push_style(base_style().bold());
            },
            MdTag::BlockQuote => {
                self.enter("▌ ", "  ");
            },
            MdTag::CodeBlock => {
                self.finalize_line();
                self.in_code_block = true;
                self.code_buffer = String::new();
                proof {
                    assert(self.code_buffer@ =~= seq![]);
                }
            },
            MdTag::List(start) => {
                let frame = match start {
                    Some(n) => ListFrame { ordered: true, next: *n },
                    None => ListFrame { ordered: false, next: 1 },
                };
                self.list_stack.push(frame);
            },
            MdTag::Item => {
                let n: usize = self.list_stack.len();
                let mut number: u64 = 1;
                if n > 0 {
                    let top = self.list_stack[n - 1];
                    number = top.next;
                    self.list_stack.set(
                        n - 1,
                        ListFrame { ordered: top.ordered, next: top.next.wrapping_add(1) },
                    );
                }
                let mark = list_item_prefix(&self.list_stack, number);
                self.enter(mark.0.as_str(), mark.1.as_str());
            },
            MdTag::Emphasis => {
                let style = self.current_style().italic();
                self.push_style(style);
            },
            MdTag::Strong => {
                let style = self.current_style().bold();
                self.push_style(style);
            },
            MdTag::Strikethrough => {
                let style = self.current_style().crossed_out();
                self.push_style(style);
            },
            MdTag::Link(url) => {
                self.push_style(link_style());
                self.link_url = Some(url.clone());
                self.link_text = Some(String::new());
                proof {
                    assert(self@.link_text->0 =~= seq![]);
                }
            },
            MdTag::Image(url) => {
                self.push_style(base_style().dim());
                self.image_url = Some(url.clone());
                self.image_alt = Some(String::new());
                proof {
                    assert(self@.image_alt->0 =~= seq![]);
                }
            },
            MdTag::Other => {},
        }
    }

    fn flush_code_block(&mut self)
        requires
            old(self).wf(),
        ensures
            final(self)@ == old(self)@.code_flushed(),
            final(self).wf(),
    {
        let list = split_lines(self.code_buffer.as_str());
        let ghost all = text_lines(self@.code);
        let ghost start = self@.lines;
        let mut i: usize = 0;
        proof {
            assert(start + code_block_rows(all, self@.width, 0) =~= start);
        }
        while i < list.len()
            invariant
                self.wf(),
                i <= list@.len(),
                texts(list@) == all,
                start == old(self)@.lines,
                self@ == (Md {
                    lines: start + code_block_rows(all, old(self)@.width, i as int),
                    ..old(self)@
                }),
            decreases list@.len() - i,
        {
            let rows = cut_code(list[i].as_str(), self.width);
            proof {
                assert(texts(list@)[i as int] == list@[i as int]@);
            }
            append_lines(&mut self.lines, rows);
            i += 1;
            proof {
                assert(self@.lines =~= start + code_block_rows(all, old(self)@.width, i as int));
            }
        }
    }

    fn flush_link(&mut self)
        requires
            old(self).wf(),
        ensures
            final(self)@ == old(self)@.link_flushed(),
            final(self).wf(),
    {
        let url = match self.link_url.take() {
            Some(u) => u,
            None => String::new(),
        };
        let raw = match self.link_text.take() {
            Some(t) => t,
            None => String::new(),
        };
        proof {
            assert(url@ =~= old(self)@.link_url.unwrap_or(seq![]));
            assert(raw@ =~= old(self)@.link_text.unwrap_or(seq![]));
        }
        let text = trim_text(raw.as_str());
        if !url.as_str().is_empty() && !text.as_str().is_empty() && !same_text(
            text.as_str(),
            url.as_str(),
        ) {
            self.emit_word(joined3("(", url.as_str(), ")").as_str(), fg(MUTED));
        }
    }

    fn flush_image(&mut self)
        requires
            old(self).wf(),
        ensures
            final(self)@ == old(self)@.image_flushed(),
            final(self).wf(),
    {
        self.image_url = None;
        let raw = match self.image_alt.take() {
            Some(t) => t,
            None => String::new(),
        };
        proof {
            assert(raw@ =~= old(self)@.image_alt.unwrap_or(seq![]));
        }
        let alt = trim_text(raw.as_str());
        if !alt.as_str().is_empty() {
            self.emit_word(joined("🖼 ", alt.as_str()).as_str(), base_style().dim());
        }
    }

    fn end_tag(&mut self, end: MdTagEnd)
        requires
            old(self).wf(),
        ensures
            final(self)@ == old(self)@.ended(end),
            final(self).wf(),
    {
        match end {
            MdTagEnd::Paragraph => {
                self.finalize_line();
                self.push_blank();
            },
            MdTagEnd::Heading => {
                self.finalize_line();
                self.pop_prefix();
                self.pop_style();
            },
            MdTagEnd::BlockQuote | MdTagEnd::Item => {
                self.finalize_line();
                self.pop_prefix();
            },
            MdTagEnd::CodeBlock => {
                self.flush_code_block();
                self.in_code_block = false;
            },
            MdTagEnd::List => {
                let _ = self.list_stack.pop();
            },
            MdTagEnd::Emphasis | MdTagEnd::Strong | MdTagEnd::Strikethrough => {
                self.pop_style();
            },
            MdTagEnd::Link => {
                self.flush_link();
                self.pop_style();
            },
            MdTagEnd::Image => {
                self.flush_image();
                self.pop_style();
            },
            MdTagEnd::Other => {},
        }
    }

    fn rule(&mut self)
        requires
            old(self).wf(),
        ensures
            final(self)@ == old(self)@.step(EventView::Rule),
            final(self).wf(),
    {
        self.finalize_line();
        let full = chars_of(repeat_char('─', self.width).as_str());
        let n: usize = find_piece("", &full, 0, self.width);
        let rule = string_of(&full, 0, n);
        proof {
            assert(full@.skip(0) =~= full@);
            assert(""@ =~= seq![]) by {
                reveal_strlit("");
            }
            assert(rule@ =~= full@.take(n as int));
        }
        push_line(&mut self.lines, Line::styled(rule.as_str(), base_style()));
    }

    fn handle(&mut self, event: &MdEvent)
        requires
            old(self).wf(),
        ensures
            final(self)@ == old(self)@.step(event@),
            final(self).wf(),
    {
        match event {
            MdEvent::Start(tag) => self.start_tag(tag),
            MdEvent::End(end) => self.end_tag(*end),
            MdEvent::Text(t) => self.text(t.as_str()),
            MdEvent::Code(c) => self.code(c.as_str()),
            MdEvent::Html(h) => self.text(h.as_str()),
            MdEvent::InlineHtml(h) => self.text(h.as_str()),
            MdEvent::InlineMath(s) => self.text(s.as_str()),
            MdEvent::DisplayMath(s) => self.text(s.as_str()),
            MdEvent::SoftBreak => {
                if self.current.len() > 0 {
                    self.needs_space = true;
                }
            },
            MdEvent::HardBreak => {
                self.finalize_line();
                self.needs_space = false;
            },
            MdEvent::Rule => self.rule(),
            MdEvent::FootnoteReference(_) => {},
            MdEvent::TaskListMarker(checked) => {
                self.emit_word(
                    if *checked {
                        "[x]"
                    } else {
                        "[ ]"
                    },
                    base_style(),
                );
                self.needs_space = true;
            },
        }
    }
}

pub(crate) proof fn lemma_fit_piece(lead: Seq<char>, s: Seq<char>, k: int, width: int)
    ensures
        1 <= fit_piece(lead, s, k, width) <= max(k, 1),
        fit_piece(lead, s, k, width) > 1 ==> text_columns(
            lead + s.take(fit_piece(lead, s, k, width)),
        ) <= width,
    decreases k,
{
    if k > 1 && text_columns(lead + s.take(k)) > width {
        lemma_fit_piece(lead, s, k - 1, width);
    }
}

/// How many characters from `from` on are set behind `lead` on one row.
fn find_piece(lead: &str, chars: &Vec<char>, from: usize, width: usize) -> (r: usize)
    requires
        from < chars@.len(),
    ensures
        r == piece(lead@, chars@.skip(from as int), width as int),
        1 <= r <= chars@.len() - from,
{
    let ghost rest = chars@.skip(from as int);
    let left: usize = chars.len() - from;
    let mut k: usize = if left < width {
        left
    } else {
        width
    };
    while k > 1
        invariant
            from < chars@.len() <= usize::MAX,
            k <= chars@.len() - from,
            rest == chars@.skip(from as int),
            piece(lead@, rest, width as int) == fit_piece(lead@, rest, k as int, width as int),
        decreases k,
    {
        let head = string_of(chars, from, from + k);
        proof {
            assert(head@ =~= rest.take(k as int));
        }
        if text_width(joined(lead, head.as_str()).as_str()) <= width {
            return k;
        }
        k -= 1;
    }
    1
}

/// The rows of one line of a code block.
fn cut_code(text: &str, width: usize) -> (r: Vec<Line>)
    ensures
        lines_view(r@) == code_rows(text@, width as int),
{
    let chars = chars_of(text);
    let mut out = new_lines();
    let mut from: usize = 0;
    let ghost all = code_rows(text@, width as int);
    proof {
        assert(text@.skip(0) =~= text@);
        assert(no_lines() + all =~= all);
    }
    loop
        invariant
            from <= chars@.len(),
            chars@ == text@,
            all == code_rows(text@, width as int),
            lines_view(out@) + code_rows(text@.skip(from as int), width as int) == all,
        decreases chars@.len() - from,
    {
        let ghost rest = text@.skip(from as int);
        let whole = string_of(&chars, from, chars.len());
        proof {
            assert(whole@ =~= rest);
            lemma_fit_piece(CODE_LEAD@, rest, min(rest.len() as int, width as int), width as int);
        }
        let mut n: usize = chars.len() - from;
        if text_width(joined(CODE_LEAD, whole.as_str()).as_str()) > width && n > 0 {
            n = find_piece(CODE_LEAD, &chars, from, width);
        }
        let head = string_of(&chars, from, from + n);
        proof {
            assert(head@ =~= rest.take(n as int));
            if n == rest.len() {
                assert(head@ =~= rest);
            }
        }
        let mut line = Line::empty();
        line.push(CODE_LEAD, fg(MUTED));
        line.push(head.as_str(), code_style());
        proof {
            assert(line@ =~= code_line(head@));
        }
        let ghost before = lines_view(out@);
        push_line(&mut out, line);
        if n == chars.len() - from {
            proof {
                assert(lines_view(out@) =~= before + no_lines().push(code_line(rest)));
            }
            return out;
        }
        proof {
            assert(rest.skip(n as int) =~= text@.skip(from + n));
            assert(lines_view(out@) + code_rows(rest.skip(n as int), width as int) =~= before + (
            no_lines().push(code_line(rest.take(n as int))) + code_rows(
                rest.skip(n as int),
                width as int,
            )));
        }
        from += n;
    }
}

fn heading_prefix(level: u8) -> (r: String)
    ensures
        r@ == heading_mark(level),
{
    let n: usize = if level < 1 {
        1
    } else if level > 6 {
        6
    } else {
        level as usize
    };
    joined(repeat_char('#', n).as_str(), " ")
}

fn list_item_prefix(frames: &Vec<ListFrame>, number: u64) -> (r: (String, String))
    ensures
        (r.0@, r.1@) == item_mark(frames@, number),
{
    let n: usize = frames.len();
    let depth: usize = n.saturating_sub(1);
    let half = repeat_char(' ', depth);
    let indent = joined(half.as_str(), half.as_str());
    proof {
        assert(indent@ =~= repeated(' ', 2 * less(frames@.len() as int, 1) as nat));
    }
    if n > 0 {
        let bullet = if frames[n - 1].ordered {
            joined(decimal_string(number).as_str(), ". ")
        } else {
            "• ".to_owned()
        };
        let cont = repeat_char(' ', chars_of(bullet.as_str()).len());
        (joined(indent.as_str(), bullet.as_str()), joined(indent.as_str(), cont.as_str()))
    } else {
        (indent.clone(), indent)
    }
}

/// Lays out parsed Markdown as rows of at most `width` columns, prefixes
/// counted. Only a row on which not even one character fits is wider.
pub fn render_events(events: &Vec<MdEvent>, width: usize) -> (r: Vec<Line>)
    ensures
        lines_view(r@) == markdown_rows(events_view(events@), width as int),
{
    let mut buffer = MarkdownBuffer::new(
        if width < 1 {
            1
        } else {
            width
        },
    );
    let ghost all = events_view(events@);
    let ghost start = buffer@;
    let mut i: usize = 0;
    proof {
        assert(all.take(0) =~= Seq::empty());
    }
    while i < events.len()
        invariant
            buffer.wf(),
            i <= events@.len(),
            all == events_view(events@),
            buffer@ == start.run(all.take(i as int)),
        decreases events@.len() - i,
    {
        proof {
            assert(all.take(i + 1).drop_last() =~= all.take(i as int));
            assert(all[i as int] == events@[i as int]@);
        }
        buffer.handle(&events[i]);
        i += 1;
    }
    proof {
        assert(all.take(events@.len() as int) =~= all);
    }
    buffer.finalize_line();
    buffer.lines
}

/// The rows of a Markdown text at `width` columns.
pub open spec fn markdown_text_rows(text: Seq<char>, width: int) -> Seq<Seq<SpanView>> {
    markdown_rows(markdown_events(text), width)
}

/// Renders a Markdown text as wrapped rows that fit inside `width` columns.
///
/// Supported formatting:
/// - paragraphs and line breaks
/// - headings (prefixed and bold)
/// - blockquotes, bullet and ordered lists, code blocks
/// - inline emphasis, strong, strikethrough, code
/// - links (styled, with the URL shown behind a label)
pub fn markdown_lines(text: &str, width: usize) -> (r: Vec<Line>)
    ensures
        lines_view(r@) == markdown_text_rows(text@, width as int),
{
    render_events(&parse_markdown(text), width)
}

/// A row of at most `width` columns, its prefix counted; a blank row takes
/// none. Where not even one character fits, the row holds no more than that one.
pub open spec fn row_fits(line: Seq<SpanView>, width: int) -> bool {
    ||| line.len() == 0
    ||| text_columns(row_text(line)) <= width
    ||| 0 < line.len() <= 2 && line.last().text.len() <= 1
}

pub open spec fn rows_fit(lines: Seq<Seq<SpanView>>, width: int) -> bool {
    forall|i: int| 0 <= i < lines.len() ==> row_fits(#[trigger] lines[i], width)
}

spec fn layout_fits(md: Md) -> bool {
    &&& md.width >= 1
    &&& rows_fit(md.lines, md.width)
    &&& md.current.len() > 0 ==> text_columns(md.first + row_text(md.current)) <= md.width
}

pub(crate) proof fn lemma_row_text_push(line: Seq<SpanView>, span: SpanView)
    ensures
        row_text(line.push(span)) == row_text(line) + span.text,
{
    assert(line.push(span).drop_last() =~= line);
}

pub(crate) proof fn lemma_row_text_one(text: Seq<char>, style: Style)
    ensures
        row_text(row(text, style)) == text,
{
    assert(row(text, style).drop_last() =~= blank());
    assert(row_text(blank()) + text =~= text);
}

pub(crate) proof fn lemma_row_text_join(a: Seq<SpanView>, b: Seq<SpanView>)
    ensures
        row_text(a + b) == row_text(a) + row_text(b),
    decreases b.len(),
{
    if b.len() == 0 {
        assert(a + b =~= a);
        assert(row_text(a) + row_text(b) =~= row_text(a));
    } else {
        assert((a + b).drop_last() =~= a + b.drop_last());
        lemma_row_text_join(a, b.drop_last());
        assert(row_text(a) + (row_text(b.drop_last()) + b.last().text) =~= row_text(a) + row_text(
            b.drop_last(),
        ) + b.last().text);
    }
}

proof fn lemma_pushed_fits(lines: Seq<Seq<SpanView>>, line: Seq<SpanView>, width: int)
    requires
        rows_fit(lines, width),
        row_fits(line, width),
    ensures
        rows_fit(lines.push(line), width),
{
    let after = lines.push(line);
    assert forall|i: int| 0 <= i < after.len() implies row_fits(#[trigger] after[i], width) by {
        if i < lines.len() {
            assert(after[i] == lines[i]);
        }
    }
}

proof fn lemma_joined_fits(a: Seq<Seq<SpanView>>, b: Seq<Seq<SpanView>>, width: int)
    requires
        rows_fit(a, width),
        rows_fit(b, width),
    ensures
        rows_fit(a + b, width),
{
    let after = a + b;
    assert forall|i: int| 0 <= i < after.len() implies row_fits(#[trigger] after[i], width) by {
        if i < a.len() {
            assert(after[i] == a[i]);
        } else {
            assert(after[i] == b[i - a.len()]);
        }
    }
}

/// Closing a row that fits, or that holds a single character, keeps the layout.
proof fn lemma_closed_fits(md: Md)
    requires
        md.width >= 1,
        rows_fit(md.lines, md.width),
        md.current.len() > 0 ==> text_columns(md.first + row_text(md.current)) <= md.width || (
        md.current.len() == 1 && md.current[0].text.len() <= 1),
    ensures
        layout_fits(md.closed()),
        md.closed().width == md.width,
{
    if md.current.len() > 0 {
        let lead = if md.first.len() == 0 {
            blank()
        } else {
            row(md.first, base_style())
        };
        let line = lead + md.current;
        lemma_row_text_join(lead, md.current);
        if md.first.len() == 0 {
            assert(row_text(lead) =~= md.first);
        } else {
            lemma_row_text_one(md.first, base_style());
        }
        assert(row_fits(line, md.width));
        lemma_pushed_fits(md.lines, line, md.width);
    }
}

proof fn lemma_emit_fits(md: Md, word: Seq<char>, style: Style)
    requires
        layout_fits(md),
    ensures
        layout_fits(md.emit(word, style)),
        md.emit(word, style).width == md.width,
    decreases
            word.len(),
            (if md.current.len() == 0 {
                0nat
            } else {
                1nat
            }),
{
    if word.len() == 0 {
    } else if md.current.len() == 0 {
        if text_columns(md.first + word) > md.width {
            let n = piece(md.first, word, md.width);
            lemma_fit_piece(md.first, word, min(word.len() as int, md.width), md.width);
            let head = word.take(n);
            lemma_row_text_one(head, style);
            let begun = Md { current: row(head, style), ..md };
            lemma_closed_fits(begun);
            lemma_emit_fits(begun.closed(), word.skip(n), style);
        } else {
            lemma_row_text_one(word, style);
        }
    } else {
        let space = if md.gap {
            " "@
        } else {
            ""@
        };
        if md.columns_with(space + word) > md.width {
            lemma_closed_fits(md);
            lemma_emit_fits(md.closed(), word, style);
        } else {
            reveal_strlit("");
            let spaced = if md.gap {
                md.current.push(sp(" "@, base_style()))
            } else {
                md.current
            };
            lemma_row_text_push(md.current, sp(" "@, base_style()));
            lemma_row_text_push(spaced, sp(word, style));
            let after = spaced.push(sp(word, style));
            assert(md.first + row_text(after) =~= md.first + row_text(md.current) + (space + word));
        }
    }
}

pub(crate) proof fn lemma_code_line_text(text: Seq<char>)
    ensures
        row_text(code_line(text)) == CODE_LEAD@ + text,
{
    let lead = row(CODE_LEAD@, fg(MUTED));
    lemma_row_text_one(CODE_LEAD@, fg(MUTED));
    lemma_row_text_push(lead, sp(text, code_style()));
    assert(code_line(text) =~= lead.push(sp(text, code_style())));
}

proof fn lemma_code_fits(text: Seq<char>, width: int)
    ensures
        rows_fit(code_rows(text, width), width),
    decreases text.len(),
{
    let n = piece(CODE_LEAD@, text, width);
    lemma_fit_piece(CODE_LEAD@, text, min(text.len() as int, width), width);
    if text_columns(CODE_LEAD@ + text) <= width || n >= text.len() {
        lemma_code_line_text(text);
        if n >= text.len() {
            assert(text.take(text.len() as int) =~= text);
        }
        lemma_pushed_fits(no_lines(), code_line(text), width);
    } else {
        let head = text.take(n);
        lemma_code_line_text(head);
        lemma_pushed_fits(no_lines(), code_line(head), width);
        lemma_code_fits(text.skip(n), width);
        lemma_joined_fits(
            no_lines().push(code_line(head)),
            code_rows(text.skip(n), width),
            width,
        );
    }
}

proof fn lemma_code_block_fits(list: Seq<Seq<char>>, width: int, n: int)
    requires
        0 <= n <= list.len(),
    ensures
        rows_fit(code_block_rows(list, width, n), width),
    decreases n,
{
    if n > 0 {
        lemma_code_block_fits(list, width, n - 1);
        lemma_code_fits(list[n - 1], width);
        lemma_joined_fits(
            code_block_rows(list, width, n - 1),
            code_rows(list[n - 1], width),
            width,
        );
    }
}

proof fn lemma_emit_all_fits(md: Md, list: Seq<Seq<char>>, style: Style)
    requires
        layout_fits(md),
    ensures
        layout_fits(md.emit_all(list, style)),
        md.emit_all(list, style).width == md.width,
    decreases list.len(),
{
    if list.len() > 0 {
        lemma_emit_all_fits(md, list.drop_last(), style);
        lemma_emit_fits(md.emit_all(list.drop_last(), style), list.last(), style);
    }
}

proof fn lemma_step_fits(md: Md, event: EventView)
    requires
        layout_fits(md),
    ensures
        layout_fits(md.step(event)),
        md.step(event).width == md.width,
{
    lemma_closed_fits(md);
    let done = md.closed();
    match event {
        EventView::End(MdTagEnd::Paragraph) => {
            if !(done.lines.len() > 0 && done.lines.last().len() == 0) {
                lemma_pushed_fits(done.lines, blank(), md.width);
            }
        },
        EventView::End(MdTagEnd::CodeBlock) => {
            let list = text_lines(md.code);
            lemma_code_block_fits(list, md.width, list.len() as int);
            lemma_joined_fits(
                md.lines,
                code_block_rows(list, md.width, list.len() as int),
                md.width,
            );
        },
        EventView::End(MdTagEnd::Link) => {
            let url = md.link_url.unwrap_or(seq![]);
            lemma_emit_fits(
                Md { link_url: None, link_text: None, ..md },
                "("@ + url + ")"@,
                fg(MUTED),
            );
        },
        EventView::End(MdTagEnd::Image) => {
            let alt = trimmed(md.image_alt.unwrap_or(seq![]));
            lemma_emit_fits(
                Md { image_url: None, image_alt: None, ..md },
                "🖼 "@ + alt,
                base_style().dim(),
            );
        },
        EventView::Text(s) | EventView::Html(s) | EventView::InlineHtml(s) | EventView::InlineMath(
            s,
        ) | EventView::DisplayMath(s) => {
            lemma_emit_all_fits(md.captured(s), words(s), md.style());
        },
        EventView::Code(s) => {
            lemma_emit_fits(md.captured(s), s, code_style());
        },
        EventView::Rule => {
            let full = repeated('─', max(md.width, 1) as nat);
            let n = piece(seq![], full, md.width);
            lemma_fit_piece(seq![], full, min(full.len() as int, md.width), md.width);
            lemma_row_text_one(full.take(n), base_style());
            assert(Seq::<char>::empty() + full.take(n) =~= full.take(n));
            lemma_pushed_fits(done.lines, rule_line(md.width), md.width);
        },
        EventView::TaskListMarker(checked) => {
            lemma_emit_fits(
                md,
                if checked {
                    "[x]"@
                } else {
                    "[ ]"@
                },
                base_style(),
            );
        },
        _ => {},
    }
}

proof fn lemma_run_fits(md: Md, events: Seq<EventView>)
    requires
        layout_fits(md),
    ensures
        layout_fits(md.run(events)),
        md.run(events).width == md.width,
    decreases events.len(),
{
    if events.len() > 0 {
        lemma_run_fits(md, events.drop_last());
        lemma_step_fits(md.run(events.drop_last()), events.last());
    }
}

/// Every row of a rendered document takes at most `width` columns, its prefix
/// counted, unless not even one character fits behind the prefix.
pub proof fn markdown_rows_are_wrapped(events: Seq<EventView>, width: int)
    requires
        width >= 1,
    ensures
        rows_fit(markdown_rows(events, width), width),
{
    let start = Md::start(width);
    assert(row_text(blank()).len() == 0);
    lemma_run_fits(start, events);
    lemma_closed_fits(start.run(events));
}

/// Closing an element takes back the prefix and the style that opening it
/// brought, for headings and block quotes met at the start of a row.
pub proof fn closing_restores_prefix(md: Md, level: u8)
    requires
        md.current.len() == 0,
    ensures
        md.opened(TagView::Heading(level)).ended(MdTagEnd::Heading) == md,
        md.opened(TagView::BlockQuote).ended(MdTagEnd::BlockQuote) == md,
{
    let h = md.opened(TagView::Heading(level)).ended(MdTagEnd::Heading);
    assert(h.styles =~= md.styles);
    assert(h.prefixes =~= md.prefixes);
    let q = md.opened(TagView::BlockQuote).ended(MdTagEnd::BlockQuote);
    assert(q.prefixes =~= md.prefixes);
}

} // verus!
