//! Cells of fixed width and text-input rows.
use vstd::prelude::*;

use crate::draw::{blank, less, max, sp, Line, Span, SpanView, Style};
use crate::text::{
    chars_of, joined, repeat_char, repeated, string_of, text_columns, text_width, truncated,
    truncate_to_display_width,
};

verus! {

/// `text` cut or filled with blanks to `width` characters.
pub open spec fn cell(text: Seq<char>, width: int) -> Seq<char> {
    if text.len() >= width {
        text.take(width)
    } else {
        text + repeated(' ', (width - text.len()) as nat)
    }
}

pub fn pad_text(text: &str, width: u16) -> (r: String)
    ensures
        r@ == cell(text@, width as int),
        r@.len() == width,
{
    let chars = chars_of(text);
    let w: usize = width as usize;
    if chars.len() >= w {
        proof {
            assert(text@.subrange(0, w as int) =~= text@.take(w as int));
        }
        string_of(&chars, 0, w)
    } else {
        joined(text, repeat_char(' ', w - chars.len()).as_str())
    }
}

/// A span of exactly `width` characters.
pub fn pad_span(text: &str, width: u16, style: Style) -> (r: Span)
    ensures
        r@ == sp(cell(text@, width as int), style),
        r.content@.len() == width,
{
    let content = pad_text(text, width);
    Span { content, style }
}

/// A cell has exactly its width, whatever its text.
pub proof fn cell_has_its_width(text: Seq<char>, width: int)
    requires
        width >= 0,
    ensures
        cell(text, width).len() == width,
{
}

/// Columns left for the value of an input row beside its label and cursor, at
/// least one.
pub open spec fn value_columns(width: int, label: int, cursor: int) -> int {
    max(less(width, label + cursor), 1)
}

/// A label, a value cut to fit, and a cursor block.
pub open spec fn input_row(
    label: Seq<char>,
    value: Seq<char>,
    width: int,
    focused: bool,
    label_style: Style,
    value_style: Style,
    cursor_style: Style,
) -> Seq<SpanView> {
    let cursor = if focused {
        "█"@
    } else {
        ""@
    };
    let room = value_columns(width, text_columns(label) as int, text_columns(cursor) as int);
    blank().push(sp(label, label_style)).push(
        sp(truncated(value, room as nat), value_style),
    ).push(sp(cursor, cursor_style))
}

/// Render a label and value as an input line, truncating the value to fit
/// `width`. The cursor block is only drawn when `focused` is true, so the same
/// helper serves both an actively-edited field and a preview of it.
pub fn render_text_input_line(
    label: &str,
    value: &str,
    width: u16,
    focused: bool,
    label_style: Style,
    value_style: Style,
    cursor_style: Style,
) -> (r: Line)
    ensures
        r@ == input_row(
            label@,
            value@,
            width as int,
            focused,
            label_style,
            value_style,
            cursor_style,
        ),
        ({
            let parts = r@;
            let beside = text_columns(parts[0].text) + text_columns(parts[2].text);
            beside < width ==> beside + text_columns(parts[1].text) <= width
        }),
{
    let cursor = if focused {
        "█"
    } else {
        ""
    };
    let taken: usize = text_width(label).saturating_add(text_width(cursor));
    let mut room: usize = (width as usize).saturating_sub(taken);
    if room < 1 {
        room = 1;
    }
    let shown = truncate_to_display_width(value, room);
    Line::empty().with(label, label_style).with(shown.as_str(), value_style).with(
        cursor,
        cursor_style,
    )
}

/// `s` filled with blanks to `width` characters.
pub fn pad_right(s: &str, width: usize) -> (r: String)
    ensures
        r@ == s@ + repeated(' ', less(width as int, s@.len() as int) as nat),
{
    let used: usize = chars_of(s).len();
    joined(s, repeat_char(' ', width.saturating_sub(used)).as_str())
}

} // verus!
