//! Rows of a diff and of the review comments shown in it.
use vstd::prelude::*;

use crate::app::{App, AppState};
use crate::component::RenderContext;
use crate::diff::{DiffLineType, DiffLineView, ParsedDiffLine};
use crate::draw::{
    append_lines, bg, blank, fg, fill_op, less, line_op, lines_view, max, min, new_lines, no_lines,
    push_line, raw_row, row, sp, Line, OpView, Rect, Scene, SpanView, Style,
};
use crate::github::{comments_view, CommentView, ReviewComment};
use crate::layout::layout_rows;
use crate::markdown::{markdown_lines, markdown_text_rows};
use crate::primitives::{viewport_ops, ScrollViewport};
use crate::split::{expand_tabs, push_text, texts, untabbed};
use crate::state::Pane;
use crate::text::{
    chars_of, decimal, decimal_string, joined, joined3, repeat_char, repeated, shortened, string_of,
    text_columns, truncate_to_display_width, truncated,
};
use crate::theme::{
    ADD, ADD_BG, BASE, DEL, DEL_BG, DIFF, HUNK, MANTLE, MUTED, OVERLAY0, SUBTEXT0, TEXT,
};
use crate::views::inbox::{header_and_body, split_header_and_body};

verus! {

/// How many of the leading rows begin at or before `offset`.
pub open spec fn starts_upto(starts: Seq<usize>, offset: usize, i: int) -> int
    decreases starts.len() - i,
{
    if i < 0 || i >= starts.len() || starts[i] > offset {
        i
    } else {
        starts_upto(starts, offset, i + 1)
    }
}

/// The logical line, counted from one, that is shown at a row.
pub open spec fn logical_line(starts: Seq<usize>, offset: usize) -> int {
    let n = starts_upto(starts, offset, 0);
    if n < 1 {
        1
    } else {
        n
    }
}

/// Map a visual (post-wrap) row offset back to its 1-based logical diff line
/// number. `line_starts[i]` is the row at which logical line `i` begins, so
/// the logical line containing `visual_offset` is the count of starts at or
/// before it.
pub fn logical_line_for_visual_offset(line_starts: &Vec<usize>, visual_offset: usize) -> (r: usize)
    ensures
        r == logical_line(line_starts@, visual_offset),
{
    let mut i: usize = 0;
    while i < line_starts.len() && line_starts[i] <= visual_offset
        invariant
            i <= line_starts@.len(),
            starts_upto(line_starts@, visual_offset, 0) == starts_upto(
                line_starts@,
                visual_offset,
                i as int,
            ),
        decreases line_starts@.len() - i,
    {
        i += 1;
    }
    if i < 1 {
        1
    } else {
        i
    }
}

proof fn lemma_starts_upto(starts: Seq<usize>, offset: usize, i: int, line: int)
    requires
        0 <= i <= line < starts.len(),
        forall|j: int| i <= j <= line ==> starts[j] <= offset,
        line + 1 < starts.len() ==> starts[line + 1] > offset,
    ensures
        starts_upto(starts, offset, i) == line + 1,
    decreases line - i,
{
    if i < line {
        lemma_starts_upto(starts, offset, i + 1, line);
    } else {
        assert(starts_upto(starts, offset, i + 1) == i + 1);
    }
}

/// Every row of a wrapped line maps back to that line: from the row where the
/// line begins up to the row before the next line begins.
pub proof fn rows_map_to_their_line(starts: Seq<usize>, line: int, offset: usize)
    requires
        forall|j: int, k: int| 0 <= j < k < starts.len() ==> starts[j] <= starts[k],
        0 <= line < starts.len(),
        starts[line] <= offset,
        line + 1 < starts.len() ==> offset < starts[line + 1],
    ensures
        logical_line(starts, offset) == line + 1,
{
    lemma_starts_upto(starts, offset, 0, line);
}

/// The rows completed and the row begun after the characters of `s`.
pub open spec fn wrap_scan(s: Seq<char>, max: int) -> (Seq<Seq<char>>, Seq<char>)
    decreases s.len(),
{
    if s.len() == 0 {
        (Seq::empty(), Seq::empty())
    } else {
        let (done, current) = wrap_scan(s.drop_last(), max);
        let c = s.last();
        if c == '\n' {
            (done.push(current), Seq::empty())
        } else if current.len() >= max {
            (done.push(current), seq![c])
        } else {
            (done, current.push(c))
        }
    }
}

/// The rows of a diff line: tabs expanded, cut at line ends and at `max`
/// characters; there is always at least one row.
pub open spec fn wrapped_rows(content: Seq<char>, max: int) -> Seq<Seq<char>> {
    if max == 0 {
        seq![Seq::empty()]
    } else {
        let (done, current) = wrap_scan(untabbed(content), max);
        let rows = if current.len() > 0 {
            done.push(current)
        } else {
            done
        };
        if rows.len() == 0 {
            seq![Seq::empty()]
        } else {
            rows
        }
    }
}

/// Expand tabs and wrap the diff content so long lines are displayed on
/// multiple rows instead of being truncated.
pub fn wrap_diff_content(content: &str, max_width: usize) -> (r: Vec<String>)
    ensures
        texts(r@) == wrapped_rows(content@, max_width as int),
        r@.len() >= 1,
{
    let mut lines: Vec<String> = Vec::new();
    if max_width == 0 {
        push_text(&mut lines, String::new());
        proof {
            assert(texts(lines@) =~= wrapped_rows(content@, 0));
        }
        return lines;
    }
    let chars = chars_of(expand_tabs(content).as_str());
    let ghost s = untabbed(content@);
    let mut current = String::new();
    let mut width: usize = 0;
    let mut i: usize = 0;
    proof {
        assert(texts(lines@) =~= Seq::empty());
        assert(current@ =~= Seq::empty());
        assert(s.take(0) =~= Seq::empty());
    }
    while i < chars.len()
        invariant
            i <= chars@.len(),
            chars@ == s,
            max_width > 0,
            width == current@.len(),
            width <= max_width,
            (texts(lines@), current@) == wrap_scan(s.take(i as int), max_width as int),
        decreases chars@.len() - i,
    {
        let c = chars[i];
        proof {
            assert(s.take(i + 1).drop_last() =~= s.take(i as int));
        }
        if c == '\n' {
            push_text(&mut lines, current);
            current = String::new();
            width = 0;
        } else if width >= max_width {
            push_text(&mut lines, current);
            current = String::new();
            current.push(c);
            width = 1;
            proof {
                assert(current@ =~= seq![c]);
            }
        } else {
            current.push(c);
            width += 1;
        }
        i += 1;
    }
    proof {
        assert(s.take(s.len() as int) =~= s);
    }
    if !current.as_str().is_empty() {
        push_text(&mut lines, current);
    }
    if lines.len() == 0 {
        push_text(&mut lines, String::new());
        proof {
            assert(texts(lines@) =~= seq![Seq::<char>::empty()]);
        }
    }
    lines
}

/// The characters of all rows, row after row.
pub open spec fn rows_joined(rows: Seq<Seq<char>>) -> Seq<char>
    decreases rows.len(),
{
    if rows.len() == 0 {
        Seq::empty()
    } else {
        rows_joined(rows.drop_last()) + rows.last()
    }
}

/// `s` without its line ends.
pub open spec fn without_line_ends(s: Seq<char>) -> Seq<char>
    decreases s.len(),
{
    if s.len() == 0 {
        s
    } else if s.last() == '\n' {
        without_line_ends(s.drop_last())
    } else {
        without_line_ends(s.drop_last()).push(s.last())
    }
}

proof fn lemma_rows_joined_push(rows: Seq<Seq<char>>, last: Seq<char>)
    ensures
        rows_joined(rows.push(last)) == rows_joined(rows) + last,
{
    assert(rows.push(last).drop_last() =~= rows);
}

proof fn lemma_wrap_scan(s: Seq<char>, max: int)
    requires
        max > 0,
    ensures
        wrap_scan(s, max).1.len() <= max,
        forall|i: int|
            0 <= i < wrap_scan(s, max).0.len() ==> (#[trigger] wrap_scan(s, max).0[i]).len() <= max,
        rows_joined(wrap_scan(s, max).0) + wrap_scan(s, max).1 == without_line_ends(s),
    decreases s.len(),
{
    if s.len() == 0 {
        assert(rows_joined(wrap_scan(s, max).0) + wrap_scan(s, max).1 =~= s);
    } else {
        lemma_wrap_scan(s.drop_last(), max);
        let (done, current) = wrap_scan(s.drop_last(), max);
        let (after, begun) = wrap_scan(s, max);
        let c = s.last();
        lemma_rows_joined_push(done, current);
        assert forall|i: int| 0 <= i < after.len() implies (#[trigger] after[i]).len() <= max by {
            if i < done.len() {
                assert(after[i] == done[i]);
            }
        }
        if c == '\n' {
            assert(rows_joined(after) + begun =~= rows_joined(done) + current);
        } else if current.len() >= max {
            assert(rows_joined(after) + begun =~= (rows_joined(done) + current).push(c));
        } else {
            assert(rows_joined(after) + begun =~= (rows_joined(done) + current).push(c));
        }
    }
}

/// No row of a wrapped diff line is longer than the width, and the rows
/// together hold every character of the line, tabs expanded and line ends
/// aside, in order.
pub proof fn wrapping_loses_nothing(content: Seq<char>, max: int)
    requires
        max > 0,
    ensures
        forall|i: int|
            0 <= i < wrapped_rows(content, max).len() ==> (#[trigger] wrapped_rows(
                content,
                max,
            )[i]).len() <= max,
        rows_joined(wrapped_rows(content, max)) == without_line_ends(untabbed(content)),
        wrapped_rows(content, max).len() >= 1,
{
    let s = untabbed(content);
    lemma_wrap_scan(s, max);
    let (done, current) = wrap_scan(s, max);
    lemma_rows_joined_push(done, current);
    lemma_rows_joined_push(Seq::empty(), Seq::empty());
    let rows = wrapped_rows(content, max);
    assert forall|i: int| 0 <= i < rows.len() implies (#[trigger] rows[i]).len() <= max by {
        if i < done.len() {
            assert(rows[i] == done[i]);
        }
    }
    assert(rows_joined(done) + Seq::<char>::empty() =~= rows_joined(done));
    assert(rows_joined(seq![Seq::<char>::empty()]) =~= Seq::empty()) by {
        assert(seq![Seq::<char>::empty()] =~= Seq::<Seq<char>>::empty().push(Seq::empty()));
    }
}

/// Style of a diff line by its kind.
#[verifier::allow_in_spec]
pub fn line_style(kind: DiffLineType) -> Style
    returns
        (match kind {
            DiffLineType::FileHeader => fg(HUNK).bold(),
            DiffLineType::HunkHeader => fg(HUNK).bold(),
            DiffLineType::Addition => fg(ADD).bg(ADD_BG),
            DiffLineType::Deletion => fg(DEL).bg(DEL_BG),
            DiffLineType::Context => fg(TEXT).bg(MANTLE),
            DiffLineType::NoNewline => fg(MUTED),
        }),
{
    match kind {
        DiffLineType::FileHeader => fg(HUNK).bold(),
        DiffLineType::HunkHeader => fg(HUNK).bold(),
        DiffLineType::Addition => fg(ADD).bg(ADD_BG),
        DiffLineType::Deletion => fg(DEL).bg(DEL_BG),
        DiffLineType::Context => fg(TEXT).bg(MANTLE),
        DiffLineType::NoNewline => fg(MUTED),
    }
}

/// `s` set flush right in `width` columns.
pub open spec fn flush_right(s: Seq<char>, width: int) -> Seq<char> {
    repeated(' ', less(width, s.len() as int) as nat) + s
}

/// A line number in four columns, blank where there is none.
pub open spec fn number_column(n: Option<u64>) -> Seq<char> {
    match n {
        Some(n) => flush_right(decimal(n as nat), 4),
        None => "    "@,
    }
}

pub fn pad_left(s: &str, width: usize) -> (r: String)
    ensures
        r@ == flush_right(s@, width as int),
{
    let used: usize = chars_of(s).len();
    joined(repeat_char(' ', width.saturating_sub(used)).as_str(), s)
}

fn number_text(n: Option<u64>) -> (r: String)
    ensures
        r@ == number_column(n),
{
    match n {
        Some(n) => pad_left(decimal_string(n).as_str(), 4),
        None => "    ".to_owned(),
    }
}

/// Gutter marker for a wrapped line's continuation rows, replacing the sign so
/// a wrapped deletion or addition doesn't look like two diff lines.
pub const WRAP_MARKER: &'static str = "↪ ";

pub open spec fn diff_sign(kind: DiffLineType) -> Seq<char> {
    match kind {
        DiffLineType::Addition => "+"@,
        DiffLineType::Deletion => "−"@,
        _ => " "@,
    }
}

/// Style of the wrap marker: muted, on the line's own background.
pub open spec fn marker_style(style: Style) -> Style {
    match style.bg {
        Some(c) => fg(MUTED).bg(c),
        None => fg(MUTED),
    }
}

/// Row `i` of a wrapped diff line.
pub open spec fn diff_row(line: DiffLineView, numbers: bool, i: int, text: Seq<char>) -> Seq<
    SpanView,
> {
    let style = line_style(line.line_type);
    let gutter = if !numbers {
        blank()
    } else if i == 0 {
        blank().push(
            sp(
                number_column(line.old_line) + " "@ + number_column(line.new_line) + " │ "@,
                fg(OVERLAY0),
            ),
        )
    } else {
        blank().push(sp("          │ "@, fg(OVERLAY0)))
    };
    if i == 0 {
        gutter.push(sp(diff_sign(line.line_type) + " "@ + text, style))
    } else {
        gutter.push(sp(WRAP_MARKER@, marker_style(style))).push(sp(text, style))
    }
}

/// The rows of a diff line.
pub open spec fn diff_line_rows(line: DiffLineView, numbers: bool, max: int) -> Seq<
    Seq<SpanView>,
> {
    let rows = wrapped_rows(line.content, max);
    Seq::new(rows.len(), |i: int| diff_row(line, numbers, i, rows[i]))
}

/// However long a line is, its sign shows once: the rows below the first carry
/// the wrap marker instead, and the text keeps the line's colours throughout.
pub proof fn wrapped_line_signs_once(line: DiffLineView, max: int, i: int)
    requires
        0 <= i < diff_line_rows(line, false, max).len(),
    ensures
        ({
            let row = diff_line_rows(line, false, max)[i];
            let text = wrapped_rows(line.content, max)[i];
            &&& row.last().style == line_style(line.line_type)
            &&& i == 0 ==> row.len() == 1 && row[0].text == diff_sign(line.line_type) + " "@ + text
            &&& i > 0 ==> row.len() == 2 && row[0].text == WRAP_MARKER@ && row[0].style.fg == Some(
                MUTED,
            ) && row[1].text == text
        }),
{
}

pub fn render_diff_line_internal(
    parsed: &ParsedDiffLine,
    show_line_numbers: bool,
    max_content_width: usize,
) -> (r: Vec<Line>)
    ensures
        lines_view(r@) == diff_line_rows(parsed@, show_line_numbers, max_content_width as int),
{
    let style = line_style(parsed.line_type);
    let marker = match parsed.line_type {
        DiffLineType::Addition => "+",
        DiffLineType::Deletion => "−",
        _ => " ",
    };
    let wrapped = wrap_diff_content(parsed.content.as_str(), max_content_width);
    let numbers = joined(
        joined3(number_text(parsed.old_line).as_str(), " ", number_text(parsed.new_line).as_str()).as_str(),
        " │ ",
    );
    let continued = match style.bg {
        Some(c) => fg(MUTED).bg(c),
        None => fg(MUTED),
    };
    let ghost want = diff_line_rows(parsed@, show_line_numbers, max_content_width as int);
    let mut out = new_lines();
    let mut i: usize = 0;
    proof {
        assert(lines_view(out@) =~= want.take(0));
    }
    while i < wrapped.len()
        invariant
            i <= wrapped@.len(),
            texts(wrapped@) == wrapped_rows(parsed@.content, max_content_width as int),
            want == diff_line_rows(parsed@, show_line_numbers, max_content_width as int),
            numbers@ == number_column(parsed@.old_line) + " "@ + number_column(parsed@.new_line)
                + " │ "@,
            marker@ == diff_sign(parsed@.line_type),
            style == line_style(parsed@.line_type),
            continued == marker_style(style),
            lines_view(out@) == want.take(i as int),
        decreases wrapped@.len() - i,
    {
        let mut line = Line::empty();
        if show_line_numbers {
            if i == 0 {
                line.push(numbers.as_str(), fg(OVERLAY0));
            } else {
                line.push("          │ ", fg(OVERLAY0));
            }
        }
        proof {
            assert(texts(wrapped@)[i as int] == wrapped@[i as int]@);
        }
        if i == 0 {
            line.push(joined3(marker, " ", wrapped[i].as_str()).as_str(), style);
        } else {
            line.push(WRAP_MARKER, continued);
            line.push(wrapped[i].as_str(), style);
        }
        proof {
            assert(line@ == want[i as int]);
        }
        push_line(&mut out, line);
        i += 1;
        proof {
            assert(lines_view(out@) =~= want.take(i as int));
        }
    }
    proof {
        assert(want.take(want.len() as int) =~= want);
    }
    out
}

/// The upper-case form of a character.
pub uninterp spec fn upper_char(c: char) -> Seq<char>;

/// Wraps `char::to_uppercase`: its characters, by the Unicode tables.
#[verifier::external_body]
fn char_upper(c: char) -> (r: String)
    ensures
        r@ == upper_char(c),
{
    c.to_uppercase().collect()
}

/// The first character of a name in upper case, `?` for the empty name.
pub open spec fn initial_of(author: Seq<char>) -> Seq<char> {
    upper_char(
        if author.len() > 0 {
            author[0]
        } else {
            '?'
        },
    )
}

fn initial(author: &str) -> (r: String)
    ensures
        r@ == initial_of(author@),
{
    let chars = chars_of(author);
    char_upper(
        if chars.len() > 0 {
            chars[0]
        } else {
            '?'
        },
    )
}

/// Truncate a single-line label to at most `max_width` display columns, adding
/// an ellipsis when truncation occurs.
pub fn truncate_to(text: &str, max_width: usize) -> (r: String)
    ensures
        r@ == truncated(text@, max_width as nat),
        text_columns(r@) <= max_width,
        max_width == 0 ==> r@.len() == 0,
        max_width > 0 && text_columns(text@) <= max_width ==> r@ == text@,
        max_width > 0 && text_columns(text@) > max_width ==> shortened(text@, r@),
{
    truncate_to_display_width(text, max_width)
}

/// Where a comment stands: its file and line, or that it is outdated.
pub open spec fn comment_path(c: CommentView) -> Seq<char> {
    c.path + match c.line {
        Some(n) => ":"@ + decimal(n as nat),
        None => " outdated"@,
    }
}

/// Columns in front of the path in a comment's header.
pub const COMMENT_HEADER_COLS: usize = 16;

pub open spec fn comment_header(c: CommentView, max: int) -> Seq<SpanView> {
    blank().push(sp("  ▌ "@, fg(DIFF))).push(
        sp(initial_of(c.author) + " "@, fg(BASE).bg(DIFF).bold()),
    ).push(sp("@"@ + c.author + " · "@, fg(SUBTEXT0))).push(
        sp(truncated(comment_path(c), less(max, COMMENT_HEADER_COLS as int) as nat), fg(MUTED)),
    )
}

/// `line` behind an unstyled indent.
pub open spec fn indented(indent: Seq<char>, line: Seq<SpanView>) -> Seq<SpanView> {
    row(indent, Style::plain()) + line
}

/// The rows of one comment: its header, at most eight rows of its text, and a
/// blank row.
pub open spec fn comment_rows(c: CommentView, max: int) -> Seq<Seq<SpanView>> {
    let body = if max > 4 {
        let rows = markdown_text_rows(c.body, max - 4);
        rows.take(min(rows.len() as int, 8)).map_values(|l: Seq<SpanView>| indented("    "@, l))
    } else {
        no_lines()
    };
    (no_lines().push(comment_header(c, max)) + body).push(blank())
}

/// The rows of the first `n` comments.
pub open spec fn comments_rows(comments: Seq<CommentView>, max: int, n: int) -> Seq<
    Seq<SpanView>,
>
    decreases n,
{
    if n <= 0 {
        no_lines()
    } else {
        comments_rows(comments, max, n - 1) + comment_rows(comments[n - 1], max)
    }
}

/// `line` behind an unstyled indent.
pub fn indent_line(indent: &str, line: &Line) -> (r: Line)
    ensures
        r@ == indented(indent@, line@),
{
    let mut out = Line::styled(indent, Style::plain());
    let mut i: usize = 0;
    proof {
        assert(out@ =~= row(indent@, Style::plain()) + line@.take(0));
    }
    while i < line.spans.len()
        invariant
            i <= line.spans@.len(),
            out@ == row(indent@, Style::plain()) + line@.take(i as int),
        decreases line.spans@.len() - i,
    {
        out.push_span(line.spans[i].copy());
        i += 1;
        proof {
            assert(out@ =~= row(indent@, Style::plain()) + line@.take(i as int));
        }
    }
    proof {
        assert(line@.take(line@.len() as int) =~= line@);
    }
    out
}

/// The first `n` rows, each behind an unstyled indent.
pub fn indent_lines(indent: &str, lines: &Vec<Line>, n: usize) -> (r: Vec<Line>)
    requires
        n <= lines@.len(),
    ensures
        lines_view(r@) == lines_view(lines@).take(n as int).map_values(
            |l: Seq<SpanView>| indented(indent@, l),
        ),
{
    let ghost want = lines_view(lines@).take(n as int).map_values(
        |l: Seq<SpanView>| indented(indent@, l),
    );
    let mut out = new_lines();
    let mut i: usize = 0;
    proof {
        assert(lines_view(out@) =~= want.take(0));
    }
    while i < n
        invariant
            i <= n <= lines@.len(),
            want == lines_view(lines@).take(n as int).map_values(
                |l: Seq<SpanView>| indented(indent@, l),
            ),
            lines_view(out@) == want.take(i as int),
        decreases n - i,
    {
        push_line(&mut out, indent_line(indent, &lines[i]));
        i += 1;
        proof {
            assert(lines_view(out@) =~= want.take(i as int));
        }
    }
    proof {
        assert(want.take(n as int) =~= want);
    }
    out
}

pub fn render_inline_comments_internal(comments: &Vec<ReviewComment>, max_width: usize) -> (r: Vec<
    Line,
>)
    ensures
        lines_view(r@) == comments_rows(
            comments_view(comments@),
            max_width as int,
            comments@.len() as int,
        ),
{
    let mut lines = new_lines();
    let mut n: usize = 0;
    while n < comments.len()
        invariant
            n <= comments@.len(),
            lines_view(lines@) == comments_rows(
                comments_view(comments@),
                max_width as int,
                n as int,
            ),
        decreases comments@.len() - n,
    {
        let comment = &comments[n];
        let ghost start = lines_view(lines@);
        let suffix = match comment.line {
            Some(line) => joined(":", decimal_string(line).as_str()),
            None => " outdated".to_owned(),
        };
        let path = joined(comment.path.as_str(), suffix.as_str());
        let part = truncate_to(path.as_str(), max_width.saturating_sub(COMMENT_HEADER_COLS));
        let mut header = Line::empty();
        header.push("  ▌ ", fg(DIFF));
        header.push(
            joined(initial(comment.author.as_str()).as_str(), " ").as_str(),
            fg(BASE).bg(DIFF).bold(),
        );
        header.push(joined3("@", comment.author.as_str(), " · ").as_str(), fg(SUBTEXT0));
        header.push(part.as_str(), fg(MUTED));
        push_line(&mut lines, header);
        let body_width: usize = max_width.saturating_sub(4);
        if body_width > 0 {
            let rows = markdown_lines(comment.body.as_str(), body_width);
            let count: usize = if rows.len() < 8 {
                rows.len()
            } else {
                8
            };
            proof {
                assert(lines_view(rows@).len() == rows@.len());
            }
            append_lines(&mut lines, indent_lines("    ", &rows, count));
        }
        push_line(&mut lines, Line::empty());
        n += 1;
        proof {
            assert(comments_view(comments@)[n - 1] == comment@);
            assert(lines_view(lines@) =~= start + comment_rows(comment@, max_width as int));
        }
    }
    lines
}

/// The additions and deletions of the selected file, none where there is none.
pub open spec fn file_stats(a: App, i: usize) -> (u64, u64) {
    match a.pr_detail {
        Some(d) if i < d.files@.len() => (d.files@[i as int].additions, d.files@[i as int].deletions),
        _ => (0, 0),
    }
}

fn selected_file_stats(state: &AppState, i: usize) -> (r: (u64, u64))
    ensures
        r == file_stats(state@, i),
{
    if let Some(d) = &state.pr_detail {
        if i < d.files.len() {
            return (d.files[i].additions, d.files[i].deletions);
        }
    }
    (0, 0)
}

/// The header of the diff: what the file adds and removes, and the logical
/// line in view.
pub open spec fn diff_header(a: App, p: Pane) -> Seq<SpanView> {
    let (adds, dels) = file_stats(a, p.selected_file_index);
    let starts = a.render_cache.diff_line_starts;
    blank().push(sp("+"@ + decimal(adds as nat), fg(ADD).bg(BASE))).push(
        sp(" "@, bg(BASE)),
    ).push(sp("−"@ + decimal(dels as nat), fg(DEL).bg(BASE))).push(
        sp(
            "  line "@ + decimal(logical_line(starts, p.diff_scroll.offset) as nat) + " / "@
                + decimal(max(starts.len() as int, 1) as nat),
            fg(MUTED).bg(BASE),
        ),
    )
}

/// What the Diff blade draws, given the rows of its area: a diff that has not
/// arrived is loading, one that has and is empty is shown as such.
#[verifier::opaque]
pub open spec fn diff_ops(a: App, p: Pane, area: Rect, rows: Seq<Rect>) -> Seq<OpView> {
    let head = seq![
        fill_op(area, MANTLE),
        line_op(rows[0], diff_header(a, p), bg(BASE)),
    ];
    if a.pr_diff is None {
        head.push(line_op(rows[1], raw_row(" loading diff…"@), fg(MUTED).bg(MANTLE)))
    } else {
        head + viewport_ops(
            a.render_cache.diff_lines,
            p.diff_scroll.offset as int,
            fg(TEXT).bg(MANTLE),
            true,
            rows[1],
        )
    }
}

/// Draw the Diff blade into the two rows of its area.
pub fn render_diff_rows(scene: &mut Scene, area: Rect, rows: &Vec<Rect>, ctx: &RenderContext)
    requires
        rows@.len() == 2,
        rows@[1].wf(),
    ensures
        final(scene)@ == old(scene)@ + diff_ops(ctx.state@, ctx.view@, area, rows@),
{
    proof {
        reveal(diff_ops);
    }
    scene.fill(area, MANTLE);
    let (adds, dels) = selected_file_stats(ctx.state, ctx.view.selected_file_index);
    let starts = &ctx.state.render_cache.diff_line_starts;
    let line: usize = logical_line_for_visual_offset(starts, ctx.view.diff_scroll.offset);
    let total: usize = if starts.len() < 1 {
        1
    } else {
        starts.len()
    };
    let mut header = Line::empty();
    header.push(joined("+", decimal_string(adds).as_str()).as_str(), fg(ADD).bg(BASE));
    header.push(" ", bg(BASE));
    header.push(joined("−", decimal_string(dels).as_str()).as_str(), fg(DEL).bg(BASE));
    let place = joined(
        joined3("  line ", decimal_string(line as u64).as_str(), " / ").as_str(),
        decimal_string(total as u64).as_str(),
    );
    header.push(place.as_str(), fg(MUTED).bg(BASE));
    scene.line(rows[0], header, bg(BASE));
    if ctx.state.pr_diff.is_none() {
        scene.line(rows[1], Line::raw(" loading diff…"), fg(MUTED).bg(MANTLE));
    } else {
        ScrollViewport::new(
            &ctx.state.render_cache.diff_lines,
            ctx.view.diff_scroll.offset,
        ).style(fg(TEXT).bg(MANTLE)).scrollbar(true).render(scene, rows[1]);
    }
    proof {
        assert(scene@ =~= old(scene)@ + diff_ops(ctx.state@, ctx.view@, area, rows@));
    }
}

/// Draw the Diff blade.
pub fn render_diff(scene: &mut Scene, area: Rect, ctx: &RenderContext)
    requires
        area.wf(),
    ensures
        final(scene)@ == old(scene)@ + diff_ops(
            ctx.state@,
            ctx.view@,
            area,
            layout_rows(area, header_and_body()),
        ),
{
    let rows = split_header_and_body(area);
    render_diff_rows(scene, area, &rows, ctx);
}

} // verus!
