//! Markdown: what a document says is what its rows show.
use vstd::prelude::*;

use crate::draw::{blank, fg, max, min, no_lines, row, row_text, sp, SpanView, Style};
use crate::laws::text::{number, solid};
use crate::markdown::{
    base_style, code_block_rows, code_line, code_rows, code_style, lemma_code_line_text,
    lemma_fit_piece, lemma_row_text_join, lemma_row_text_one, lemma_row_text_push, markdown_rows,
    piece, rule_line, EventView, Md, MdTagEnd, TagView, CODE_LEAD,
};
use crate::split::{first_place, lemma_first_place_bound, text_lines, trimmed, without_cr, words};
use crate::text::{blank_char, decimal, repeated, text_columns};
use crate::theme::{CODE_BG, LINK, MUTED, TEXT};

verus! {

/// The characters of `s` that are not white space.
pub open spec fn ink(s: Seq<char>) -> Seq<char>
    decreases s.len(),
{
    if s.len() == 0 {
        s
    } else if blank_char(s.last()) {
        ink(s.drop_last())
    } else {
        ink(s.drop_last()).push(s.last())
    }
}

/// Whether the characters of `a` occur in `b` in their order.
pub open spec fn occurs_in(a: Seq<char>, b: Seq<char>) -> bool
    decreases b.len(),
{
    if a.len() == 0 {
        true
    } else if b.len() == 0 {
        false
    } else {
        occurs_in(a, b.drop_last()) || (a.last() == b.last() && occurs_in(
            a.drop_last(),
            b.drop_last(),
        ))
    }
}

/// The text that an event brings; those that mark something bring none.
pub open spec fn said(event: EventView) -> Seq<char> {
    match event {
        EventView::Text(s) => s,
        EventView::Code(s) => s,
        EventView::Html(s) => s,
        EventView::InlineHtml(s) => s,
        EventView::InlineMath(s) => s,
        EventView::DisplayMath(s) => s,
        _ => Seq::empty(),
    }
}

/// What the events of a document say, white space aside.
pub open spec fn said_all(events: Seq<EventView>) -> Seq<char>
    decreases events.len(),
{
    if events.len() == 0 {
        Seq::empty()
    } else {
        said_all(events.drop_last()) + ink(said(events.last()))
    }
}

/// What rows show, white space aside.
pub open spec fn shown(rows: Seq<Seq<SpanView>>) -> Seq<char>
    decreases rows.len(),
{
    if rows.len() == 0 {
        Seq::empty()
    } else {
        shown(rows.drop_last()) + ink(row_text(rows.last()))
    }
}

/// Whether a code block is open behind the events.
pub open spec fn code_open(events: Seq<EventView>) -> bool
    decreases events.len(),
{
    if events.len() == 0 {
        false
    } else {
        match events.last() {
            EventView::Start(TagView::CodeBlock) => true,
            EventView::End(MdTagEnd::CodeBlock) => false,
            _ => code_open(events.drop_last()),
        }
    }
}

/// No code block begins within another, and each is closed.
pub open spec fn code_is_closed(events: Seq<EventView>) -> bool {
    &&& !code_open(events)
    &&& forall|i: int|
        0 <= i < events.len() && #[trigger] events[i] == EventView::Start(TagView::CodeBlock)
            ==> !code_open(events.take(i))
}

proof fn lemma_ink_join(a: Seq<char>, b: Seq<char>)
    ensures
        ink(a + b) == ink(a) + ink(b),
    decreases b.len(),
{
    if b.len() == 0 {
        assert(a + b =~= a);
        assert(ink(a) + ink(b) =~= ink(a));
    } else {
        assert((a + b).drop_last() =~= a + b.drop_last());
        lemma_ink_join(a, b.drop_last());
        assert(ink(a + b) =~= ink(a) + ink(b));
    }
}

proof fn lemma_occurs_self(a: Seq<char>)
    ensures
        occurs_in(a, a),
    decreases a.len(),
{
    if a.len() > 0 {
        lemma_occurs_self(a.drop_last());
    }
}

proof fn lemma_occurs_more(a: Seq<char>, b: Seq<char>, c: Seq<char>)
    requires
        occurs_in(a, b),
    ensures
        occurs_in(a, b + c),
    decreases c.len(),
{
    if c.len() == 0 {
        assert(b + c =~= b);
    } else {
        assert((b + c).drop_last() =~= b + c.drop_last());
        lemma_occurs_more(a, b, c.drop_last());
    }
}

proof fn lemma_occurs_join(a: Seq<char>, b: Seq<char>, c: Seq<char>, d: Seq<char>)
    requires
        occurs_in(a, b),
        occurs_in(c, d),
    ensures
        occurs_in(a + c, b + d),
    decreases d.len(),
{
    if c.len() == 0 {
        assert(a + c =~= a);
        lemma_occurs_more(a, b, d);
    } else {
        assert((b + d).drop_last() =~= b + d.drop_last());
        assert((a + c).drop_last() =~= a + c.drop_last());
        if occurs_in(c, d.drop_last()) {
            lemma_occurs_join(a, b, c, d.drop_last());
        } else {
            lemma_occurs_join(a, b, c.drop_last(), d.drop_last());
        }
    }
}

proof fn lemma_occurs_split(a: Seq<char>, b: Seq<char>, c: Seq<char>) -> (k: int)
    requires
        occurs_in(a, b + c),
    ensures
        0 <= k <= a.len(),
        occurs_in(a.take(k), b),
        occurs_in(a.skip(k), c),
    decreases c.len(),
{
    if a.len() == 0 {
        assert(a.take(0) =~= Seq::empty());
        assert(a.skip(0) =~= Seq::empty());
        0
    } else if c.len() == 0 {
        assert(b + c =~= b);
        assert(a.take(a.len() as int) =~= a);
        assert(a.skip(a.len() as int) =~= Seq::empty());
        a.len() as int
    } else {
        assert((b + c).drop_last() =~= b + c.drop_last());
        if occurs_in(a, b + c.drop_last()) {
            let k = lemma_occurs_split(a, b, c.drop_last());
            lemma_occurs_more(a.skip(k), c.drop_last(), seq![c.last()]);
            assert(c.drop_last() + seq![c.last()] =~= c);
            k
        } else {
            let front = a.drop_last();
            let k = lemma_occurs_split(front, b, c.drop_last());
            assert(front.take(k) =~= a.take(k));
            assert(a.skip(k).drop_last() =~= front.skip(k));
            k
        }
    }
}

proof fn lemma_occurs_apart(a: Seq<char>, b: Seq<char>, x: Seq<char>, c: Seq<char>)
    requires
        occurs_in(a, b + c),
    ensures
        occurs_in(a, b + x + c),
{
    let k = lemma_occurs_split(a, b, c);
    lemma_occurs_more(a.take(k), b, x);
    lemma_occurs_join(a.take(k), b + x, a.skip(k), c);
    assert(a.take(k) + a.skip(k) =~= a);
}

proof fn lemma_occurs_front(a: Seq<char>, x: Seq<char>, b: Seq<char>)
    requires
        occurs_in(a + x, b),
    ensures
        occurs_in(a, b),
    decreases b.len(), x.len(),
{
    if x.len() == 0 {
        assert(a + x =~= a);
    } else if a.len() > 0 {
        assert((a + x).drop_last() =~= a + x.drop_last());
        let rest = b.drop_last();
        if occurs_in(a + x, rest) {
            lemma_occurs_front(a, x, rest);
        } else {
            lemma_occurs_front(a, x.drop_last(), rest);
        }
        lemma_occurs_more(a, rest, seq![b.last()]);
        assert(rest + seq![b.last()] =~= b);
    }
}

proof fn lemma_shown_push(rows: Seq<Seq<SpanView>>, line: Seq<SpanView>)
    ensures
        shown(rows.push(line)) == shown(rows) + ink(row_text(line)),
{
    assert(rows.push(line).drop_last() =~= rows);
}

proof fn lemma_shown_join(a: Seq<Seq<SpanView>>, b: Seq<Seq<SpanView>>)
    ensures
        shown(a + b) == shown(a) + shown(b),
    decreases b.len(),
{
    if b.len() == 0 {
        assert(a + b =~= a);
        assert(shown(a) + shown(b) =~= shown(a));
    } else {
        assert((a + b).drop_last() =~= a + b.drop_last());
        lemma_shown_join(a, b.drop_last());
        assert(shown(a + b) =~= shown(a) + shown(b));
    }
}

/// What is shown of a document that is being laid out.
pub open spec fn on_paper(md: Md) -> Seq<char> {
    shown(md.lines) + ink(row_text(md.current))
}

spec fn lead(md: Md) -> Seq<char> {
    if md.current.len() == 0 {
        Seq::empty()
    } else {
        ink(md.first)
    }
}

proof fn lemma_closed_paper(md: Md)
    ensures
        shown(md.closed().lines) == shown(md.lines) + lead(md) + ink(row_text(md.current)),
        on_paper(md.closed()) == shown(md.closed().lines),
        md.closed().current.len() == 0,
        md.closed().first == if md.current.len() == 0 {
            md.first
        } else {
            md.cont
        },
{
    if md.current.len() > 0 {
        let front = if md.first.len() == 0 {
            blank()
        } else {
            row(md.first, base_style())
        };
        if md.first.len() == 0 {
            assert(row_text(front) =~= md.first);
        } else {
            lemma_row_text_one(md.first, base_style());
        }
        lemma_row_text_join(front, md.current);
        lemma_ink_join(md.first, row_text(md.current));
        lemma_shown_push(md.lines, front + md.current);
        assert(shown(md.closed().lines) =~= shown(md.lines) + lead(md) + ink(row_text(md.current)));
    } else {
        assert(row_text(md.current) =~= Seq::empty());
        assert(shown(md.closed().lines) =~= shown(md.lines) + lead(md) + ink(row_text(md.current)));
    }
    let done = md.closed();
    assert(row_text(done.current) =~= Seq::empty());
    assert(on_paper(done) =~= shown(done.lines));
}

proof fn lemma_closed_says(md: Md, t: Seq<char>)
    requires
        occurs_in(t, on_paper(md)),
    ensures
        occurs_in(t, on_paper(md.closed())),
        occurs_in(t, shown(md.closed().lines)),
{
    lemma_closed_paper(md);
    lemma_occurs_apart(t, shown(md.lines), lead(md), ink(row_text(md.current)));
}

proof fn lemma_blank_ink(gap: bool)
    ensures
        ink(if gap {
            " "@
        } else {
            ""@
        }).len() == 0,
{
    reveal_strlit(" ");
    reveal_strlit("");
    let s = " "@;
    assert(s.drop_last() =~= Seq::empty());
    assert(ink(s.drop_last()).len() == 0);
}

/// A word that is set is shown behind everything before it.
proof fn lemma_emit_says(md: Md, word: Seq<char>, style: Style, t: Seq<char>)
    requires
        occurs_in(t, on_paper(md)),
    ensures
        occurs_in(t + ink(word), on_paper(md.emit(word, style))),
    decreases
            word.len(),
            (if md.current.len() == 0 {
                0nat
            } else {
                1nat
            }),
{
    if word.len() == 0 {
        assert(t + ink(word) =~= t);
    } else if md.current.len() == 0 {
        assert(row_text(md.current) =~= Seq::empty());
        assert(on_paper(md) =~= shown(md.lines));
        if text_columns(md.first + word) > md.width {
            let n = piece(md.first, word, md.width);
            lemma_fit_piece(md.first, word, min(word.len() as int, md.width), md.width);
            let head = word.take(n);
            let begun = Md { current: row(head, style), ..md };
            lemma_row_text_one(head, style);
            lemma_occurs_self(ink(head));
            lemma_occurs_join(t, shown(md.lines), ink(head), ink(head));
            lemma_closed_says(begun, t + ink(head));
            lemma_emit_says(begun.closed(), word.skip(n), style, t + ink(head));
            lemma_ink_join(head, word.skip(n));
            assert(head + word.skip(n) =~= word);
            assert(t + ink(head) + ink(word.skip(n)) =~= t + ink(word));
        } else {
            lemma_row_text_one(word, style);
            lemma_occurs_self(ink(word));
            lemma_occurs_join(t, shown(md.lines), ink(word), ink(word));
        }
    } else {
        let space = if md.gap {
            " "@
        } else {
            ""@
        };
        if md.columns_with(space + word) > md.width {
            lemma_closed_says(md, t);
            lemma_closed_paper(md);
            lemma_emit_says(md.closed(), word, style, t);
        } else {
            lemma_appended(md, word, style);
            lemma_occurs_self(ink(word));
            lemma_occurs_join(t, on_paper(md), ink(word), ink(word));
        }
    }
}

/// A word that fits joins the row begun.
proof fn lemma_appended(md: Md, word: Seq<char>, style: Style)
    requires
        word.len() > 0,
        md.current.len() > 0,
        md.columns_with(
            (if md.gap {
                " "@
            } else {
                ""@
            }) + word,
        ) <= md.width,
    ensures
        md.emit(word, style).lines == md.lines,
        row_text(md.emit(word, style).current) == row_text(md.current) + (if md.gap {
            " "@
        } else {
            ""@
        }) + word,
        on_paper(md.emit(word, style)) == on_paper(md) + ink(word),
{
    reveal_strlit("");
    let space = if md.gap {
        " "@
    } else {
        ""@
    };
    let spaced = if md.gap {
        md.current.push(sp(" "@, base_style()))
    } else {
        md.current
    };
    lemma_row_text_push(md.current, sp(" "@, base_style()));
    lemma_row_text_push(spaced, sp(word, style));
    assert(row_text(spaced) =~= row_text(md.current) + space);
    lemma_ink_join(row_text(md.current), space);
    lemma_ink_join(row_text(md.current) + space, word);
    lemma_blank_ink(md.gap);
    assert(ink(row_text(md.current)) + ink(space) =~= ink(row_text(md.current)));
    assert(on_paper(md.emit(word, style)) =~= on_paper(md) + ink(word));
}

/// Setting a word only adds rows.
proof fn lemma_emit_adds(md: Md, word: Seq<char>, style: Style) -> (more: Seq<Seq<SpanView>>)
    ensures
        md.emit(word, style).lines == md.lines + more,
        md.emit(word, style).in_code == md.in_code,
        md.emit(word, style).code == md.code,
    decreases
            word.len(),
            (if md.current.len() == 0 {
                0nat
            } else {
                1nat
            }),
{
    let none = Seq::<Seq<SpanView>>::empty();
    assert(md.lines + none =~= md.lines);
    if word.len() == 0 {
        none
    } else if md.current.len() == 0 {
        if text_columns(md.first + word) > md.width {
            let n = piece(md.first, word, md.width);
            lemma_fit_piece(md.first, word, min(word.len() as int, md.width), md.width);
            let begun = Md { current: row(word.take(n), style), ..md };
            let more = lemma_emit_adds(begun.closed(), word.skip(n), style);
            let line = begun.closed().lines.last();
            assert(begun.closed().lines =~= md.lines.push(line));
            assert(md.lines.push(line) + more =~= md.lines + (seq![line] + more));
            seq![line] + more
        } else {
            none
        }
    } else {
        let space = if md.gap {
            " "@
        } else {
            ""@
        };
        if md.columns_with(space + word) > md.width {
            let more = lemma_emit_adds(md.closed(), word, style);
            let line = md.closed().lines.last();
            assert(md.closed().lines =~= md.lines.push(line));
            assert(md.lines.push(line) + more =~= md.lines + (seq![line] + more));
            seq![line] + more
        } else {
            none
        }
    }
}

proof fn lemma_words_say(md: Md, list: Seq<Seq<char>>, style: Style, t: Seq<char>)
    requires
        occurs_in(t, on_paper(md)),
    ensures
        occurs_in(t + words_ink(list), on_paper(md.emit_all(list, style))),
        md.emit_all(list, style).in_code == md.in_code,
        md.emit_all(list, style).code == md.code,
    decreases list.len(),
{
    if list.len() == 0 {
        assert(t + words_ink(list) =~= t);
    } else {
        let front = list.drop_last();
        lemma_words_say(md, front, style, t);
        let before = md.emit_all(front, style);
        lemma_emit_says(before, list.last(), style, t + words_ink(front));
        let _ = lemma_emit_adds(before, list.last(), style);
        assert(t + words_ink(front) + ink(list.last()) =~= t + words_ink(list));
    }
}

spec fn words_ink(list: Seq<Seq<char>>) -> Seq<char>
    decreases list.len(),
{
    if list.len() == 0 {
        Seq::empty()
    } else {
        words_ink(list.drop_last()) + ink(list.last())
    }
}

proof fn lemma_words_ink(s: Seq<char>)
    ensures
        words_ink(words(s)) == ink(s),
        s.len() > 0 && !blank_char(s.last()) ==> words(s).len() > 0,
    decreases s.len(),
{
    if s.len() > 0 {
        let front = s.drop_last();
        lemma_words_ink(front);
        let rest = words(front);
        let c = s.last();
        if !blank_char(c) {
            if s.len() == 1 || blank_char(s[s.len() - 2]) {
                let w = seq![c];
                assert(w.drop_last() =~= Seq::empty());
                assert(ink(w.drop_last()) =~= Seq::empty());
                assert(ink(w) =~= seq![c]);
                assert(rest.push(w).drop_last() =~= rest);
                assert(words_ink(rest.push(w)) =~= ink(front).push(c));
            } else {
                assert(front.last() == s[s.len() - 2]);
                let w = rest.last().push(c);
                let all = rest.drop_last().push(w);
                assert(all.drop_last() =~= rest.drop_last());
                assert(w.drop_last() =~= rest.last());
                assert(ink(w) =~= ink(rest.last()).push(c));
                assert(words_ink(all) =~= words_ink(rest).push(c));
            }
        }
    }
}

proof fn lemma_code_rows_say(text: Seq<char>, width: int)
    ensures
        occurs_in(ink(text), shown(code_rows(text, width))),
    decreases text.len(),
{
    let n = piece(CODE_LEAD@, text, width);
    lemma_fit_piece(CODE_LEAD@, text, min(text.len() as int, width), width);
    if text_columns(CODE_LEAD@ + text) <= width || n >= text.len() {
        lemma_code_line_says(text);
    } else {
        let head = text.take(n);
        lemma_code_line_says(head);
        lemma_code_rows_say(text.skip(n), width);
        let first = no_lines().push(code_line(head));
        lemma_shown_join(first, code_rows(text.skip(n), width));
        lemma_occurs_join(
            ink(head),
            shown(first),
            ink(text.skip(n)),
            shown(code_rows(text.skip(n), width)),
        );
        lemma_ink_join(head, text.skip(n));
        assert(head + text.skip(n) =~= text);
    }
}

proof fn lemma_code_line_says(text: Seq<char>)
    ensures
        occurs_in(ink(text), shown(no_lines().push(code_line(text)))),
{
    lemma_code_line_text(text);
    lemma_ink_join(CODE_LEAD@, text);
    lemma_shown_push(no_lines(), code_line(text));
    lemma_occurs_self(ink(text));
    lemma_occurs_join(Seq::empty(), ink(CODE_LEAD@), ink(text), ink(text));
    assert(Seq::<char>::empty() + ink(text) =~= ink(text));
    assert(shown(no_lines()) + ink(row_text(code_line(text))) =~= ink(CODE_LEAD@) + ink(text));
}

spec fn lines_ink(list: Seq<Seq<char>>, n: int) -> Seq<char>
    decreases n,
{
    if n <= 0 {
        Seq::empty()
    } else {
        lines_ink(list, n - 1) + ink(list[n - 1])
    }
}

proof fn lemma_code_block_says(list: Seq<Seq<char>>, width: int, n: int)
    requires
        0 <= n <= list.len(),
    ensures
        occurs_in(lines_ink(list, n), shown(code_block_rows(list, width, n))),
    decreases n,
{
    if n > 0 {
        lemma_code_block_says(list, width, n - 1);
        lemma_code_rows_say(list[n - 1], width);
        lemma_shown_join(code_block_rows(list, width, n - 1), code_rows(list[n - 1], width));
        lemma_occurs_join(
            lines_ink(list, n - 1),
            shown(code_block_rows(list, width, n - 1)),
            ink(list[n - 1]),
            shown(code_rows(list[n - 1], width)),
        );
    }
}

proof fn lemma_lines_ink_tail(first: Seq<char>, rest: Seq<Seq<char>>, n: int)
    requires
        0 <= n <= rest.len(),
    ensures
        lines_ink(seq![first] + rest, n + 1) == ink(first) + lines_ink(rest, n),
    decreases n,
{
    let all = seq![first] + rest;
    if n == 0 {
        assert(lines_ink(all, 0) =~= Seq::empty());
        assert(lines_ink(all, 1) =~= ink(first) + lines_ink(rest, 0));
    } else {
        lemma_lines_ink_tail(first, rest, n - 1);
        assert(lines_ink(all, n + 1) =~= ink(first) + lines_ink(rest, n));
    }
}

proof fn lemma_lines_keep_ink(s: Seq<char>)
    ensures
        lines_ink(text_lines(s), text_lines(s).len() as int) == ink(s),
    decreases s.len(),
{
    if s.len() > 0 {
        let k = first_place(s, '\n');
        lemma_first_place_bound(s, '\n');
        if k >= s.len() {
            lemma_lines_ink_tail(s, Seq::empty(), 0);
            assert(seq![s] + Seq::<Seq<char>>::empty() =~= seq![s]);
            assert(ink(s) + lines_ink(Seq::empty(), 0) =~= ink(s));
        } else {
            lemma_line_end(s);
            let rest = s.skip(k + 1);
            lemma_lines_keep_ink(rest);
            let line = without_cr(s.take(k));
            let below = text_lines(rest);
            lemma_lines_ink_tail(line, below, below.len() as int);
            lemma_cr_ink(s.take(k));
            let end = seq!['\n'];
            assert(end.drop_last() =~= Seq::empty());
            assert(ink(end) =~= Seq::empty()) by {
                assert(ink(end.drop_last()) =~= Seq::empty());
            }
            lemma_ink_join(s.take(k), end);
            lemma_ink_join(s.take(k) + end, rest);
            assert(s.take(k) + end + rest =~= s);
            assert(ink(s.take(k)) + ink(end) =~= ink(s.take(k)));
            assert((seq![line] + below).len() == below.len() + 1);
        }
    } else {
        assert(text_lines(s).len() == 0);
    }
}

proof fn lemma_line_end(s: Seq<char>)
    ensures
        first_place(s, '\n') < s.len() ==> s[first_place(s, '\n')] == '\n',
    decreases s.len(),
{
    if s.len() > 0 && s[0] != '\n' {
        lemma_line_end(s.skip(1));
        lemma_first_place_bound(s.skip(1), '\n');
    }
}

proof fn lemma_cr_ink(s: Seq<char>)
    ensures
        ink(without_cr(s)) == ink(s),
{
}

/// Whether `t` is said by what is laid out, the code not yet shown included.
spec fn says(md: Md, t: Seq<char>) -> bool {
    if md.in_code {
        occurs_in(t, shown(md.lines) + ink(md.code))
    } else {
        occurs_in(t, on_paper(md))
    }
}

proof fn lemma_grown(md: Md, after: Md, more: Seq<Seq<SpanView>>, t: Seq<char>)
    requires
        md.in_code,
        says(md, t),
        after.in_code,
        after.code == md.code,
        after.lines == md.lines + more,
    ensures
        says(after, t),
{
    lemma_shown_join(md.lines, more);
    lemma_occurs_apart(t, shown(md.lines), shown(more), ink(md.code));
}

proof fn lemma_closed_adds(md: Md) -> (more: Seq<Seq<SpanView>>)
    ensures
        md.closed().lines == md.lines + more,
        md.closed().in_code == md.in_code,
        md.closed().code == md.code,
{
    if md.current.len() == 0 {
        assert(md.lines + Seq::<Seq<SpanView>>::empty() =~= md.lines);
        Seq::empty()
    } else {
        let line = md.closed().lines.last();
        assert(md.closed().lines =~= md.lines + seq![line]);
        seq![line]
    }
}

proof fn lemma_closed_keeps(md: Md, t: Seq<char>)
    requires
        says(md, t),
    ensures
        says(md.closed(), t),
        md.closed().in_code == md.in_code,
        md.closed().code == md.code,
{
    let more = lemma_closed_adds(md);
    if md.in_code {
        lemma_grown(md, md.closed(), more, t);
    } else {
        lemma_closed_says(md, t);
    }
}

proof fn lemma_emit_keeps(md: Md, word: Seq<char>, style: Style, t: Seq<char>)
    requires
        says(md, t),
    ensures
        says(md.emit(word, style), t),
        md.emit(word, style).in_code == md.in_code,
        md.emit(word, style).code == md.code,
{
    let more = lemma_emit_adds(md, word, style);
    if md.in_code {
        lemma_grown(md, md.emit(word, style), more, t);
    } else {
        lemma_emit_says(md, word, style, t);
        lemma_occurs_front(t, ink(word), on_paper(md.emit(word, style)));
    }
}

proof fn lemma_line_keeps(md: Md, line: Seq<SpanView>, t: Seq<char>)
    requires
        says(md, t),
    ensures
        says(Md { lines: md.lines.push(line), ..md }, t),
{
    let after = Md { lines: md.lines.push(line), ..md };
    assert(after.lines =~= md.lines + seq![line]);
    if md.in_code {
        lemma_grown(md, after, seq![line], t);
    } else {
        lemma_shown_push(md.lines, line);
        lemma_occurs_apart(t, shown(md.lines), ink(row_text(line)), ink(row_text(md.current)));
    }
}

proof fn lemma_text_says(md: Md, s: Seq<char>, t: Seq<char>)
    requires
        says(md, t),
    ensures
        says(md.with_text(s), t + ink(s)),
        md.with_text(s).in_code == md.in_code,
{
    if md.in_code {
        lemma_code_grows(md, s, t);
    } else {
        lemma_words_ink(s);
        lemma_words_say(md.captured(s), words(s), md.style(), t);
    }
}

proof fn lemma_code_grows(md: Md, s: Seq<char>, t: Seq<char>)
    requires
        md.in_code,
        says(md, t),
    ensures
        says(Md { code: md.code + s, ..md }, t + ink(s)),
{
    lemma_ink_join(md.code, s);
    lemma_occurs_self(ink(s));
    lemma_occurs_join(t, shown(md.lines) + ink(md.code), ink(s), ink(s));
    assert(shown(md.lines) + ink(md.code) + ink(s) =~= shown(md.lines) + ink(md.code + s));
}

proof fn lemma_end_says(md: Md, end: MdTagEnd, t: Seq<char>)
    requires
        says(md, t),
    ensures
        says(md.ended(end), t),
        end != MdTagEnd::CodeBlock ==> md.ended(end).in_code == md.in_code,
        end == MdTagEnd::CodeBlock ==> !md.ended(end).in_code,
{
    lemma_closed_keeps(md, t);
    match end {
        MdTagEnd::Paragraph => {
            lemma_line_keeps(md.closed(), blank(), t);
        },
        MdTagEnd::CodeBlock => {
            let list = text_lines(md.code);
            let n = list.len() as int;
            let rows = code_block_rows(list, md.width, n);
            lemma_code_block_says(list, md.width, n);
            lemma_lines_keep_ink(md.code);
            lemma_shown_join(md.lines, rows);
            if md.in_code {
                let k = lemma_occurs_split(t, shown(md.lines), ink(md.code));
                lemma_occurs_within(t.skip(k), ink(md.code), shown(rows));
                lemma_occurs_join(t.take(k), shown(md.lines), t.skip(k), shown(rows));
                assert(t.take(k) + t.skip(k) =~= t);
                lemma_occurs_more(t, shown(md.lines) + shown(rows), ink(row_text(md.current)));
            } else {
                lemma_occurs_apart(t, shown(md.lines), shown(rows), ink(row_text(md.current)));
            }
        },
        MdTagEnd::Link => {
            let url = md.link_url.unwrap_or(seq![]);
            let done = Md { link_url: None, link_text: None, ..md };
            lemma_emit_keeps(done, "("@ + url + ")"@, fg(MUTED), t);
        },
        MdTagEnd::Image => {
            let alt = trimmed(md.image_alt.unwrap_or(seq![]));
            let done = Md { image_url: None, image_alt: None, ..md };
            lemma_emit_keeps(done, "🖼 "@ + alt, base_style().dim(), t);
        },
        _ => {},
    }
}

proof fn lemma_occurs_within(a: Seq<char>, b: Seq<char>, c: Seq<char>)
    requires
        occurs_in(a, b),
        occurs_in(b, c),
    ensures
        occurs_in(a, c),
    decreases b.len() + c.len(),
{
    if a.len() > 0 {
        let front = c.drop_last();
        if occurs_in(b, front) {
            lemma_occurs_within(a, b, front);
        } else {
            if occurs_in(a, b.drop_last()) {
                lemma_occurs_within(a, b.drop_last(), front);
            } else {
                lemma_occurs_within(a.drop_last(), b.drop_last(), front);
            }
        }
    }
}

proof fn lemma_start_says(md: Md, tag: TagView, t: Seq<char>)
    requires
        says(md, t),
        tag == TagView::CodeBlock ==> !md.in_code,
    ensures
        says(md.opened(tag), t),
        tag != TagView::CodeBlock ==> md.opened(tag).in_code == md.in_code,
        tag == TagView::CodeBlock ==> md.opened(tag).in_code,
{
    lemma_closed_keeps(md, t);
    if tag == TagView::CodeBlock {
        lemma_closed_says(md, t);
        lemma_occurs_more(t, shown(md.closed().lines), ink(md.opened(tag).code));
    }
}

proof fn lemma_step_says(md: Md, event: EventView, t: Seq<char>)
    requires
        says(md, t),
        event == EventView::Start(TagView::CodeBlock) ==> !md.in_code,
    ensures
        says(md.step(event), t + ink(said(event))),
        md.step(event).in_code == match event {
            EventView::Start(TagView::CodeBlock) => true,
            EventView::End(MdTagEnd::CodeBlock) => false,
            _ => md.in_code,
        },
{
    assert(ink(Seq::<char>::empty()) =~= Seq::empty());
    assert(t + Seq::<char>::empty() =~= t);
    match event {
        EventView::Start(tag) => lemma_start_says(md, tag, t),
        EventView::End(end) => lemma_end_says(md, end, t),
        EventView::Text(s) | EventView::Html(s) | EventView::InlineHtml(s) | EventView::InlineMath(
            s,
        ) | EventView::DisplayMath(s) => lemma_text_says(md, s, t),
        EventView::Code(s) => {
            if md.in_code {
                lemma_code_grows(md, s, t);
            } else {
                let _ = lemma_emit_adds(md.captured(s), s, code_style());
                lemma_emit_says(md.captured(s), s, code_style(), t);
            }
        },
        EventView::HardBreak => lemma_closed_keeps(md, t),
        EventView::Rule => {
            lemma_closed_keeps(md, t);
            lemma_line_keeps(md.closed(), rule_line(md.width), t);
        },
        EventView::TaskListMarker(checked) => {
            lemma_emit_keeps(
                md,
                if checked {
                    "[x]"@
                } else {
                    "[ ]"@
                },
                base_style(),
                t,
            );
        },
        _ => {},
    }
}

proof fn lemma_run_says(md: Md, events: Seq<EventView>)
    requires
        md == Md::start(md.width),
        forall|i: int|
            0 <= i < events.len() && #[trigger] events[i] == EventView::Start(TagView::CodeBlock)
                ==> !code_open(events.take(i)),
    ensures
        says(md.run(events), said_all(events)),
        md.run(events).in_code == code_open(events),
    decreases events.len(),
{
    if events.len() > 0 {
        let front = events.drop_last();
        assert forall|i: int| 0 <= i < front.len() && #[trigger] front[i] == EventView::Start(
            TagView::CodeBlock,
        ) implies !code_open(front.take(i)) by {
            assert(events[i] == front[i]);
            assert(front.take(i) =~= events.take(i));
        }
        lemma_run_says(md, front);
        assert(events.take(events.len() - 1) =~= front);
        assert(events[events.len() - 1] == events.last());
        lemma_step_says(md.run(front), events.last(), said_all(front));
    }
}

/// Rendering loses no text: everything that a document says, inline code and
/// code blocks included, is shown by its rows in the same order.
pub proof fn rendering_loses_no_text(events: Seq<EventView>, width: int)
    requires
        code_is_closed(events),
    ensures
        occurs_in(said_all(events), shown(markdown_rows(events, width))),
{
    let start = Md::start(max(width, 1));
    lemma_run_says(start, events);
    lemma_closed_says(start.run(events), said_all(events));
}

/// An event that only says something or marks how it is said.
pub open spec fn is_plain(event: EventView) -> bool {
    match event {
        EventView::Start(TagView::Paragraph) => true,
        EventView::Start(TagView::Emphasis) => true,
        EventView::Start(TagView::Strong) => true,
        EventView::Start(TagView::Strikethrough) => true,
        EventView::End(MdTagEnd::Paragraph) => true,
        EventView::End(MdTagEnd::Emphasis) => true,
        EventView::End(MdTagEnd::Strong) => true,
        EventView::End(MdTagEnd::Strikethrough) => true,
        EventView::Text(_) => true,
        EventView::Code(_) => true,
        EventView::SoftBreak => true,
        EventView::HardBreak => true,
        _ => false,
    }
}

spec fn bare(md: Md) -> bool {
    md.first.len() == 0 && md.cont.len() == 0 && !md.in_code
}

proof fn lemma_closed_exact(md: Md)
    requires
        bare(md),
    ensures
        bare(md.closed()),
        on_paper(md.closed()) == on_paper(md),
{
    lemma_closed_paper(md);
    assert(lead(md) =~= Seq::empty()) by {
        assert(md.first =~= Seq::empty());
    }
    assert(shown(md.lines) + lead(md) + ink(row_text(md.current)) =~= on_paper(md));
}

proof fn lemma_emit_exact(md: Md, word: Seq<char>, style: Style)
    requires
        bare(md),
    ensures
        bare(md.emit(word, style)),
        on_paper(md.emit(word, style)) == on_paper(md) + ink(word),
    decreases
            word.len(),
            (if md.current.len() == 0 {
                0nat
            } else {
                1nat
            }),
{
    if word.len() == 0 {
        assert(on_paper(md) + ink(word) =~= on_paper(md));
    } else if md.current.len() == 0 {
        assert(row_text(md.current) =~= Seq::empty());
        assert(on_paper(md) =~= shown(md.lines));
        if text_columns(md.first + word) > md.width {
            let n = piece(md.first, word, md.width);
            lemma_fit_piece(md.first, word, min(word.len() as int, md.width), md.width);
            let head = word.take(n);
            let begun = Md { current: row(head, style), ..md };
            lemma_row_text_one(head, style);
            lemma_closed_exact(begun);
            lemma_emit_exact(begun.closed(), word.skip(n), style);
            lemma_ink_join(head, word.skip(n));
            assert(head + word.skip(n) =~= word);
            assert(on_paper(md) + ink(head) + ink(word.skip(n)) =~= on_paper(md) + ink(word));
        } else {
            lemma_row_text_one(word, style);
        }
    } else {
        let space = if md.gap {
            " "@
        } else {
            ""@
        };
        if md.columns_with(space + word) > md.width {
            lemma_closed_exact(md);
            lemma_closed_paper(md);
            lemma_emit_exact(md.closed(), word, style);
        } else {
            lemma_appended(md, word, style);
        }
    }
}

proof fn lemma_words_exact(md: Md, list: Seq<Seq<char>>, style: Style)
    requires
        bare(md),
    ensures
        bare(md.emit_all(list, style)),
        on_paper(md.emit_all(list, style)) == on_paper(md) + words_ink(list),
    decreases list.len(),
{
    if list.len() == 0 {
        assert(on_paper(md) + words_ink(list) =~= on_paper(md));
    } else {
        let front = list.drop_last();
        lemma_words_exact(md, front, style);
        lemma_emit_exact(md.emit_all(front, style), list.last(), style);
        assert(on_paper(md) + words_ink(front) + ink(list.last()) =~= on_paper(md) + words_ink(
            list,
        ));
    }
}

proof fn lemma_run_exact(md: Md, events: Seq<EventView>)
    requires
        md == Md::start(md.width),
        forall|i: int| 0 <= i < events.len() ==> is_plain(#[trigger] events[i]),
    ensures
        bare(md.run(events)),
        on_paper(md.run(events)) == said_all(events),
    decreases events.len(),
{
    if events.len() == 0 {
        assert(on_paper(md) =~= Seq::empty());
    } else {
        let front = events.drop_last();
        assert forall|i: int| 0 <= i < front.len() implies is_plain(#[trigger] front[i]) by {
            assert(front[i] == events[i]);
        }
        lemma_run_exact(md, front);
        let before = md.run(front);
        let event = events[events.len() - 1];
        assert(is_plain(event));
        assert(ink(Seq::<char>::empty()) =~= Seq::empty());
        assert(said_all(front) + Seq::<char>::empty() =~= said_all(front));
        lemma_closed_exact(before);
        match event {
            EventView::Text(s) => {
                lemma_words_ink(s);
                lemma_words_exact(before.captured(s), words(s), before.style());
            },
            EventView::Code(s) => {
                lemma_emit_exact(before.captured(s), s, code_style());
            },
            EventView::End(MdTagEnd::Paragraph) => {
                let done = before.closed();
                lemma_closed_paper(before);
                lemma_shown_push(done.lines, blank());
                assert(ink(row_text(blank())) =~= Seq::empty()) by {
                    assert(row_text(blank()) =~= Seq::empty());
                }
                assert(shown(done.lines) + Seq::<char>::empty() =~= shown(done.lines));
            },
            _ => {},
        }
    }
}

/// The rows of plain text show just what it says, white space aside: nothing is
/// left out, said twice or added.
pub proof fn plain_text_is_shown_exactly(events: Seq<EventView>, width: int)
    requires
        forall|i: int| 0 <= i < events.len() ==> is_plain(#[trigger] events[i]),
    ensures
        shown(markdown_rows(events, width)) == said_all(events),
{
    let start = Md::start(max(width, 1));
    lemma_run_exact(start, events);
    let md = start.run(events);
    lemma_closed_exact(md);
    lemma_closed_paper(md);
}

/// A word that fits behind what the row holds joins it, set off by a blank
/// where one is due; one that does not fit begins the next row. A word that
/// fits on a row of its own is not broken.
pub proof fn words_break_only_where_they_must(md: Md, word: Seq<char>, style: Style)
    requires
        word.len() > 0,
    ensures
        ({
            let after = md.emit(word, style);
            let blank_due = if md.gap {
                seq![' ']
            } else {
                seq![]
            };
            &&& md.current.len() > 0 && text_columns(
                md.first + row_text(md.current) + (blank_due + word),
            ) <= md.width ==> after.lines == md.lines && row_text(after.current) == row_text(
                md.current,
            ) + blank_due + word && after.current.last() == sp(word, style)
            &&& md.current.len() == 0 && text_columns(md.first + word) <= md.width ==> after.lines
                == md.lines && after.current == seq![sp(word, style)]
            &&& md.current.len() > 0 && text_columns(
                md.first + row_text(md.current) + (blank_due + word),
            ) > md.width && text_columns(md.cont + word) <= md.width ==> after.lines.len()
                == md.lines.len() + 1 && row_text(after.lines.last()) == md.first + row_text(
                md.current,
            ) && after.current == seq![sp(word, style)]
        }),
{
    reveal_strlit(" ");
    reveal_strlit("");
    let blank_due = if md.gap {
        seq![' ']
    } else {
        seq![]
    };
    let space = if md.gap {
        " "@
    } else {
        ""@
    };
    assert(blank_due =~= space);
    assert(row(word, style) =~= seq![sp(word, style)]);
    if md.current.len() > 0 {
        if md.columns_with(space + word) <= md.width {
            lemma_appended(md, word, style);
        } else if text_columns(md.cont + word) <= md.width {
            let done = md.closed();
            let front = if md.first.len() == 0 {
                blank()
            } else {
                row(md.first, base_style())
            };
            lemma_row_text_join(front, md.current);
            if md.first.len() == 0 {
                assert(row_text(front) =~= md.first);
            } else {
                lemma_row_text_one(md.first, base_style());
            }
            assert(done.emit(word, style).lines == done.lines);
        }
    }
}

/// Inline code is set in the colours of code, text in the style in force, each
/// whole where it fits on the row.
pub proof fn inline_code_looks_like_code(md: Md, s: Seq<char>)
    requires
        s.len() > 0,
        !md.in_code,
        md.current.len() == 0,
        text_columns(md.first + s) <= md.width,
    ensures
        md.step(EventView::Code(s)).current == seq![
            sp(
                s,
                Style {
                    fg: Some(TEXT),
                    bg: Some(CODE_BG),
                    bold: false,
                    dim: false,
                    italic: false,
                    underlined: false,
                    crossed_out: false,
                },
            ),
        ],
        solid(s) ==> md.step(EventView::Text(s)).current == seq![sp(s, md.style())],
{
    words_break_only_where_they_must(md.captured(s), s, code_style());
    if solid(s) {
        crate::laws::text::solid_text_is_one_word(s);
        let one = seq![s];
        assert(one.drop_last() =~= Seq::empty());
        let now = md.captured(s);
        assert(now.emit_all(one.drop_last(), md.style()) == now);
        words_break_only_where_they_must(now, s, md.style());
    }
}

/// Emphasis, strength and strikethrough change the style of what stands within
/// them, on top of the style around them, and of nothing behind them. A link is
/// underlined in its own colour.
pub proof fn marks_change_the_style_within(md: Md)
    requires
        md.styles.len() > 0,
    ensures
        md.opened(TagView::Emphasis).style() == (Style { italic: true, ..md.style() }),
        md.opened(TagView::Strong).style() == (Style { bold: true, ..md.style() }),
        md.opened(TagView::Strikethrough).style() == (Style { crossed_out: true, ..md.style() }),
        md.opened(TagView::Emphasis).ended(MdTagEnd::Emphasis).style() == md.style(),
        md.opened(TagView::Strong).ended(MdTagEnd::Strong).style() == md.style(),
        md.opened(TagView::Strikethrough).ended(MdTagEnd::Strikethrough).style() == md.style(),
        forall|url: Seq<char>|
            (#[trigger] md.opened(TagView::Link(url))).style().underlined && md.opened(
                TagView::Link(url),
            ).style().fg == Some(LINK),
        forall|level: u8|
            (#[trigger] md.opened(TagView::Heading(level))).style().bold && md.opened(
                TagView::Heading(level),
            ).style().fg == Some(TEXT),
{
    let e = md.opened(TagView::Emphasis);
    assert(e.styles.drop_last() =~= md.styles);
    let b = md.opened(TagView::Strong);
    assert(b.styles.drop_last() =~= md.styles);
    let x = md.opened(TagView::Strikethrough);
    assert(x.styles.drop_last() =~= md.styles);
}

/// Behind the label of a link stands its address in brackets, unless the label
/// is the address itself or there is none.
pub proof fn link_shows_its_address(md: Md, url: Seq<char>, label: Seq<char>)
    requires
        md.link_url == Some(url),
        md.link_text == Some(label),
        md.current.len() == 0,
        text_columns(md.first + "("@ + url + ")"@) <= md.width,
    ensures
        url.len() > 0 && trimmed(label).len() > 0 && trimmed(label) != url ==> row_text(
            md.ended(MdTagEnd::Link).current,
        ) == "("@ + url + ")"@,
        url.len() == 0 || trimmed(label).len() == 0 || trimmed(label) == url ==> md.ended(
            MdTagEnd::Link,
        ).current == md.current,
{
    reveal_strlit("(");
    reveal_strlit(")");
    let word = "("@ + url + ")"@;
    let done = Md { link_url: None, link_text: None, ..md };
    assert(md.first + word =~= md.first + "("@ + url + ")"@);
    words_break_only_where_they_must(done, word, fg(MUTED));
    lemma_row_text_one(word, fg(MUTED));
    assert(row(word, fg(MUTED)) =~= seq![sp(word, fg(MUTED))]);
}

/// What is said within a link or an image is kept for its end.
pub proof fn labels_are_kept(md: Md, s: Seq<char>, label: Seq<char>)
    requires
        !md.in_code,
    ensures
        md.link_text == Some(label) ==> md.step(EventView::Text(s)).link_text == Some(label + s)
            && md.step(EventView::Code(s)).link_text == Some(label + s),
        md.image_alt == Some(label) ==> md.step(EventView::Text(s)).image_alt == Some(label + s)
            && md.step(EventView::Code(s)).image_alt == Some(label + s),
        forall|url: Seq<char>|
            (#[trigger] md.opened(TagView::Link(url))).link_url == Some(url) && md.opened(
                TagView::Link(url),
            ).link_text == Some(Seq::<char>::empty()),
{
    lemma_words_capture(md.captured(s), words(s), md.style());
    lemma_emit_capture(md.captured(s), s, code_style());
}

proof fn lemma_emit_capture(md: Md, word: Seq<char>, style: Style)
    ensures
        md.emit(word, style).link_text == md.link_text,
        md.emit(word, style).image_alt == md.image_alt,
    decreases
            word.len(),
            (if md.current.len() == 0 {
                0nat
            } else {
                1nat
            }),
{
    if word.len() > 0 {
        if md.current.len() == 0 {
            if text_columns(md.first + word) > md.width {
                let n = piece(md.first, word, md.width);
                lemma_fit_piece(md.first, word, min(word.len() as int, md.width), md.width);
                let begun = Md { current: row(word.take(n), style), ..md };
                lemma_emit_capture(begun.closed(), word.skip(n), style);
            }
        } else if md.columns_with(
            (if md.gap {
                " "@
            } else {
                ""@
            }) + word,
        ) > md.width {
            lemma_emit_capture(md.closed(), word, style);
        }
    }
}

proof fn lemma_words_capture(md: Md, list: Seq<Seq<char>>, style: Style)
    ensures
        md.emit_all(list, style).link_text == md.link_text,
        md.emit_all(list, style).image_alt == md.image_alt,
    decreases list.len(),
{
    if list.len() > 0 {
        lemma_words_capture(md, list.drop_last(), style);
        lemma_emit_capture(md.emit_all(list.drop_last(), style), list.last(), style);
    }
}

/// At the start of a row: a heading is marked by as many signs as its level, a
/// quote by a bar, an item by a bullet or its number, two columns further in
/// for each list around its own.
pub proof fn elements_are_marked(md: Md, level: u8)
    requires
        md.current.len() == 0,
    ensures
        1 <= level <= 6 ==> md.opened(TagView::Heading(level)).first.len() == level + 1 && md.opened(
            TagView::Heading(level),
        ).first.last() == ' ' && forall|i: int|
            0 <= i < level ==> #[trigger] md.opened(TagView::Heading(level)).first[i] == '#',
        md.opened(TagView::BlockQuote).first == seq!['▌', ' '],
        md.lists.len() > 0 ==> ({
            let deep = 2 * (md.lists.len() - 1);
            let mark = md.opened(TagView::Item).first;
            let top = md.lists.last();
            &&& forall|i: int| 0 <= i < deep ==> #[trigger] mark[i] == ' '
            &&& !top.ordered ==> mark.skip(deep) == seq!['•', ' ']
            &&& top.ordered ==> mark.skip(deep) == decimal(top.next as nat) + seq!['.', ' ']
            &&& top.next < u64::MAX ==> md.opened(TagView::Item).lists.last().next == top.next + 1
            &&& md.opened(TagView::Item).cont == repeated(' ', mark.len())
        }),
        forall|start: Option<u64>|
            {
                let after = #[trigger] md.opened(TagView::List(start));
                after.lists.len() == md.lists.len() + 1 && after.lists.last().ordered == (start
                    is Some) && (start is Some ==> after.lists.last().next == start->0)
            },
        md.lists.len() > 0 ==> md.ended(MdTagEnd::List).lists == md.lists.drop_last(),
{
    reveal_strlit(" ");
    reveal_strlit("▌ ");
    reveal_strlit("• ");
    reveal_strlit(". ");
    assert(md.opened(TagView::BlockQuote).first =~= seq!['▌', ' ']);
    if md.lists.len() > 0 {
        let top = md.lists.last();
        let deep = 2 * (md.lists.len() - 1);
        let mark = md.opened(TagView::Item).first;
        let after = md.opened(TagView::Item);
        assert(after.lists.last().ordered == top.ordered);
        if top.ordered {
            assert(mark.skip(deep) =~= decimal(top.next as nat) + seq!['.', ' ']);
        } else {
            assert(mark.skip(deep) =~= seq!['•', ' ']);
        }
        assert(after.cont =~= repeated(' ', mark.len()));
    }
}

/// The rows of a line of code are a bar and the next part of it, whole where it
/// fits.
pub proof fn code_stands_behind_a_bar(text: Seq<char>, width: int)
    ensures
        code_rows(text, width).len() >= 1,
        forall|i: int|
            0 <= i < code_rows(text, width).len() ==> (#[trigger] code_rows(text, width)[i]).len()
                == 2 && code_rows(text, width)[i][0].text == seq![' ', ' ', '│', ' '],
        text_columns(seq![' ', ' ', '│', ' '] + text) <= width ==> code_rows(text, width).len() == 1
            && code_rows(text, width)[0][1].text == text && code_rows(text, width)[0][1].style.bg
            == Some(CODE_BG),
    decreases text.len(),
{
    reveal_strlit("  │ ");
    assert(CODE_LEAD@ =~= seq![' ', ' ', '│', ' ']);
    let n = piece(CODE_LEAD@, text, width);
    lemma_fit_piece(CODE_LEAD@, text, min(text.len() as int, width), width);
    if !(text_columns(CODE_LEAD@ + text) <= width || n >= text.len()) {
        code_stands_behind_a_bar(text.skip(n), width);
        let rest = code_rows(text.skip(n), width);
        let all = code_rows(text, width);
        assert forall|i: int| 0 <= i < all.len() implies (#[trigger] all[i]).len() == 2
            && all[i][0].text == seq![' ', ' ', '│', ' '] by {
            if i > 0 {
                assert(all[i] == rest[i - 1]);
            }
        }
    }
}

/// A paragraph ends its row and is followed by a blank row; a hard break ends
/// the row; a task shows whether it is done.
pub proof fn breaks_end_rows(md: Md)
    ensures
        md.step(EventView::End(MdTagEnd::Paragraph)).current.len() == 0,
        md.step(EventView::End(MdTagEnd::Paragraph)).lines.len() > 0 && md.step(
            EventView::End(MdTagEnd::Paragraph),
        ).lines.last().len() == 0,
        md.step(EventView::HardBreak).current.len() == 0,
        md.current.len() > 0 ==> md.step(EventView::HardBreak).lines.len() == md.lines.len() + 1,
        md.current.len() > 0 ==> md.step(EventView::SoftBreak).gap && md.step(
            EventView::SoftBreak,
        ).current == md.current,
        md.current.len() == 0 && text_columns(md.first + "[x]"@) <= md.width ==> row_text(
            md.step(EventView::TaskListMarker(true)).current,
        ) == "[x]"@,
        md.current.len() == 0 && text_columns(md.first + "[ ]"@) <= md.width ==> row_text(
            md.step(EventView::TaskListMarker(false)).current,
        ) == "[ ]"@,
{
    reveal_strlit("[x]");
    reveal_strlit("[ ]");
    lemma_row_text_one("[x]"@, base_style());
    lemma_row_text_one("[ ]"@, base_style());
}

} // verus!
