//! Diffs: how their lines are read, numbered and drawn, and where review
//! comments stand.
use vstd::prelude::*;

use crate::cache::{diff_built, rows_of_diff, shown_below, CacheView, DiffKeyView};
use crate::diff::{
    comment_place, comments_below, diff_cursor, diff_lines, diff_step, digits_from, file_begins,
    file_places, first_match, following, line_matches, new_path_before, number_behind, placed_at,
    DiffCursor, DiffLineType, DiffLineView, Match,
};
use crate::draw::{blank, fg, less, row, sp, SpanView, Style};
use crate::github::CommentView;
use crate::laws::text::{decimal_reads_back, decimals_differ, number};
use crate::markdown::markdown_text_rows;
use crate::split::{text_lines, untabbed};
use crate::text::{begins_with, decimal, found_at, repeated, text_columns};
use crate::theme::{ADD, ADD_BG, DEL, DEL_BG, HUNK, MANTLE, MUTED, TEXT};
use crate::views::diff::{
    comment_rows, comments_rows, diff_line_rows, number_column, rows_joined, wrap_scan, wrapped_rows,
    without_line_ends, wrapping_loses_nothing,
};

verus! {

/// Whether `cell` shows a line number: blank for none, else in decimal, flush
/// right in four columns or as many as it takes.
pub open spec fn is_number_cell(cell: Seq<char>, n: Option<u64>) -> bool {
    match n {
        None => cell == seq![' ', ' ', ' ', ' '],
        Some(n) => exists|blanks: nat|
            {
                &&& cell == #[trigger] repeated(' ', blanks) + decimal(n as nat)
                &&& cell.len() == 4 || (cell.len() > 4 && blanks == 0)
            },
    }
}

/// Two cells with a blank between them and a bar behind.
pub open spec fn side_by_side(left: Seq<char>, right: Seq<char>) -> Seq<char> {
    left.push(' ') + right.push(' ').push('│').push(' ')
}

/// Whether `gutter` shows the numbers `old` and `new`, in that order.
pub open spec fn is_gutter(gutter: Seq<char>, old: Option<u64>, new: Option<u64>) -> bool {
    exists|left: Seq<char>, right: Seq<char>|
        {
            &&& is_number_cell(left, old)
            &&& is_number_cell(right, new)
            &&& gutter == #[trigger] side_by_side(left, right)
        }
}

/// With line numbers on, the first row of a diff line begins with its number in
/// the old file and its number in the new file, each in its own columns.
pub proof fn gutter_shows_both_numbers(line: DiffLineView, max: int)
    ensures
        diff_line_rows(line, true, max).len() >= 1,
        diff_line_rows(line, true, max)[0].len() == 2,
        is_gutter(diff_line_rows(line, true, max)[0][0].text, line.old_line, line.new_line),
{
    reveal_strlit(" ");
    reveal_strlit("    ");
    reveal_strlit(" │ ");
    let left = lemma_number_cell(line.old_line);
    let right = lemma_number_cell(line.new_line);
    if max > 0 {
        wrapping_loses_nothing(line.content, max);
    } else if max < 0 {
        lemma_scan_some(untabbed(line.content), max);
    }
    let gutter = diff_line_rows(line, true, max)[0][0].text;
    assert(gutter =~= side_by_side(left, right));
}

proof fn lemma_scan_some(s: Seq<char>, max: int)
    ensures
        s.len() > 0 ==> wrap_scan(s, max).0.len() > 0 || wrap_scan(s, max).1.len() > 0,
    decreases s.len(),
{
    if s.len() > 0 {
        lemma_scan_some(s.drop_last(), max);
    }
}

proof fn lemma_number_cell(n: Option<u64>) -> (cell: Seq<char>)
    ensures
        cell == number_column(n),
        is_number_cell(cell, n),
{
    reveal_strlit("    ");
    let cell = number_column(n);
    match n {
        None => {
            assert(cell =~= seq![' ', ' ', ' ', ' ']);
        },
        Some(n) => {
            let d = decimal(n as nat);
            let blanks = less(4, d.len() as int) as nat;
            assert(cell == repeated(' ', blanks) + d);
            assert(repeated(' ', blanks).len() == blanks);
        },
    }
    cell
}

/// What stands behind the blanks of a number cell.
proof fn lemma_cell_number(cell: Seq<char>, a: Option<u64>, b: Option<u64>)
    requires
        is_number_cell(cell, a),
        is_number_cell(cell, b),
    ensures
        a == b,
{
    match (a, b) {
        (Some(x), Some(y)) => {
            let i = choose|blanks: nat|
                cell == #[trigger] repeated(' ', blanks) + decimal(x as nat) && (cell.len() == 4 || (
                cell.len() > 4 && blanks == 0));
            let j = choose|blanks: nat|
                cell == #[trigger] repeated(' ', blanks) + decimal(y as nat) && (cell.len() == 4 || (
                cell.len() > 4 && blanks == 0));
            let p = decimal(x as nat);
            let q = decimal(y as nat);
            decimal_reads_back(x as nat);
            decimal_reads_back(y as nat);
            assert(cell.len() == i + p.len());
            assert(cell.len() == j + q.len());
            if i < j {
                assert(cell[i as int] == p[0]);
                assert(cell[i as int] == ' ');
            } else if j < i {
                assert(cell[j as int] == q[0]);
                assert(cell[j as int] == ' ');
            } else {
                assert(cell.skip(i as int) =~= p);
                assert(cell.skip(j as int) =~= q);
                if x != y {
                    decimals_differ(x as nat, y as nat);
                }
            }
        },
        (Some(x), None) => lemma_cell_not_blank(cell, x),
        (None, Some(y)) => lemma_cell_not_blank(cell, y),
        (None, None) => {},
    }
}

proof fn lemma_cell_not_blank(cell: Seq<char>, n: u64)
    requires
        is_number_cell(cell, Some(n)),
    ensures
        cell != seq![' ', ' ', ' ', ' '],
{
    let i = choose|blanks: nat|
        cell == #[trigger] repeated(' ', blanks) + decimal(n as nat) && (cell.len() == 4 || (
        cell.len() > 4 && blanks == 0));
    decimal_reads_back(n as nat);
    assert(cell[i as int] == decimal(n as nat)[0]);
}

/// Two lines with numbers of at most four digits whose numbers differ have
/// gutters that differ: what is shown tells both.
pub proof fn gutters_differ(
    gutter: Seq<char>,
    old: Option<u64>,
    new: Option<u64>,
    other_old: Option<u64>,
    other_new: Option<u64>,
)
    requires
        is_gutter(gutter, old, new),
        is_gutter(gutter, other_old, other_new),
        gutter.len() == 12,
    ensures
        old == other_old,
        new == other_new,
{
    let (a, b) = choose|left: Seq<char>, right: Seq<char>|
        is_number_cell(left, old) && is_number_cell(right, new) && gutter
            == #[trigger] side_by_side(left, right);
    let (c, d) = choose|left: Seq<char>, right: Seq<char>|
        is_number_cell(left, other_old) && is_number_cell(right, other_new) && gutter
            == #[trigger] side_by_side(left, right);
    lemma_cell_length(a, old);
    lemma_cell_length(b, new);
    lemma_cell_length(c, other_old);
    lemma_cell_length(d, other_new);
    assert(a.len() == 4 && b.len() == 4 && c.len() == 4 && d.len() == 4);
    assert(a =~= gutter.take(4));
    assert(c =~= gutter.take(4));
    assert(b =~= gutter.subrange(5, 9));
    assert(d =~= gutter.subrange(5, 9));
    lemma_cell_number(a, old, other_old);
    lemma_cell_number(b, new, other_new);
}

proof fn lemma_cell_length(cell: Seq<char>, n: Option<u64>)
    requires
        is_number_cell(cell, n),
    ensures
        cell.len() >= 4,
{
}

/// The sign of a line: a plus for what was added, a minus for what was taken
/// out, a blank for the rest.
pub open spec fn sign(kind: DiffLineType) -> char {
    match kind {
        DiffLineType::Addition => '+',
        DiffLineType::Deletion => '−',
        _ => ' ',
    }
}

/// A diff line shows its sign on the first row and, from there on, every
/// character of its content in order, tabulators as blanks; no row holds more
/// than fits. Only the rows below the first have the wrap marker, and the text
/// has the colours of its kind.
pub proof fn line_shows_its_content(line: DiffLineView, numbers: bool, max: int)
    requires
        max > 0,
    ensures
        ({
            let rows = diff_line_rows(line, numbers, max);
            exists|parts: Seq<Seq<char>>|
                {
                    &&& parts.len() == rows.len()
                    &&& rows_joined(parts) == without_line_ends(untabbed(line.content))
                    &&& #[trigger] parts_drawn(rows, parts, numbers, line.line_type, max)
                }
        }),
{
    wrapping_loses_nothing(line.content, max);
    let parts = wrapped_rows(line.content, max);
    let rows = diff_line_rows(line, numbers, max);
    reveal_strlit(" ");
    reveal_strlit("+");
    reveal_strlit("−");
    reveal_strlit("↪ ");
    assert forall|i: int| 0 <= i < rows.len() implies #[trigger] part_drawn(
        rows[i],
        parts[i],
        numbers,
        line.line_type,
        i,
    ) by {
        if i == 0 {
            assert(rows[0].last().text =~= seq![sign(line.line_type), ' '] + parts[0]);
        } else {
            assert(rows[i][rows[i].len() - 2].text =~= seq!['↪', ' ']);
        }
    }
    assert(parts_drawn(rows, parts, numbers, line.line_type, max));
}

/// Whether row `i` of a line of that kind draws `part`.
pub open spec fn part_drawn(
    row: Seq<SpanView>,
    part: Seq<char>,
    numbers: bool,
    kind: DiffLineType,
    i: int,
) -> bool {
    let gutter: int = if numbers {
        1
    } else {
        0
    };
    &&& row.last().style == colours(kind)
    &&& i == 0 ==> row.len() == gutter + 1 && row.last().text == seq![sign(kind), ' '] + part
    &&& i > 0 ==> row.len() == gutter + 2 && row.last().text == part && row[gutter].text == seq![
        '↪',
        ' ',
    ] && row[gutter].style.fg == Some(MUTED)
}

pub open spec fn parts_drawn(
    rows: Seq<Seq<SpanView>>,
    parts: Seq<Seq<char>>,
    numbers: bool,
    kind: DiffLineType,
    max: int,
) -> bool {
    &&& forall|i: int| 0 <= i < parts.len() ==> (#[trigger] parts[i]).len() <= max
    &&& forall|i: int|
        0 <= i < rows.len() ==> #[trigger] part_drawn(rows[i], parts[i], numbers, kind, i)
}

/// The colours of a kind of line.
pub open spec fn colours(kind: DiffLineType) -> Style {
    match kind {
        DiffLineType::Addition => Style {
            fg: Some(ADD),
            bg: Some(ADD_BG),
            bold: false,
            dim: false,
            italic: false,
            underlined: false,
            crossed_out: false,
        },
        DiffLineType::Deletion => Style {
            fg: Some(DEL),
            bg: Some(DEL_BG),
            bold: false,
            dim: false,
            italic: false,
            underlined: false,
            crossed_out: false,
        },
        DiffLineType::Context => Style {
            fg: Some(TEXT),
            bg: Some(MANTLE),
            bold: false,
            dim: false,
            italic: false,
            underlined: false,
            crossed_out: false,
        },
        DiffLineType::NoNewline => Style {
            fg: Some(MUTED),
            bg: None,
            bold: false,
            dim: false,
            italic: false,
            underlined: false,
            crossed_out: false,
        },
        _ => Style {
            fg: Some(HUNK),
            bg: None,
            bold: true,
            dim: false,
            italic: false,
            underlined: false,
            crossed_out: false,
        },
    }
}

proof fn lemma_scan_full(s: Seq<char>, max: int)
    requires
        max > 0,
        !s.contains('\n'),
    ensures
        forall|i: int|
            0 <= i < wrap_scan(s, max).0.len() ==> (#[trigger] wrap_scan(s, max).0[i]).len() == max,
        wrap_scan(s, max).1.len() <= max,
        s.len() > 0 ==> wrap_scan(s, max).1.len() > 0,
    decreases s.len(),
{
    if s.len() > 0 {
        let front = s.drop_last();
        assert(s.contains(s[s.len() - 1]));
        assert(!front.contains('\n')) by {
            if front.contains('\n') {
                let i = choose|i: int| 0 <= i < front.len() && front[i] == '\n';
                assert(s[i] == '\n');
            }
        }
        lemma_scan_full(front, max);
        let (done, current) = wrap_scan(front, max);
        let after = wrap_scan(s, max).0;
        assert forall|i: int| 0 <= i < after.len() implies (#[trigger] after[i]).len() == max by {
            if i < done.len() {
                assert(after[i] == done[i]);
            }
        }
    }
}

/// A line is broken no sooner than it must: every row but the last is full.
pub proof fn rows_are_filled(content: Seq<char>, max: int, i: int)
    requires
        max > 0,
        !untabbed(content).contains('\n'),
        0 <= i < wrapped_rows(content, max).len() - 1,
    ensures
        wrapped_rows(content, max)[i].len() == max,
{
    lemma_scan_full(untabbed(content), max);
}

/// Whether a line belongs to a hunk.
pub open spec fn in_hunk(line: DiffLineView) -> bool {
    line.line_type == DiffLineType::Context || line.line_type == DiffLineType::Addition
        || line.line_type == DiffLineType::Deletion || line.line_type == DiffLineType::NoNewline
}

/// Every line of a hunk is its sign and its content. What was added has a
/// number in the new file only, what was taken out in the old file only, and
/// what stayed in both. Other lines are kept whole and have no number.
pub proof fn lines_are_read_by_their_sign(lines: Seq<Seq<char>>, i: int)
    requires
        0 <= i < lines.len(),
    ensures
        diff_lines(lines).len() == lines.len(),
        ({
            let line = diff_lines(lines)[i];
            let text = lines[i];
            &&& line.line_type == DiffLineType::Addition ==> text == seq!['+'] + line.content
                && line.new_line is Some && line.old_line is None
            &&& line.line_type == DiffLineType::Deletion ==> text == seq!['-'] + line.content
                && line.old_line is Some && line.new_line is None
            &&& line.line_type == DiffLineType::Context ==> (text == seq![' '] + line.content || (
            text == line.content && (text.len() == 0 || text[0] != ' '))) && line.old_line is Some
                && line.new_line is Some
            &&& line.line_type == DiffLineType::NoNewline ==> text == line.content && text.len() > 0
                && text[0] == '\\' && line.old_line is None && line.new_line is None
            &&& !in_hunk(line) ==> text == line.content && line.old_line is None && line.new_line
                is None
            &&& line.line_type == DiffLineType::HunkHeader <==> !begins_with(text, "diff --git "@)
                && begins_with(text, "@@"@)
            &&& in_hunk(line) && text.len() > 0 ==> (text[0] == '+' <==> line.line_type
                == DiffLineType::Addition) && (text[0] == '-' <==> line.line_type
                == DiffLineType::Deletion) && (text[0] == '\\' <==> line.line_type
                == DiffLineType::NoNewline)
        }),
{
    let line = diff_lines(lines)[i];
    let text = lines[i];
    if text.len() > 0 {
        assert(text =~= seq![text[0]] + text.skip(1));
    }
}

/// Where the old numbers and the new ones stand before line `i`.
spec fn at(lines: Seq<Seq<char>>, i: int) -> DiffCursor {
    diff_cursor(lines.take(i))
}

proof fn lemma_at(lines: Seq<Seq<char>>, i: int)
    requires
        0 <= i < lines.len(),
    ensures
        at(lines, i + 1) == diff_step(at(lines, i), lines[i]).0,
        diff_lines(lines)[i] == diff_step(at(lines, i), lines[i]).1,
{
    assert(lines.take(i + 1).drop_last() =~= lines.take(i));
    assert(lines.take(i + 1).last() == lines[i]);
}

proof fn lemma_numbers_run(lines: Seq<Seq<char>>, i: int, j: int)
    requires
        0 <= i < j <= lines.len(),
        forall|k: int| i <= k < j ==> in_hunk(#[trigger] diff_lines(lines)[k]),
        forall|k: int| i < k < j ==> (#[trigger] diff_lines(lines)[k]).old_line is None,
    ensures
        diff_lines(lines)[i].old_line matches Some(n) ==> at(lines, j).old_next == following(n),
    decreases j - i,
{
    lemma_at(lines, j - 1);
    assert(in_hunk(diff_lines(lines)[j - 1]));
    if i < j - 1 {
        lemma_numbers_run(lines, i, j - 1);
        assert(diff_lines(lines)[j - 1].old_line is None);
    }
}

proof fn lemma_new_numbers_run(lines: Seq<Seq<char>>, i: int, j: int)
    requires
        0 <= i < j <= lines.len(),
        forall|k: int| i <= k < j ==> in_hunk(#[trigger] diff_lines(lines)[k]),
        forall|k: int| i < k < j ==> (#[trigger] diff_lines(lines)[k]).new_line is None,
    ensures
        diff_lines(lines)[i].new_line matches Some(n) ==> at(lines, j).new_next == following(n),
    decreases j - i,
{
    lemma_at(lines, j - 1);
    assert(in_hunk(diff_lines(lines)[j - 1]));
    if i < j - 1 {
        lemma_new_numbers_run(lines, i, j - 1);
        assert(diff_lines(lines)[j - 1].new_line is None);
    }
}

/// Within a hunk the numbers run on: a line with a number in the old file has
/// the number that follows the one before it, and so in the new file.
pub proof fn numbers_run_on(lines: Seq<Seq<char>>, i: int, j: int)
    requires
        0 <= i < j < lines.len(),
        forall|k: int| i <= k <= j ==> in_hunk(#[trigger] diff_lines(lines)[k]),
    ensures
        (forall|k: int| i < k < j ==> (#[trigger] diff_lines(lines)[k]).old_line is None)
            && diff_lines(lines)[i].old_line is Some && diff_lines(lines)[j].old_line is Some
            && diff_lines(lines)[i].old_line->0 < u64::MAX ==> diff_lines(lines)[j].old_line->0
            == diff_lines(lines)[i].old_line->0 + 1,
        (forall|k: int| i < k < j ==> (#[trigger] diff_lines(lines)[k]).new_line is None)
            && diff_lines(lines)[i].new_line is Some && diff_lines(lines)[j].new_line is Some
            && diff_lines(lines)[i].new_line->0 < u64::MAX ==> diff_lines(lines)[j].new_line->0
            == diff_lines(lines)[i].new_line->0 + 1,
{
    lemma_at(lines, j);
    if forall|k: int| i < k < j ==> (#[trigger] diff_lines(lines)[k]).old_line is None {
        lemma_numbers_run(lines, i, j);
    }
    if forall|k: int| i < k < j ==> (#[trigger] diff_lines(lines)[k]).new_line is None {
        lemma_new_numbers_run(lines, i, j);
    }
}

/// Whether `s` is a hunk header that announces the lines `old` and `new`.
pub open spec fn announces(s: Seq<char>, old: u64, new: u64, x: Seq<char>, y: Seq<char>) -> bool {
    &&& s == seq!['@', '@', ' ', '-'] + decimal(old as nat) + x + seq!['+'] + decimal(new as nat) + y
    &&& x.len() > 0 && !(48 <= x[0] as u32 <= 57)
    &&& y.len() > 0 ==> !(48 <= y[0] as u32 <= 57)
    &&& !x.contains('+')
}

/// The value of digits read on from `acc`.
proof fn lemma_digits(s: Seq<char>, i: int, d: Seq<char>, k: int)
    requires
        0 <= i,
        i + d.len() <= s.len(),
        0 <= k <= d.len(),
        forall|j: int| 0 <= j < d.len() ==> #[trigger] d[j] == s[i + j],
        forall|j: int| 0 <= j < d.len() ==> 48 <= (#[trigger] d[j]) as u32 <= 57,
        i + d.len() < s.len() ==> !(48 <= s[i + d.len()] as u32 <= 57),
        number(d) <= u64::MAX,
        forall|j: int| 0 <= j <= d.len() ==> 0 <= #[trigger] number(d.take(j)) <= number(d),
    ensures
        digits_from(s, i + k, number(d.take(k)) as u64) == number(d),
    decreases d.len() - k,
{
    let acc = number(d.take(k)) as u64;
    if k < d.len() {
        assert(d.take(k + 1).drop_last() =~= d.take(k));
        assert(d.take(k + 1).last() == d[k]);
        assert(number(d.take(k + 1)) == 10 * number(d.take(k)) + (d[k] as u32 - 48));
        lemma_digits(s, i, d, k + 1);
        assert(s[i + k] == d[k]);
    } else {
        assert(d.take(k) =~= d);
    }
}

proof fn lemma_prefixes(d: Seq<char>, j: int)
    requires
        forall|j: int| 0 <= j < d.len() ==> 48 <= (#[trigger] d[j]) as u32 <= 57,
        0 <= j <= d.len(),
    ensures
        0 <= number(d.take(j)) <= number(d),
    decreases d.len() - j,
{
    if j < d.len() {
        lemma_prefixes(d, j + 1);
        assert(d.take(j + 1).drop_last() =~= d.take(j));
        lemma_nonnegative(d.take(j));
    } else {
        assert(d.take(j) =~= d);
        lemma_nonnegative(d);
    }
}

proof fn lemma_nonnegative(d: Seq<char>)
    requires
        forall|j: int| 0 <= j < d.len() ==> 48 <= (#[trigger] d[j]) as u32 <= 57,
    ensures
        number(d) >= 0,
    decreases d.len(),
{
    if d.len() > 0 {
        let front = d.drop_last();
        assert forall|j: int| 0 <= j < front.len() implies 48 <= (#[trigger] front[j]) as u32 <= 57 by {
            assert(front[j] == d[j]);
        }
        lemma_nonnegative(front);
        assert(48 <= d[d.len() - 1] as u32);
    }
}

proof fn lemma_behind(s: Seq<char>, sign: char, i: int, k: int)
    requires
        0 <= i <= k < s.len(),
        s[k] == sign,
        forall|j: int| i <= j < k ==> #[trigger] s[j] != sign,
    ensures
        number_behind(s, sign, i) == digits_from(s, k + 1, 0),
    decreases k - i,
{
    if i < k {
        lemma_behind(s, sign, i + 1, k);
    }
}

proof fn lemma_number_at(s: Seq<char>, sign: char, k: int, n: u64)
    requires
        0 <= k < s.len(),
        s[k] == sign,
        forall|j: int| 0 <= j < k ==> #[trigger] s[j] != sign,
        k + 1 + decimal(n as nat).len() <= s.len(),
        s.subrange(k + 1, k + 1 + decimal(n as nat).len()) == decimal(n as nat),
        k + 1 + decimal(n as nat).len() < s.len() ==> !(48 <= s[k + 1 + decimal(n as nat).len()] as u32
            <= 57),
    ensures
        number_behind(s, sign, 0) == n,
{
    let d = decimal(n as nat);
    decimal_reads_back(n as nat);
    lemma_behind(s, sign, 0, k);
    assert forall|j: int| 0 <= j <= d.len() implies 0 <= #[trigger] number(d.take(j)) <= number(d) by {
        lemma_prefixes(d, j);
    }
    assert forall|j: int| 0 <= j < d.len() implies #[trigger] d[j] == s[k + 1 + j] by {
        assert(s.subrange(k + 1, k + 1 + d.len())[j] == s[k + 1 + j]);
    }
    assert(d.take(0) =~= Seq::empty());
    assert(number(d.take(0)) == 0);
    lemma_digits(s, k + 1, d, 0);
}

/// The line below a hunk header has the numbers that the header announces.
pub proof fn hunk_begins_as_announced(
    lines: Seq<Seq<char>>,
    i: int,
    old: u64,
    new: u64,
    x: Seq<char>,
    y: Seq<char>,
)
    requires
        0 <= i < lines.len() - 1,
        announces(lines[i], old, new, x, y),
    ensures
        diff_lines(lines)[i].line_type == DiffLineType::HunkHeader,
        diff_lines(lines)[i + 1].old_line matches Some(n) ==> n == old,
        diff_lines(lines)[i + 1].new_line matches Some(n) ==> n == new,
{
    let s = lines[i];
    reveal_strlit("@@");
    reveal_strlit("diff --git ");
    decimal_reads_back(old as nat);
    decimal_reads_back(new as nat);
    let a = decimal(old as nat);
    let b = decimal(new as nat);
    assert(s[0] == '@' && s[1] == '@' && s[2] == ' ' && s[3] == '-');
    assert(s.subrange(0, 2) =~= "@@"@);
    assert(found_at(s, "@@"@, 0));
    assert(!begins_with(s, "diff --git "@)) by {
        if found_at(s, "diff --git "@, 0) {
            assert(s.subrange(0, "diff --git "@.len() as int)[0] == s[0]);
        }
    }
    assert(s.subrange(4, 4 + a.len() as int) =~= a);
    assert(s[4 + a.len() as int] == x[0]);
    lemma_number_at(s, '-', 3, old);
    let k = 4 + a.len() as int + x.len();
    assert(s[k] == '+');
    assert forall|j: int| 0 <= j < k implies #[trigger] s[j] != '+' by {
        if 4 <= j < 4 + a.len() {
            assert(s[j] == a[j - 4]);
        } else if j >= 4 + a.len() {
            assert(s[j] == x[j - 4 - a.len()]);
            assert(x.contains(x[j - 4 - a.len()]));
        }
    }
    assert(s.subrange(k + 1, k + 1 + b.len()) =~= b);
    if k + 1 + b.len() < s.len() {
        assert(s[k + 1 + b.len() as int] == y[0]);
    }
    lemma_number_at(s, '+', k, new);
    lemma_at(lines, i);
    lemma_at(lines, i + 1);
}

proof fn lemma_new_path(head: Seq<char>, path: Seq<char>, k: int)
    requires
        head.len() < k <= (head + " b/"@ + path).len(),
        forall|j: int|
            head.len() < j < k ==> !#[trigger] found_at(head + " b/"@ + path, " b/"@, j),
    ensures
        new_path_before(head + " b/"@ + path, k) == path,
    decreases k,
{
    reveal_strlit(" b/");
    let s = head + " b/"@ + path;
    if k == head.len() + 1 {
        assert(s.subrange(head.len() as int, head.len() as int + 3) =~= " b/"@);
        assert(s.skip(head.len() as int + 3) =~= path);
    } else {
        assert(!found_at(s, " b/"@, k - 1));
        lemma_new_path(head, path, k - 1);
    }
}

/// The lines below `diff --git a/.. b/path` belong to the file at `path`, up to
/// the next such line.
pub proof fn lines_belong_to_their_file(
    lines: Seq<Seq<char>>,
    i: int,
    j: int,
    head: Seq<char>,
    path: Seq<char>,
)
    requires
        0 <= i <= j < lines.len(),
        lines[i] == "diff --git "@ + head + " b/"@ + path,
        !path.contains(' '),
        forall|k: int| i < k <= j ==> !begins_with(#[trigger] lines[k], "diff --git "@),
    ensures
        diff_lines(lines)[j].current_path == path,
        at_path(lines, j) == path,
    decreases j,
{
    lemma_at(lines, j);
    if i < j {
        lines_belong_to_their_file(lines, i, j - 1, head, path);
        assert(!begins_with(lines[j], "diff --git "@));
    } else {
        reveal_strlit(" b/");
        let s = lines[i];
        let front = "diff --git "@ + head;
        assert(s =~= front + " b/"@ + path);
        assert forall|j: int| front.len() < j < s.len() implies !#[trigger] found_at(
            s,
            " b/"@,
            j,
        ) by {
            if found_at(s, " b/"@, j) {
                assert(s.subrange(j, j + 3)[0] == s[j]);
                if j >= front.len() + 3 {
                    assert(s[j] == path[j - front.len() - 3]);
                    assert(path.contains(s[j]));
                } else {
                    assert(s[j] == " b/"@[j - front.len()]);
                }
            }
        }
        lemma_new_path(front, path, s.len() as int);
        assert(s.subrange(0, "diff --git "@.len() as int) =~= "diff --git "@);
        assert(found_at(s, "diff --git "@, 0));
    }
}

/// The path at which the reading stands behind line `j`.
pub open spec fn at_path(lines: Seq<Seq<char>>, j: int) -> Seq<char> {
    diff_cursor(lines.take(j + 1)).path
}

/// Files begin just where a line says `diff --git`, and each such line is in
/// the list of files once, in order.
pub proof fn files_begin_at_their_headers(lines: Seq<Seq<char>>, i: int)
    requires
        0 <= i < lines.len() <= usize::MAX,
    ensures
        file_places(diff_lines(lines), lines.len() as int).contains(i as usize) <==> begins_with(
            lines[i],
            "diff --git "@,
        ),
{
    lemma_places(diff_lines(lines), lines.len() as int, i);
    lemma_at(lines, i);
    if begins_with(lines[i], "diff --git "@) {
        assert(diff_lines(lines)[i].content == lines[i]);
    }
    if file_begins(diff_lines(lines)[i]) {
        lines_are_read_by_their_sign(lines, i);
    }
}

proof fn lemma_places(lines: Seq<DiffLineView>, n: int, i: int)
    requires
        0 <= n <= lines.len() <= usize::MAX,
        0 <= i < lines.len(),
    ensures
        file_places(lines, n).contains(i as usize) <==> i < n && file_begins(lines[i]),
    decreases n,
{
    if n > 0 {
        lemma_places(lines, n - 1, i);
        let p = file_places(lines, n - 1);
        let q = file_places(lines, n);
        if file_begins(lines[n - 1]) {
            if p.contains(i as usize) {
                let k = choose|k: int| 0 <= k < p.len() && p[k] == i as usize;
                assert(q[k] == p[k]);
            }
            assert(q[q.len() - 1] == (n - 1) as usize);
            if q.contains(i as usize) {
                let k = choose|k: int| 0 <= k < q.len() && q[k] == i as usize;
                if k < p.len() {
                    assert(p[k] == q[k]);
                }
            }
        }
    }
}

proof fn lemma_first_match(c: CommentView, lines: Seq<DiffLineView>, by: Match, i: int)
    requires
        0 <= i,
    ensures
        match first_match(c, lines, by, i) {
            Some(k) => i <= k < lines.len() && line_matches(c, lines[k], by) && forall|j: int|
                i <= j < k ==> !line_matches(c, #[trigger] lines[j], by),
            None => forall|j: int|
                i <= j < lines.len() ==> !line_matches(c, #[trigger] lines[j], by),
        },
    decreases lines.len() - i,
{
    if i < lines.len() && !line_matches(c, lines[i], by) {
        lemma_first_match(c, lines, by, i + 1);
    }
}

/// A review comment on a line stands under that line of its own file: by its
/// number in the new file, or in the old file where the new one has no such
/// line. One without a line stands under the first line of its file. A comment
/// on a file that the diff does not hold is not shown.
pub proof fn comment_stands_under_its_line(c: CommentView, lines: Seq<DiffLineView>)
    ensures
        match comment_place(c, lines) {
            Some(k) => {
                &&& 0 <= k < lines.len()
                &&& lines[k].current_path == c.path
                &&& c.line is Some ==> lines[k].new_line == c.line || (lines[k].old_line == c.line
                    && forall|j: int|
                    0 <= j < lines.len() && (#[trigger] lines[j]).current_path == c.path
                        ==> lines[j].new_line != c.line)
                &&& c.line is None ==> forall|j: int|
                    0 <= j < k ==> (#[trigger] lines[j]).current_path != c.path
            },
            None => forall|j: int|
                0 <= j < lines.len() && (#[trigger] lines[j]).current_path == c.path ==> c.line
                    is Some && lines[j].new_line != c.line && lines[j].old_line != c.line,
        },
{
    lemma_first_match(c, lines, Match::Path, 0);
    lemma_first_match(c, lines, Match::NewLine, 0);
    lemma_first_match(c, lines, Match::OldLine, 0);
    assert(forall|j: int|
        0 <= j < lines.len() ==> (line_matches(c, #[trigger] lines[j], Match::Path)
            <==> lines[j].current_path == c.path));
    assert(forall|j: int|
        0 <= j < lines.len() ==> (line_matches(c, #[trigger] lines[j], Match::NewLine)
            <==> lines[j].current_path == c.path && lines[j].new_line == c.line));
    assert(forall|j: int|
        0 <= j < lines.len() ==> (line_matches(c, #[trigger] lines[j], Match::OldLine)
            <==> lines[j].current_path == c.path && lines[j].old_line == c.line));
}

proof fn lemma_rows_at(
    lines: Seq<DiffLineView>,
    width: int,
    numbers: bool,
    comments: Seq<Seq<CommentView>>,
    n: int,
    i: int,
)
    requires
        0 <= i < n <= lines.len(),
    ensures
        ({
            let all = rows_of_diff(lines, width, numbers, comments, n);
            let own = rows_of_diff(lines, width, numbers, comments, i + 1);
            own.len() <= all.len() && all.take(own.len() as int) == own
        }),
    decreases n,
{
    let all = rows_of_diff(lines, width, numbers, comments, n);
    let own = rows_of_diff(lines, width, numbers, comments, i + 1);
    if i < n - 1 {
        lemma_rows_at(lines, width, numbers, comments, n - 1, i);
        let before = rows_of_diff(lines, width, numbers, comments, n - 1);
        assert(all.take(own.len() as int) =~= before.take(own.len() as int));
    } else {
        assert(all.take(own.len() as int) =~= own);
    }
}

/// From the row at which a line begins there stand the rows of that line and
/// then those of the comments under it, as a diff is cached.
#[verifier::rlimit(50)]
pub proof fn line_and_comments_stand_together(cache: CacheView, key: DiffKeyView, i: int)
    requires
        key.diff is Some,
        0 <= i < diff_lines(text_lines(key.diff->0)).len(),
        diff_built(cache, key).diff_lines.len() <= usize::MAX,
    ensures
        ({
            let built = diff_built(cache, key);
            let lines = diff_lines(text_lines(key.diff->0));
            let gutter: int = if key.show_line_numbers {
                15
            } else {
                2
            };
            let own = diff_line_rows(
                lines[i],
                key.show_line_numbers,
                less(key.width as int, gutter),
            );
            let here = match key.comments {
                Some(all) => all.filter(
                    |c: CommentView| comment_place(c, lines) == Some(i),
                ),
                None => Seq::empty(),
            };
            let start = built.diff_line_starts[i] as int;
            let below = comments_rows(here, key.width as int, here.len() as int);
            &&& start + own.len() + below.len() <= built.diff_lines.len()
            &&& built.diff_lines.subrange(start, start + own.len()) == own
            &&& built.diff_lines.subrange(start + own.len(), start + own.len() + below.len())
                == below
        }),
{
    let built = diff_built(cache, key);
    let lines = diff_lines(text_lines(key.diff->0));
    let width = key.width as int;
    let numbers = key.show_line_numbers;
    let comments = match key.comments {
        Some(all) => Seq::new(lines.len(), |i: int| comments_below(all, lines, i)),
        None => Seq::empty(),
    };
    let before = rows_of_diff(lines, width, numbers, comments, i);
    let upto = rows_of_diff(lines, width, numbers, comments, i + 1);
    lemma_rows_at(lines, width, numbers, comments, lines.len() as int, i);
    let gutter: int = if numbers {
        15
    } else {
        2
    };
    let own = diff_line_rows(lines[i], numbers, less(width, gutter));
    let here = match key.comments {
        Some(all) => all.filter(|c: CommentView| comment_place(c, lines) == Some(i)),
        None => Seq::empty(),
    };
    match key.comments {
        Some(all) => {
            lemma_filter_agrees(
                all,
                |c: CommentView| comment_place(c, lines) == Some(i),
                |c: CommentView| placed_at(c, lines, i),
            );
        },
        None => {},
    }
    assert(shown_below(comments, i) == here);
    let below = comments_rows(here, width, here.len() as int);
    assert(upto == before + own + below);
    assert(built.diff_line_starts[i] as int == before.len());
    let all = built.diff_lines;
    assert(all.subrange(before.len() as int, before.len() as int + own.len()) =~= own) by {
        assert forall|k: int| 0 <= k < own.len() implies all.subrange(
            before.len() as int,
            before.len() as int + own.len(),
        )[k] == own[k] by {
            assert(all.take(upto.len() as int)[before.len() + k] == upto[before.len() + k]);
        }
    }
    let from = before.len() + own.len();
    assert(all.subrange(from as int, from as int + below.len()) =~= below) by {
        assert forall|k: int| 0 <= k < below.len() implies all.subrange(
            from as int,
            from as int + below.len(),
        )[k] == below[k] by {
            assert(all.take(upto.len() as int)[from + k] == upto[from + k]);
        }
    }
}

proof fn lemma_filter_agrees<T>(s: Seq<T>, p: spec_fn(T) -> bool, q: spec_fn(T) -> bool)
    requires
        forall|x: T| #[trigger] p(x) == q(x),
    ensures
        s.filter(p) == s.filter(q),
    decreases s.len(),
{
    reveal(Seq::filter);
    if s.len() > 0 {
        lemma_filter_agrees(s.drop_last(), p, q);
        assert(p(s.last()) == q(s.last()));
    }
}

/// A comment is shown by a row that names its author and its place, then the
/// rows of its own text, indented and at most eight of them, then a blank row;
/// another comment adds just its own rows below.
pub proof fn comment_shows_author_and_text(
    before: Seq<CommentView>,
    c: CommentView,
    max: int,
)
    requires
        max > 4,
    ensures
        ({
            let first = comments_rows(before, max, before.len() as int);
            let all = comments_rows(before.push(c), max, before.len() as int + 1);
            let own = all.skip(first.len() as int);
            let text = markdown_text_rows(c.body, max - 4);
            let shown: int = if text.len() < 8 {
                text.len() as int
            } else {
                8
            };
            &&& all.len() == first.len() + shown + 2
            &&& all.take(first.len() as int) == first
            &&& own[0][2].text == "@"@ + c.author + " · "@
            &&& forall|i: int|
                0 <= i < shown ==> #[trigger] own[1 + i] == seq![
                    sp("    "@, Style::plain()),
                ] + text[i]
            &&& own.last() == blank()
        }),
{
    let n = before.len() as int;
    let list = before.push(c);
    lemma_comments_prefix(before, list, max, n);
    let first = comments_rows(before, max, n);
    let all = comments_rows(list, max, n + 1);
    assert(all == first + comment_rows(c, max));
    assert(all.take(first.len() as int) =~= first);
    let own = all.skip(first.len() as int);
    assert(own =~= comment_rows(c, max));
    let text = markdown_text_rows(c.body, max - 4);
    let shown: int = if text.len() < 8 {
        text.len() as int
    } else {
        8
    };
    assert forall|i: int| 0 <= i < shown implies #[trigger] own[1 + i] == seq![
        sp("    "@, Style::plain()),
    ] + text[i] by {
        assert(row("    "@, Style::plain()) =~= seq![sp("    "@, Style::plain())]);
    }
}

proof fn lemma_comments_prefix(a: Seq<CommentView>, b: Seq<CommentView>, max: int, n: int)
    requires
        0 <= n <= a.len() <= b.len(),
        forall|i: int| 0 <= i < n ==> a[i] == b[i],
    ensures
        comments_rows(a, max, n) == comments_rows(b, max, n),
    decreases n,
{
    if n > 0 {
        lemma_comments_prefix(a, b, max, n - 1);
    }
}

/// The header of a comment names the place where it was made: the file and the
/// line, or that it is outdated; it is cut where it does not fit.
pub proof fn comment_header_names_its_place(c: CommentView, max: int)
    ensures
        ({
            let place = c.path + match c.line {
                Some(n) => ":"@ + decimal(n as nat),
                None => " outdated"@,
            };
            let header = comment_rows(c, max)[0];
            &&& header.len() == 4
            &&& max > 16 && text_columns(place) <= max - 16 ==> header[3].text == place
            &&& c.author.len() > 0 ==> header[1].text == crate::views::diff::upper_char(c.author[0])
                + " "@
        }),
{
}

} // verus!
