//! Unified diffs: their lines, where files begin, and which line a review
//! comment belongs to.
use vstd::prelude::*;

use crate::github::{comments_view, CommentView, ReviewComment, ReviewThread};
use crate::split::{split_lines, text_lines, texts};
use crate::text::{begins_with, chars_of, found_at, has_prefix, same_text, string_of};

verus! {

#[derive(Debug, Clone, Copy, PartialEq, Eq, Structural)]
pub enum DiffLineType {
    FileHeader,
    HunkHeader,
    Addition,
    Deletion,
    Context,
    NoNewline,
}

/// One line of a diff: what it is, its text without the sign, its numbers in
/// the old and the new file, and the file it belongs to.
#[derive(Debug, Clone)]
pub struct ParsedDiffLine {
    pub line_type: DiffLineType,
    pub content: String,
    pub old_line: Option<u64>,
    pub new_line: Option<u64>,
    pub current_path: String,
}

#[verifier::ext_equal]
pub struct DiffLineView {
    pub line_type: DiffLineType,
    pub content: Seq<char>,
    pub old_line: Option<u64>,
    pub new_line: Option<u64>,
    pub current_path: Seq<char>,
}

impl View for ParsedDiffLine {
    type V = DiffLineView;

    open spec fn view(&self) -> DiffLineView {
        DiffLineView {
            line_type: self.line_type,
            content: self.content@,
            old_line: self.old_line,
            new_line: self.new_line,
            current_path: self.current_path@,
        }
    }
}

pub open spec fn diff_view(lines: Seq<ParsedDiffLine>) -> Seq<DiffLineView> {
    lines.map_values(|l: ParsedDiffLine| l@)
}

/// Where the reading of a diff stands: the file, the next line numbers, and
/// whether a hunk is open.
#[verifier::ext_equal]
pub struct DiffCursor {
    pub path: Seq<char>,
    pub old_next: u64,
    pub new_next: u64,
    pub in_hunk: bool,
}

/// `n + 1`, stopping at the greatest number.
pub open spec fn following(n: u64) -> u64 {
    if n == u64::MAX {
        n
    } else {
        (n + 1) as u64
    }
}

fn after(n: u64) -> (r: u64)
    ensures
        r == following(n),
{
    if n == u64::MAX {
        n
    } else {
        n + 1
    }
}

pub open spec fn is_digit(c: char) -> bool {
    0x30 <= c as u32 <= 0x39
}

/// The number whose digits begin at `i`, `acc` standing before them; it stops
/// at the greatest number.
pub open spec fn digits_from(s: Seq<char>, i: int, acc: u64) -> u64
    decreases s.len() - i,
{
    if i < 0 || i >= s.len() || !is_digit(s[i]) {
        acc
    } else {
        let next = acc * 10 + (s[i] as u32 - 0x30);
        digits_from(
            s,
            i + 1,
            if next > u64::MAX {
                u64::MAX
            } else {
                next as u64
            },
        )
    }
}

/// The number behind the first `sign` in `s`, zero where there is none.
pub open spec fn number_behind(s: Seq<char>, sign: char, i: int) -> u64
    decreases s.len() - i,
{
    if i < 0 || i >= s.len() {
        0
    } else if s[i] == sign {
        digits_from(s, i + 1, 0)
    } else {
        number_behind(s, sign, i + 1)
    }
}

fn read_digits(s: &Vec<char>, from: usize) -> (r: u64)
    requires
        from <= s@.len(),
    ensures
        r == digits_from(s@, from as int, 0),
{
    let mut i: usize = from;
    let mut acc: u64 = 0;
    while i < s.len() && 0x30 <= s[i] as u32 && s[i] as u32 <= 0x39
        invariant
            i <= s@.len(),
            digits_from(s@, from as int, 0) == digits_from(s@, i as int, acc),
        decreases s@.len() - i,
    {
        let digit: u64 = (s[i] as u32 - 0x30) as u64;
        acc = if acc > (u64::MAX - digit) / 10 {
            u64::MAX
        } else {
            acc * 10 + digit
        };
        i += 1;
    }
    acc
}

fn read_number_behind(s: &Vec<char>, sign: char) -> (r: u64)
    ensures
        r == number_behind(s@, sign, 0),
{
    let mut i: usize = 0;
    while i < s.len() && s[i] != sign
        invariant
            i <= s@.len(),
            number_behind(s@, sign, 0) == number_behind(s@, sign, i as int),
        decreases s@.len() - i,
    {
        i += 1;
    }
    if i < s.len() {
        read_digits(s, i + 1)
    } else {
        0
    }
}

/// What stands behind the last ` b/` that begins before position `k`; nothing
/// where there is none.
pub open spec fn new_path_before(s: Seq<char>, k: int) -> Seq<char>
    decreases k,
{
    if k <= 0 {
        Seq::empty()
    } else if found_at(s, " b/"@, k - 1) {
        s.skip(k - 1 + " b/"@.len())
    } else {
        new_path_before(s, k - 1)
    }
}

/// The new path that a `diff --git` line names.
pub open spec fn new_path(s: Seq<char>) -> Seq<char> {
    new_path_before(s, s.len() as int)
}

fn read_new_path(s: &Vec<char>) -> (r: String)
    ensures
        r@ == new_path(s@),
{
    let mut k: usize = s.len();
    proof {
        reveal_strlit(" b/");
    }
    while k > 0
        invariant
            k <= s@.len(),
            new_path(s@) == new_path_before(s@, k as int),
            " b/"@.len() == 3,
            " b/"@[0] == ' ',
            " b/"@[1] == 'b',
            " b/"@[2] == '/',
        decreases k,
    {
        let at: usize = k - 1;
        if s.len() - at >= 3 && s[at] == ' ' && s[at + 1] == 'b' && s[at + 2] == '/' {
            proof {
                assert(s@.subrange(at as int, at + 3) =~= " b/"@);
                assert(s@.subrange(at + 3, s@.len() as int) =~= s@.skip(at + 3));
            }
            return string_of(s, at + 3, s.len());
        }
        proof {
            if found_at(s@, " b/"@, at as int) {
                let sub = s@.subrange(at as int, at + 3);
                assert(sub[0] == s@[at as int] && sub[1] == s@[at + 1] && sub[2] == s@[at + 2]);
            }
        }
        k -= 1;
    }
    String::new()
}

/// One line of a diff read at `at`, and where the reading then stands.
pub open spec fn diff_step(at: DiffCursor, line: Seq<char>) -> (DiffCursor, DiffLineView) {
    let plain = DiffLineView {
        line_type: DiffLineType::Context,
        content: line,
        old_line: None,
        new_line: None,
        current_path: at.path,
    };
    if begins_with(line, "diff --git "@) {
        let next = DiffCursor { path: new_path(line), in_hunk: false, ..at };
        (next, DiffLineView { line_type: DiffLineType::FileHeader, current_path: next.path, ..plain })
    } else if begins_with(line, "@@"@) {
        (
            DiffCursor {
                old_next: number_behind(line, '-', 0),
                new_next: number_behind(line, '+', 0),
                in_hunk: true,
                ..at
            },
            DiffLineView { line_type: DiffLineType::HunkHeader, ..plain },
        )
    } else if !at.in_hunk {
        (at, DiffLineView { line_type: DiffLineType::FileHeader, ..plain })
    } else if line.len() > 0 && line[0] == '\\' {
        (at, DiffLineView { line_type: DiffLineType::NoNewline, ..plain })
    } else if line.len() > 0 && line[0] == '+' {
        (
            DiffCursor { new_next: following(at.new_next), ..at },
            DiffLineView {
                line_type: DiffLineType::Addition,
                content: line.skip(1),
                new_line: Some(at.new_next),
                ..plain
            },
        )
    } else if line.len() > 0 && line[0] == '-' {
        (
            DiffCursor { old_next: following(at.old_next), ..at },
            DiffLineView {
                line_type: DiffLineType::Deletion,
                content: line.skip(1),
                old_line: Some(at.old_next),
                ..plain
            },
        )
    } else {
        (
            DiffCursor {
                old_next: following(at.old_next),
                new_next: following(at.new_next),
                ..at
            },
            DiffLineView {
                content: if line.len() > 0 && line[0] == ' ' {
                    line.skip(1)
                } else {
                    line
                },
                old_line: Some(at.old_next),
                new_line: Some(at.new_next),
                ..plain
            },
        )
    }
}

pub open spec fn diff_start() -> DiffCursor {
    DiffCursor { path: Seq::empty(), old_next: 0, new_next: 0, in_hunk: false }
}

/// Where the reading stands behind `lines`.
pub open spec fn diff_cursor(lines: Seq<Seq<char>>) -> DiffCursor
    decreases lines.len(),
{
    if lines.len() == 0 {
        diff_start()
    } else {
        diff_step(diff_cursor(lines.drop_last()), lines.last()).0
    }
}

/// The lines of a diff, one for each line of its text.
pub open spec fn diff_lines(lines: Seq<Seq<char>>) -> Seq<DiffLineView> {
    Seq::new(lines.len(), |i: int| diff_step(diff_cursor(lines.take(i)), lines[i]).1)
}

/// Reads the lines of a unified diff.
pub fn parse_diff(diff: &str) -> (r: Vec<ParsedDiffLine>)
    ensures
        diff_view(r@) == diff_lines(text_lines(diff@)),
{
    let list = split_lines(diff);
    let ghost all = text_lines(diff@);
    let mut out: Vec<ParsedDiffLine> = Vec::new();
    let mut path = String::new();
    let mut old_next: u64 = 0;
    let mut new_next: u64 = 0;
    let mut in_hunk = false;
    let mut i: usize = 0;
    proof {
        assert(all.take(0) =~= Seq::empty());
        assert(path@ =~= Seq::empty());
    }
    while i < list.len()
        invariant
            i <= list@.len(),
            texts(list@) == all,
            diff_cursor(all.take(i as int)) == (DiffCursor {
                path: path@,
                old_next,
                new_next,
                in_hunk,
            }),
            out@.len() == i,
            forall|j: int| 0 <= j < i ==> (#[trigger] out@[j])@ == diff_lines(all)[j],
        decreases list@.len() - i,
    {
        let chars = chars_of(list[i].as_str());
        let ghost at = diff_cursor(all.take(i as int));
        let ghost line = all[i as int];
        proof {
            assert(line == list@[i as int]@);
            assert(all.take(i + 1).drop_last() =~= all.take(i as int));
        }
        let n: usize = chars.len();
        let mut parsed = ParsedDiffLine {
            line_type: DiffLineType::Context,
            content: list[i].clone(),
            old_line: None,
            new_line: None,
            current_path: String::new(),
        };
        if has_prefix(&chars, "diff --git ") {
            path = read_new_path(&chars);
            in_hunk = false;
            parsed.line_type = DiffLineType::FileHeader;
        } else if has_prefix(&chars, "@@") {
            old_next = read_number_behind(&chars, '-');
            new_next = read_number_behind(&chars, '+');
            in_hunk = true;
            parsed.line_type = DiffLineType::HunkHeader;
        } else if !in_hunk {
            parsed.line_type = DiffLineType::FileHeader;
        } else if n > 0 && chars[0] == '\\' {
            parsed.line_type = DiffLineType::NoNewline;
        } else if n > 0 && chars[0] == '+' {
            parsed.line_type = DiffLineType::Addition;
            parsed.content = string_of(&chars, 1, n);
            parsed.new_line = Some(new_next);
            new_next = after(new_next);
        } else if n > 0 && chars[0] == '-' {
            parsed.line_type = DiffLineType::Deletion;
            parsed.content = string_of(&chars, 1, n);
            parsed.old_line = Some(old_next);
            old_next = after(old_next);
        } else {
            if n > 0 && chars[0] == ' ' {
                parsed.content = string_of(&chars, 1, n);
            }
            parsed.old_line = Some(old_next);
            parsed.new_line = Some(new_next);
            old_next = after(old_next);
            new_next = after(new_next);
        }
        parsed.current_path = path.clone();
        proof {
            if n > 0 {
                assert(line.subrange(1, n as int) =~= line.skip(1));
            }
            assert(parsed@ =~= diff_step(at, line).1);
        }
        out.push(parsed);
        i += 1;
    }
    proof {
        assert(diff_view(out@) =~= diff_lines(all));
    }
    out
}

/// Whether a file begins at a line.
pub open spec fn file_begins(line: DiffLineView) -> bool {
    line.line_type == DiffLineType::FileHeader && begins_with(line.content, "diff --git "@)
}

/// The places among the first `n` lines at which files begin.
pub open spec fn file_places(lines: Seq<DiffLineView>, n: int) -> Seq<usize>
    decreases n,
{
    if n <= 0 {
        Seq::empty()
    } else if file_begins(lines[n - 1]) {
        file_places(lines, n - 1).push((n - 1) as usize)
    } else {
        file_places(lines, n - 1)
    }
}

/// The places at which files begin, in order.
pub fn find_file_boundaries(parsed: &Vec<ParsedDiffLine>) -> (r: Vec<usize>)
    ensures
        r@ == file_places(diff_view(parsed@), parsed@.len() as int),
        forall|k: int| 0 <= k < r@.len() ==> (#[trigger] r@[k]) < parsed@.len(),
{
    let mut out: Vec<usize> = Vec::new();
    let mut i: usize = 0;
    while i < parsed.len()
        invariant
            i <= parsed@.len(),
            out@ == file_places(diff_view(parsed@), i as int),
            forall|k: int| 0 <= k < out@.len() ==> (#[trigger] out@[k]) < i,
        decreases parsed@.len() - i,
    {
        proof {
            assert(diff_view(parsed@)[i as int] == parsed@[i as int]@);
        }
        if parsed[i].line_type == DiffLineType::FileHeader && has_prefix(
            &chars_of(parsed[i].content.as_str()),
            "diff --git ",
        ) {
            out.push(i);
        }
        i += 1;
    }
    out
}

/// The places at which files begin grow, and a file begins at each of them.
pub proof fn file_places_grow(lines: Seq<DiffLineView>, n: int)
    requires
        0 <= n <= lines.len() <= usize::MAX,
    ensures
        forall|k: int|
            0 <= k < file_places(lines, n).len() ==> 0 <= (#[trigger] file_places(lines, n)[k]) < n
                && file_begins(lines[file_places(lines, n)[k] as int]),
        forall|j: int, k: int|
            0 <= j < k < file_places(lines, n).len() ==> file_places(lines, n)[j] < file_places(
                lines,
                n,
            )[k],
    decreases n,
{
    if n > 0 {
        file_places_grow(lines, n - 1);
        let p = file_places(lines, n - 1);
        let q = file_places(lines, n);
        assert forall|k: int| 0 <= k < q.len() implies 0 <= (#[trigger] q[k]) < n && file_begins(
            lines[q[k] as int],
        ) by {
            if k < p.len() {
                assert(q[k] == p[k]);
            }
        }
        assert forall|j: int, k: int| 0 <= j < k < q.len() implies q[j] < q[k] by {
            assert(q[j] == p[j]);
            if k < p.len() {
                assert(q[k] == p[k]);
            }
        }
    }
}

impl ReviewComment {
    pub fn copy(&self) -> (r: ReviewComment)
        ensures
            r == *self,
    {
        ReviewComment {
            author: self.author.clone(),
            body: self.body.clone(),
            path: self.path.clone(),
            line: self.line,
            created_at: self.created_at.clone(),
            url: self.url.clone(),
        }
    }
}

/// Which number of a line a comment is matched by.
#[derive(Debug, Clone, Copy, PartialEq, Eq, Structural)]
pub enum Match {
    Path,
    NewLine,
    OldLine,
}

pub open spec fn line_matches(comment: CommentView, line: DiffLineView, by: Match) -> bool {
    line.current_path == comment.path && match by {
        Match::Path => true,
        Match::NewLine => line.new_line == comment.line,
        Match::OldLine => line.old_line == comment.line,
    }
}

/// The first line from `i` on that `comment` matches.
pub open spec fn first_match(
    comment: CommentView,
    lines: Seq<DiffLineView>,
    by: Match,
    i: int,
) -> Option<int>
    decreases lines.len() - i,
{
    if i < 0 || i >= lines.len() {
        None
    } else if line_matches(comment, lines[i], by) {
        Some(i)
    } else {
        first_match(comment, lines, by, i + 1)
    }
}

/// The line below which a comment is shown: the line of the new file that it
/// is on, else that of the old file; the first line of its file where it has
/// no line any more.
pub open spec fn comment_place(comment: CommentView, lines: Seq<DiffLineView>) -> Option<int> {
    if comment.line is None {
        first_match(comment, lines, Match::Path, 0)
    } else {
        match first_match(comment, lines, Match::NewLine, 0) {
            Some(i) => Some(i),
            None => first_match(comment, lines, Match::OldLine, 0),
        }
    }
}

fn find_match(comment: &ReviewComment, parsed: &Vec<ParsedDiffLine>, by: Match) -> (r: Option<usize>)
    ensures
        (match r {
            Some(i) => i < parsed@.len() && first_match(comment@, diff_view(parsed@), by, 0)
                == Some(i as int),
            None => first_match(comment@, diff_view(parsed@), by, 0) is None,
        }),
{
    let mut i: usize = 0;
    while i < parsed.len()
        invariant
            i <= parsed@.len(),
            first_match(comment@, diff_view(parsed@), by, 0) == first_match(
                comment@,
                diff_view(parsed@),
                by,
                i as int,
            ),
        decreases parsed@.len() - i,
    {
        proof {
            assert(diff_view(parsed@)[i as int] == parsed@[i as int]@);
        }
        if same_text(parsed[i].current_path.as_str(), comment.path.as_str()) {
            let hit = match by {
                Match::Path => true,
                Match::NewLine => parsed[i].new_line == comment.line,
                Match::OldLine => parsed[i].old_line == comment.line,
            };
            if hit {
                return Some(i);
            }
        }
        i += 1;
    }
    None
}

fn place_comment(comment: &ReviewComment, parsed: &Vec<ParsedDiffLine>) -> (r: Option<usize>)
    ensures
        (match r {
            Some(i) => i < parsed@.len() && comment_place(comment@, diff_view(parsed@)) == Some(
                i as int,
            ),
            None => comment_place(comment@, diff_view(parsed@)) is None,
        }),
{
    if comment.line.is_none() {
        return find_match(comment, parsed, Match::Path);
    }
    match find_match(comment, parsed, Match::NewLine) {
        Some(i) => Some(i),
        None => find_match(comment, parsed, Match::OldLine),
    }
}

/// The comments of the first `n` threads, thread after thread.
pub open spec fn thread_comments(threads: Seq<ReviewThread>, n: int) -> Seq<CommentView>
    decreases n,
{
    if n <= 0 {
        Seq::empty()
    } else {
        thread_comments(threads, n - 1) + comments_view(threads[n - 1].comments@)
    }
}

/// The comments of the threads, thread after thread.
pub open spec fn all_comments(threads: Seq<ReviewThread>) -> Seq<CommentView> {
    thread_comments(threads, threads.len() as int)
}

pub(crate) fn gather_comments(threads: &Vec<ReviewThread>) -> (r: Vec<ReviewComment>)
    ensures
        comments_view(r@) == all_comments(threads@),
{
    let mut out: Vec<ReviewComment> = Vec::new();
    let mut t: usize = 0;
    proof {
        assert(comments_view(out@) =~= thread_comments(threads@, 0));
    }
    while t < threads.len()
        invariant
            t <= threads@.len(),
            comments_view(out@) == thread_comments(threads@, t as int),
        decreases threads@.len() - t,
    {
        let list = &threads[t].comments;
        let ghost start = comments_view(out@);
        let ghost more = comments_view(list@);
        let mut i: usize = 0;
        proof {
            assert(start + more.take(0) =~= start);
        }
        while i < list.len()
            invariant
                i <= list@.len(),
                more == comments_view(list@),
                comments_view(out@) == start + more.take(i as int),
            decreases list@.len() - i,
        {
            let ghost was = out@;
            out.push(list[i].copy());
            i += 1;
            proof {
                assert(comments_view(out@) =~= comments_view(was).push(more[i - 1]));
                assert(comments_view(out@) =~= start + more.take(i as int));
            }
        }
        proof {
            assert(more.take(list@.len() as int) =~= more);
        }
        t += 1;
    }
    out
}

/// Whether a comment is shown below line `i`.
pub open spec fn placed_at(comment: CommentView, lines: Seq<DiffLineView>, i: int) -> bool {
    comment_place(comment, lines) == Some(i)
}

/// The comments of `all` shown below line `i`, in thread order.
pub open spec fn comments_below(
    all: Seq<CommentView>,
    lines: Seq<DiffLineView>,
    i: int,
) -> Seq<CommentView> {
    all.filter(|c: CommentView| placed_at(c, lines, i))
}

/// For each line of a diff, the review comments shown below it.
pub fn map_review_threads_to_diff_indices(
    threads: &Vec<ReviewThread>,
    parsed: &Vec<ParsedDiffLine>,
) -> (r: Vec<Vec<ReviewComment>>)
    ensures
        r@.len() == parsed@.len(),
        forall|i: int|
            0 <= i < parsed@.len() ==> comments_view((#[trigger] r@[i])@) == comments_below(
                all_comments(threads@),
                diff_view(parsed@),
                i,
            ),
{
    let all = gather_comments(threads);
    let ghost lines = diff_view(parsed@);
    let mut places: Vec<Option<usize>> = Vec::new();
    let mut n: usize = 0;
    while n < all.len()
        invariant
            n <= all@.len(),
            lines == diff_view(parsed@),
            places@.len() == n,
            forall|k: int|
                0 <= k < n ==> (match #[trigger] places@[k] {
                    Some(p) => p < parsed@.len() && comment_place(all@[k]@, lines) == Some(p as int),
                    None => comment_place(all@[k]@, lines) is None,
                }),
        decreases all@.len() - n,
    {
        places.push(place_comment(&all[n], parsed));
        n += 1;
    }
    let mut out: Vec<Vec<ReviewComment>> = Vec::new();
    let mut i: usize = 0;
    while i < parsed.len()
        invariant
            i <= parsed@.len(),
            lines == diff_view(parsed@),
            comments_view(all@) == all_comments(threads@),
            places@.len() == all@.len(),
            forall|k: int|
                0 <= k < all@.len() ==> (match #[trigger] places@[k] {
                    Some(p) => p < parsed@.len() && comment_place(all@[k]@, lines) == Some(p as int),
                    None => comment_place(all@[k]@, lines) is None,
                }),
            out@.len() == i,
            forall|j: int|
                0 <= j < i ==> comments_view((#[trigger] out@[j])@) == comments_below(
                    all_comments(threads@),
                    lines,
                    j,
                ),
        decreases parsed@.len() - i,
    {
        let ghost keep = |c: CommentView| placed_at(c, lines, i as int);
        let ghost views = comments_view(all@);
        let mut here: Vec<ReviewComment> = Vec::new();
        let mut k: usize = 0;
        proof {
            reveal(Seq::filter);
            assert(views.take(0).filter(keep) =~= Seq::empty());
            assert(comments_view(here@) =~= Seq::empty());
        }
        while k < all.len()
            invariant
                k <= all@.len(),
                i < parsed@.len(),
                keep == (|c: CommentView| placed_at(c, lines, i as int)),
                views == comments_view(all@),
                places@.len() == all@.len(),
                forall|k: int|
                    0 <= k < all@.len() ==> (match #[trigger] places@[k] {
                        Some(p) => p < parsed@.len() && comment_place(all@[k]@, lines) == Some(
                            p as int,
                        ),
                        None => comment_place(all@[k]@, lines) is None,
                    }),
                comments_view(here@) == views.take(k as int).filter(keep),
            decreases all@.len() - k,
        {
            proof {
                reveal(Seq::filter);
                assert(views.take(k + 1).drop_last() =~= views.take(k as int));
            }
            let ghost was = here@;
            let hit = match places[k] {
                Some(p) => p == i,
                None => false,
            };
            if hit {
                here.push(all[k].copy());
                proof {
                    assert(comments_view(here@) =~= comments_view(was).push(views[k as int]));
                }
            }
            k += 1;
        }
        proof {
            assert(views.take(all@.len() as int) =~= views);
        }
        out.push(here);
        i += 1;
    }
    out
}

} // verus!
