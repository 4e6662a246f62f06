//! Strings as sequences of characters: building, comparing, measuring and
//! shortening them.
use vstd::prelude::*;

verus! {

/// `String::push` appends one character at the end.
pub assume_specification[ String::push ](s: &mut String, c: char)
    ensures
        final(s)@ == old(s)@.push(c),
;

/// `String::pop` removes and returns the last character, if there is one.
pub assume_specification[ String::pop ](s: &mut String) -> (r: Option<char>)
    ensures
        old(s)@.len() == 0 ==> r is None && final(s)@ == old(s)@,
        old(s)@.len() > 0 ==> r == Some(old(s)@.last()) && final(s)@ == old(s)@.drop_last(),
;

/// The displayed width of a text in terminal columns.
pub uninterp spec fn text_columns(s: Seq<char>) -> usize;

/// The displayed width of one character, `None` for a control character.
pub uninterp spec fn char_columns(c: char) -> Option<usize>;

/// The lower-case form of a text.
pub uninterp spec fn lowercased(s: Seq<char>) -> Seq<char>;

/// Whether a character is white space: the characters with the Unicode
/// property `White_Space`.
pub open spec fn blank_char(c: char) -> bool {
    let n = c as u32;
    ||| 0x9 <= n <= 0xd
    ||| n == 0x20
    ||| n == 0x85
    ||| n == 0xa0
    ||| n == 0x1680
    ||| 0x2000 <= n <= 0x200a
    ||| n == 0x2028
    ||| n == 0x2029
    ||| n == 0x202f
    ||| n == 0x205f
    ||| n == 0x3000
}

/// Wraps `unicode_width::UnicodeWidthStr::width`. The width depends on the
/// text alone. The empty text takes no column, and an ellipsis, whose width is
/// ambiguous and so counted as narrow, takes one.
#[verifier::external_body]
pub(crate) fn text_width(s: &str) -> (r: usize)
    ensures
        r == text_columns(s@),
        s@.len() == 0 ==> r == 0,
        s@ == "…"@ ==> r == 1,
{
    unicode_width::UnicodeWidthStr::width(s)
}

/// Wraps `unicode_width::UnicodeWidthChar::width`. The width depends on the
/// character alone and is at most three columns.
#[verifier::external_body]
pub(crate) fn char_width(c: char) -> (r: Option<usize>)
    ensures
        r == char_columns(c),
        r matches Some(w) ==> w <= 3,
{
    unicode_width::UnicodeWidthChar::width(c)
}

/// Wraps `str::to_lowercase`, which maps by the Unicode tables and depends on
/// the text alone.
#[verifier::external_body]
pub(crate) fn to_lower(s: &str) -> (r: String)
    ensures
        r@ == lowercased(s@),
{
    s.to_lowercase()
}

/// Whether a character is white space.
pub fn is_blank_char(c: char) -> (r: bool)
    ensures
        r == blank_char(c),
{
    let n: u32 = c as u32;
    (0x9 <= n && n <= 0xd) || n == 0x20 || n == 0x85 || n == 0xa0 || n == 0x1680 || (0x2000 <= n
        && n <= 0x200a) || n == 0x2028 || n == 0x2029 || n == 0x202f || n == 0x205f || n == 0x3000
}

/// The columns a character takes when a line is filled character by
/// character: control characters take none.
pub open spec fn columns_of(c: char) -> nat {
    match char_columns(c) {
        Some(w) => w as nat,
        None => 0,
    }
}

/// The sum of the columns of the characters of `s`.
pub open spec fn columns_sum(s: Seq<char>) -> nat
    decreases s.len(),
{
    if s.len() == 0 {
        0
    } else {
        columns_sum(s.drop_last()) + columns_of(s.last())
    }
}

pub(crate) fn char_cols(c: char) -> (r: usize)
    ensures
        r as nat == columns_of(c),
        r <= 3,
{
    match char_width(c) {
        Some(w) => w,
        None => 0,
    }
}

/// The characters of a text.
pub fn chars_of(s: &str) -> (r: Vec<char>)
    ensures
        r@ == s@,
{
    let mut out: Vec<char> = Vec::new();
    for c in it: s.chars()
        invariant
            out@ == it.seq().take(it.index() as int),
            it.seq() == s@,
    {
        out.push(c);
        proof {
            assert(out@ =~= it.seq().take(it.index() as int + 1));
        }
    }
    proof {
        assert(out@ =~= s@);
    }
    out
}

/// The text made of `chars[from..to]`.
pub fn string_of(chars: &Vec<char>, from: usize, to: usize) -> (r: String)
    requires
        from <= to <= chars@.len(),
    ensures
        r@ == chars@.subrange(from as int, to as int),
{
    let mut out = String::new();
    let mut i: usize = from;
    while i < to
        invariant
            from <= i <= to <= chars@.len(),
            out@ == chars@.subrange(from as int, i as int),
        decreases to - i,
    {
        out.push(chars[i]);
        i += 1;
        proof {
            assert(out@ =~= chars@.subrange(from as int, i as int));
        }
    }
    out
}

/// Whether two texts hold the same characters.
pub fn same_text(a: &str, b: &str) -> (r: bool)
    ensures
        r == (a@ == b@),
{
    let x = chars_of(a);
    let y = chars_of(b);
    if x.len() != y.len() {
        return false;
    }
    let mut i: usize = 0;
    while i < x.len()
        invariant
            i <= x@.len(),
            x@.len() == y@.len(),
            x@ == a@,
            y@ == b@,
            forall|j: int| 0 <= j < i ==> x@[j] == y@[j],
        decreases x@.len() - i,
    {
        if x[i] != y[i] {
            return false;
        }
        i += 1;
    }
    proof {
        assert(x@ =~= y@);
    }
    true
}

/// `a` with `b` behind it.
pub fn joined(a: &str, b: &str) -> (r: String)
    ensures
        r@ == a@ + b@,
{
    let mut out = a.to_owned();
    out.append(b);
    out
}

/// The texts `a`, `b` and `c`, one behind the other.
pub fn joined3(a: &str, b: &str, c: &str) -> (r: String)
    ensures
        r@ == a@ + b@ + c@,
{
    let mut out = a.to_owned();
    out.append(b);
    out.append(c);
    out
}

/// One decimal digit.
pub open spec fn digit(n: nat) -> char {
    if n == 0 {
        '0'
    } else if n == 1 {
        '1'
    } else if n == 2 {
        '2'
    } else if n == 3 {
        '3'
    } else if n == 4 {
        '4'
    } else if n == 5 {
        '5'
    } else if n == 6 {
        '6'
    } else if n == 7 {
        '7'
    } else if n == 8 {
        '8'
    } else {
        '9'
    }
}

fn digit_char(n: u64) -> (r: char)
    requires
        n < 10,
    ensures
        r == digit(n as nat),
{
    if n == 0 {
        '0'
    } else if n == 1 {
        '1'
    } else if n == 2 {
        '2'
    } else if n == 3 {
        '3'
    } else if n == 4 {
        '4'
    } else if n == 5 {
        '5'
    } else if n == 6 {
        '6'
    } else if n == 7 {
        '7'
    } else if n == 8 {
        '8'
    } else {
        '9'
    }
}

/// The decimal digits of `n`, without leading zeros.
pub open spec fn decimal(n: nat) -> Seq<char>
    decreases n,
{
    if n < 10 {
        seq![digit(n)]
    } else {
        decimal(n / 10).push(digit(n % 10))
    }
}

/// Writes `n` in decimal.
pub fn decimal_string(n: u64) -> (r: String)
    ensures
        r@ == decimal(n as nat),
    decreases n,
{
    if n < 10 {
        let mut out = String::new();
        out.push(digit_char(n));
        proof {
            assert(out@ =~= seq![digit(n as nat)]);
        }
        out
    } else {
        let mut out = decimal_string(n / 10);
        out.push(digit_char(n % 10));
        out
    }
}

/// `n` copies of `c`.
pub open spec fn repeated(c: char, n: nat) -> Seq<char> {
    Seq::new(n, |i: int| c)
}

/// `n` copies of `c`.
pub fn repeat_char(c: char, n: usize) -> (r: String)
    ensures
        r@ == repeated(c, n as nat),
{
    let mut out = String::new();
    let mut i: usize = 0;
    while i < n
        invariant
            i <= n,
            out@ == repeated(c, i as nat),
        decreases n - i,
    {
        out.push(c);
        i += 1;
        proof {
            assert(out@ =~= repeated(c, i as nat));
        }
    }
    proof {
        assert(out@ =~= repeated(c, n as nat));
    }
    out
}

/// Whether `needle` stands in `hay` at position `at`.
pub open spec fn found_at(hay: Seq<char>, needle: Seq<char>, at: int) -> bool {
    &&& 0 <= at
    &&& at + needle.len() <= hay.len()
    &&& hay.subrange(at, at + needle.len()) == needle
}

/// Whether `needle` stands anywhere in `hay`.
pub open spec fn contained(hay: Seq<char>, needle: Seq<char>) -> bool {
    exists|at: int| found_at(hay, needle, at)
}

fn matches_at(hay: &Vec<char>, needle: &Vec<char>, at: usize) -> (r: bool)
    requires
        at + needle@.len() <= hay@.len(),
    ensures
        r == found_at(hay@, needle@, at as int),
{
    let mut j: usize = 0;
    let len: usize = hay.len();
    while j < needle.len()
        invariant
            len == hay@.len(),
            j <= needle@.len(),
            at + needle@.len() <= hay@.len(),
            forall|k: int| 0 <= k < j ==> hay@[at + k] == needle@[k],
        decreases needle@.len() - j,
    {
        if hay[at + j] != needle[j] {
            proof {
                assert(hay@.subrange(at as int, at + needle@.len())[j as int] == hay@[at + j]);
            }
            return false;
        }
        j += 1;
    }
    proof {
        assert(hay@.subrange(at as int, at + needle@.len()) =~= needle@);
    }
    true
}

/// Whether `needle` stands anywhere in `hay`.
pub fn contains_text(hay: &str, needle: &str) -> (r: bool)
    ensures
        r == contained(hay@, needle@),
{
    let h = chars_of(hay);
    let n = chars_of(needle);
    if n.len() > h.len() {
        return false;
    }
    let last: usize = h.len() - n.len();
    let mut at: usize = 0;
    while at <= last
        invariant
            at <= last + 1,
            last == h@.len() - n@.len(),
            h@.len() <= usize::MAX,
            h@ == hay@,
            n@ == needle@,
            forall|k: int| 0 <= k < at ==> !found_at(h@, n@, k),
        decreases last + 1 - at,
    {
        if matches_at(&h, &n, at) {
            return true;
        }
        if at == last {
            return false;
        }
        at += 1;
    }
    false
}

/// Whether `s` begins with `prefix`.
pub open spec fn begins_with(s: Seq<char>, prefix: Seq<char>) -> bool {
    found_at(s, prefix, 0)
}

/// Whether `s` begins with `prefix`.
pub fn has_prefix(s: &Vec<char>, prefix: &str) -> (r: bool)
    ensures
        r == begins_with(s@, prefix@),
{
    let p = chars_of(prefix);
    if p.len() > s.len() {
        return false;
    }
    matches_at(s, &p, 0)
}

/// Where filling stops: the first position from `i` on whose character no
/// longer leaves one column free of `max`, `used` columns being taken.
pub open spec fn fill_stop(s: Seq<char>, i: int, used: nat, max: nat) -> int
    decreases s.len() - i,
{
    if i < 0 || i >= s.len() || used + columns_of(s[i]) + 1 > max {
        i
    } else {
        fill_stop(s, i + 1, used + columns_of(s[i]), max)
    }
}

/// How many of the first `k` characters of `s` are kept: as many as, with an
/// ellipsis behind them, are displayed in `max` columns.
pub open spec fn fit_stop(s: Seq<char>, k: int, max: nat) -> int
    decreases k,
{
    if k <= 0 {
        0
    } else if text_columns(s.take(k).push('…')) as nat <= max {
        k
    } else {
        fit_stop(s, k - 1, max)
    }
}

/// Where a text that does not fit is cut. The characters are counted one by
/// one first; since a text can be wider than its characters, some more are then
/// left out as needed.
pub open spec fn cut_stop(s: Seq<char>, max: nat) -> int {
    let filled = fill_stop(s, 0, 0, max);
    fit_stop(
        s,
        if filled < s.len() {
            filled
        } else {
            s.len() - 1
        },
        max,
    )
}

/// `s` shortened to `max` columns: whole where it fits, else a beginning of it
/// and an ellipsis.
pub open spec fn truncated(s: Seq<char>, max: nat) -> Seq<char> {
    if max == 0 {
        Seq::empty()
    } else if text_columns(s) as nat <= max {
        s
    } else if max <= 1 {
        "…"@
    } else {
        s.take(cut_stop(s, max)).push('…')
    }
}

/// Whether `r` is a beginning of `s`, not all of it, and an ellipsis.
pub open spec fn shortened(s: Seq<char>, r: Seq<char>) -> bool {
    exists|k: int| 0 <= k < s.len() && r == #[trigger] s.take(k).push('…')
}

/// Drops characters behind the first `k` until the rest and an ellipsis are
/// displayed in `max` columns.
fn cut_and_mark(chars: &Vec<char>, from: usize, max: usize) -> (r: String)
    requires
        from <= chars@.len(),
        max > 0,
    ensures
        r@ == chars@.take(fit_stop(chars@, from as int, max as nat)).push('…'),
        text_columns(r@) <= max,
        0 <= fit_stop(chars@, from as int, max as nat) <= from,
{
    let mut k: usize = from;
    while k > 0
        invariant
            k <= from <= chars@.len(),
            fit_stop(chars@, from as int, max as nat) == fit_stop(chars@, k as int, max as nat),
        decreases k,
    {
        let mut out = string_of(chars, 0, k);
        proof {
            assert(out@ =~= chars@.take(k as int));
        }
        out.push('…');
        if text_width(out.as_str()) <= max {
            return out;
        }
        k -= 1;
    }
    let mark = "…".to_owned();
    let _ = text_width(mark.as_str());
    proof {
        reveal_strlit("…");
        assert(mark@ =~= chars@.take(0).push('…'));
    }
    mark
}

/// Shortens `s` so that it is displayed in at most `max_width` columns,
/// ending it in an ellipsis where characters were left out.
pub fn truncate_to_display_width(s: &str, max_width: usize) -> (r: String)
    ensures
        r@ == truncated(s@, max_width as nat),
        text_columns(r@) <= max_width,
        max_width == 0 ==> r@.len() == 0,
        max_width > 0 && text_columns(s@) <= max_width ==> r@ == s@,
        max_width > 0 && text_columns(s@) > max_width ==> shortened(s@, r@),
{
    if max_width == 0 {
        let none = String::new();
        let _ = text_width(none.as_str());
        return none;
    }
    if text_width(s) <= max_width {
        return s.to_owned();
    }
    let chars = chars_of(s);
    if max_width <= 1 {
        let mark = "…".to_owned();
        let _ = text_width(mark.as_str());
        proof {
            reveal_strlit("…");
            assert(mark@ =~= s@.take(0).push('…'));
        }
        return mark;
    }
    let mut used: usize = 0;
    let mut i: usize = 0;
    while i < chars.len() && char_cols(chars[i]) < max_width - used
        invariant
            chars@ == s@,
            i <= chars@.len(),
            used < max_width,
            fill_stop(s@, 0, 0, max_width as nat) == fill_stop(s@, i as int, used as nat, max_width as nat),
        decreases chars@.len() - i,
    {
        used += char_cols(chars[i]);
        i += 1;
    }
    if i == chars.len() {
        i -= 1;
    }
    cut_and_mark(&chars, i, max_width)
}

proof fn lemma_columns_push(s: Seq<char>, c: char)
    ensures
        columns_sum(s.push(c)) == columns_sum(s) + columns_of(c),
{
    assert(s.push(c).drop_last() =~= s);
}

proof fn lemma_fill_stop(s: Seq<char>, i: int, used: nat, max: nat)
    requires
        0 <= i <= s.len(),
        used == columns_sum(s.take(i)),
        used + 1 <= max,
    ensures
        i <= fill_stop(s, i, used, max) <= s.len(),
        columns_sum(s.take(fill_stop(s, i, used, max))) + 1 <= max,
        fill_stop(s, i, used, max) < s.len() ==> columns_sum(
            s.take(fill_stop(s, i, used, max) + 1),
        ) + 1 > max,
    decreases s.len() - i,
{
    if i < s.len() {
        lemma_columns_push(s.take(i), s[i]);
        assert(s.take(i).push(s[i]) =~= s.take(i + 1));
        if used + columns_of(s[i]) + 1 <= max {
            lemma_fill_stop(s, i + 1, used + columns_of(s[i]), max);
        }
    }
}

proof fn lemma_fit_stop(s: Seq<char>, k: int, max: nat)
    requires
        0 <= k,
    ensures
        0 <= fit_stop(s, k, max) <= k,
        forall|j: int|
            fit_stop(s, k, max) < j <= k ==> text_columns(#[trigger] s.take(j).push('…')) > max,
        fit_stop(s, k, max) > 0 ==> text_columns(s.take(fit_stop(s, k, max)).push('…')) <= max,
    decreases k,
{
    if k > 0 && text_columns(s.take(k).push('…')) > max {
        lemma_fit_stop(s, k - 1, max);
    }
}

/// A text that is cut keeps as much as fits: no longer prefix whose characters
/// together leave a column free for the ellipsis is displayed within the width.
pub proof fn truncation_keeps_longest_prefix(s: Seq<char>, max: nat, j: int)
    requires
        text_columns(s) > max,
        max > 1,
        truncated(s, max).len() <= j < s.len(),
        columns_sum(s.take(j)) + 1 <= max,
    ensures
        text_columns(s.take(j).push('…')) > max,
{
    let filled = fill_stop(s, 0, 0, max);
    assert(s.take(0) =~= Seq::empty());
    lemma_fill_stop(s, 0, 0, max);
    let from = if filled < s.len() {
        filled
    } else {
        s.len() - 1
    };
    lemma_fit_stop(s, from, max);
    if j > filled {
        lemma_columns_grow(s, filled + 1, j);
    }
}

proof fn lemma_columns_grow(s: Seq<char>, i: int, j: int)
    requires
        0 <= i <= j <= s.len(),
    ensures
        columns_sum(s.take(i)) <= columns_sum(s.take(j)),
    decreases j - i,
{
    if i < j {
        lemma_columns_grow(s, i, j - 1);
        lemma_columns_push(s.take(j - 1), s[j - 1]);
        assert(s.take(j - 1).push(s[j - 1]) =~= s.take(j));
    }
}

/// Shortening a text twice to the same width shortens it once.
pub proof fn truncation_is_idempotent(s: Seq<char>, max: nat)
    ensures
        truncated(truncated(s, max), max) == truncated(s, max),
{
    reveal_strlit("…");
    let r = truncated(s, max);
    if max > 1 && text_columns(s) > max {
        let filled = fill_stop(s, 0, 0, max);
        assert(s.take(0) =~= Seq::empty());
        lemma_fill_stop(s, 0, 0, max);
        lemma_fit_stop(
            s,
            if s.len() == 0 {
                0
            } else if filled < s.len() {
                filled
            } else {
                s.len() - 1
            },
            max,
        );
        if cut_stop(s, max) == 0 {
            assert(r =~= "…"@);
        }
    }
    if r == "…"@ && max > 1 && text_columns(r) > max {
        assert(r.take(0) =~= Seq::empty());
        lemma_fill_stop(r, 0, 0, max);
        assert(r.take(0).push('…') =~= r);
    }
}

} // verus!
