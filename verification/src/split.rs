//! Cutting texts into words, lines, fields and byte ranges.
use vstd::prelude::*;

use crate::text::{blank_char, chars_of, is_blank_char, string_of};

verus! {

/// The characters of each text of a list.
pub open spec fn texts(v: Seq<String>) -> Seq<Seq<char>> {
    v.map_values(|s: String| s@)
}

/// Adds a text at the end of a list.
pub fn push_text(v: &mut Vec<String>, s: String)
    ensures
        texts(final(v)@) == texts(old(v)@).push(s@),
{
    v.push(s);
    proof {
        assert(texts(v@) =~= texts(old(v)@).push(s@));
    }
}

/// A copy of a list of texts.
pub fn copy_texts(v: &Vec<String>) -> (r: Vec<String>)
    ensures
        texts(r@) == texts(v@),
{
    let mut out: Vec<String> = Vec::new();
    let mut i: usize = 0;
    proof {
        assert(texts(out@) =~= texts(v@).take(0));
    }
    while i < v.len()
        invariant
            i <= v@.len(),
            texts(out@) == texts(v@).take(i as int),
        decreases v@.len() - i,
    {
        push_text(&mut out, v[i].clone());
        i += 1;
        proof {
            assert(texts(out@) =~= texts(v@).take(i as int));
        }
    }
    proof {
        assert(texts(out@) =~= texts(v@));
    }
    out
}

/// The words of a text: its longest runs without white space.
pub open spec fn words(s: Seq<char>) -> Seq<Seq<char>>
    decreases s.len(),
{
    if s.len() == 0 {
        Seq::empty()
    } else {
        let rest = words(s.drop_last());
        if blank_char(s.last()) {
            rest
        } else if s.len() == 1 || blank_char(s[s.len() - 2]) {
            rest.push(seq![s.last()])
        } else {
            rest.drop_last().push(rest.last().push(s.last()))
        }
    }
}

/// The words of a text.
pub fn split_words(s: &str) -> (r: Vec<String>)
    ensures
        texts(r@) == words(s@),
{
    let chars = chars_of(s);
    let mut out: Vec<String> = Vec::new();
    let mut current = String::new();
    let mut i: usize = 0;
    proof {
        assert(texts(out@) =~= words(s@.take(0)));
    }
    while i < chars.len()
        invariant
            chars@ == s@,
            i <= chars@.len(),
            current@.len() == 0 ==> texts(out@) == words(s@.take(i as int)),
            current@.len() > 0 ==> texts(out@).push(current@) == words(s@.take(i as int)),
            current@.len() == 0 <==> (i == 0 || blank_char(s@[i - 1])),
        decreases chars@.len() - i,
    {
        let c = chars[i];
        let ghost upto = s@.take(i as int);
        let ghost next = s@.take(i + 1);
        proof {
            assert(next.drop_last() =~= upto);
            assert(next.last() == c);
            if i > 0 {
                assert(next[next.len() - 2] == s@[i - 1]);
            }
        }
        if is_blank_char(c) {
            if !current.as_str().is_empty() {
                push_text(&mut out, current);
                current = String::new();
            }
        } else {
            let ghost was = current@;
            current.push(c);
            proof {
                if was.len() == 0 {
                    assert(current@ =~= seq![c]);
                } else {
                    let all = texts(out@).push(was);
                    assert(all.drop_last() =~= texts(out@));
                    assert(all.last() == was);
                }
            }
        }
        i += 1;
    }
    proof {
        assert(s@.take(s@.len() as int) =~= s@);
    }
    if !current.as_str().is_empty() {
        push_text(&mut out, current);
    }
    out
}

/// The first place of `c` in `s`, or the end.
pub open spec fn first_place(s: Seq<char>, c: char) -> int
    decreases s.len(),
{
    if s.len() == 0 || s[0] == c {
        0
    } else {
        1 + first_place(s.skip(1), c)
    }
}

pub(crate) proof fn lemma_first_place(s: Seq<char>, c: char, k: int)
    requires
        0 <= k <= s.len(),
        forall|j: int| 0 <= j < k ==> s[j] != c,
        k < s.len() ==> s[k] == c,
    ensures
        first_place(s, c) == k,
    decreases s.len(),
{
    if k > 0 {
        assert forall|j: int| 0 <= j < k - 1 implies s.skip(1)[j] != c by {
            assert(s.skip(1)[j] == s[j + 1]);
        }
        lemma_first_place(s.skip(1), c, k - 1);
    }
}

pub(crate) proof fn lemma_first_place_bound(s: Seq<char>, c: char)
    ensures
        0 <= first_place(s, c) <= s.len(),
    decreases s.len(),
{
    if s.len() > 0 && s[0] != c {
        lemma_first_place_bound(s.skip(1), c);
    }
}

fn find_char(chars: &Vec<char>, from: usize, c: char) -> (r: usize)
    requires
        from <= chars@.len(),
    ensures
        from <= r <= chars@.len(),
        r - from == first_place(chars@.skip(from as int), c),
        r < chars@.len() ==> chars@[r as int] == c,
        forall|j: int| from <= j < r ==> chars@[j] != c,
{
    let mut i: usize = from;
    while i < chars.len() && chars[i] != c
        invariant
            from <= i <= chars@.len(),
            forall|j: int| from <= j < i ==> chars@[j] != c,
        decreases chars@.len() - i,
    {
        i += 1;
    }
    proof {
        let s = chars@.skip(from as int);
        assert forall|j: int| 0 <= j < i - from implies s[j] != c by {
            assert(s[j] == chars@[from + j]);
        }
        if i < chars@.len() {
            assert(s[i - from] == chars@[i as int]);
        }
        lemma_first_place(s, c, i - from);
    }
    i
}

/// The pieces of `s` between the separators `c`.
pub open spec fn pieces(s: Seq<char>, c: char) -> Seq<Seq<char>>
    decreases s.len(),
    via pieces_decreases
{
    let k = first_place(s, c);
    if k >= s.len() {
        seq![s]
    } else {
        seq![s.take(k)] + pieces(s.skip(k + 1), c)
    }
}

#[via_fn]
proof fn pieces_decreases(s: Seq<char>, c: char) {
    lemma_first_place_bound(s, c);
}

/// The pieces of `s` between the separators `c`.
pub fn split_on(s: &str, c: char) -> (r: Vec<String>)
    ensures
        texts(r@) == pieces(s@, c),
{
    let chars = chars_of(s);
    let mut out: Vec<String> = Vec::new();
    let mut from: usize = 0;
    proof {
        assert(chars@.skip(0) =~= chars@);
        assert(texts(out@) + pieces(chars@.skip(0), c) =~= pieces(s@, c));
    }
    loop
        invariant
            chars@ == s@,
            from <= chars@.len(),
            texts(out@) + pieces(chars@.skip(from as int), c) == pieces(s@, c),
        decreases chars@.len() - from,
    {
        let k: usize = find_char(&chars, from, c);
        let ghost rest = chars@.skip(from as int);
        let ghost done = texts(out@);
        push_text(&mut out, string_of(&chars, from, k));
        proof {
            assert(chars@.subrange(from as int, k as int) =~= rest.take(k - from));
        }
        if k >= chars.len() {
            proof {
                assert(rest.take(k - from) =~= rest);
                assert(done + seq![rest] =~= done.push(rest));
            }
            return out;
        }
        proof {
            assert(chars@.skip(k + 1) =~= rest.skip(k - from + 1));
            assert(done + (seq![rest.take(k - from)] + pieces(rest.skip(k - from + 1), c))
                =~= done.push(rest.take(k - from)) + pieces(rest.skip(k - from + 1), c));
        }
        from = k + 1;
    }
}

/// A line without the carriage return of a `\r\n` ending.
pub open spec fn without_cr(s: Seq<char>) -> Seq<char> {
    if s.len() > 0 && s.last() == '\r' {
        s.drop_last()
    } else {
        s
    }
}

/// The lines of a text, without their endings `\n` or `\r\n`; an ending at the
/// very end begins no further line.
pub open spec fn text_lines(s: Seq<char>) -> Seq<Seq<char>>
    decreases s.len(),
    via text_lines_decreases
{
    let k = first_place(s, '\n');
    if s.len() == 0 {
        Seq::empty()
    } else if k >= s.len() {
        seq![s]
    } else {
        seq![without_cr(s.take(k))] + text_lines(s.skip(k + 1))
    }
}

#[via_fn]
proof fn text_lines_decreases(s: Seq<char>) {
    lemma_first_place_bound(s, '\n');
}

/// The lines of a text.
pub fn split_lines(s: &str) -> (r: Vec<String>)
    ensures
        texts(r@) == text_lines(s@),
{
    let chars = chars_of(s);
    let mut out: Vec<String> = Vec::new();
    let mut from: usize = 0;
    proof {
        assert(chars@.skip(0) =~= chars@);
        assert(texts(out@) + text_lines(chars@.skip(0)) =~= text_lines(s@));
    }
    while from < chars.len()
        invariant
            chars@ == s@,
            from <= chars@.len(),
            texts(out@) + text_lines(chars@.skip(from as int)) == text_lines(s@),
        decreases chars@.len() - from,
    {
        let k: usize = find_char(&chars, from, '\n');
        let ghost rest = chars@.skip(from as int);
        let ghost done = texts(out@);
        proof {
            assert(chars@.subrange(from as int, k as int) =~= rest.take(k - from));
        }
        if k >= chars.len() {
            push_text(&mut out, string_of(&chars, from, k));
            proof {
                assert(rest.take(k - from) =~= rest);
                assert(done + seq![rest] =~= done.push(rest));
            }
            return out;
        }
        let end: usize = if k > from && chars[k - 1] == '\r' {
            k - 1
        } else {
            k
        };
        push_text(&mut out, string_of(&chars, from, end));
        proof {
            assert(chars@.subrange(from as int, end as int) =~= without_cr(rest.take(k - from)));
            assert(chars@.skip(k + 1) =~= rest.skip(k - from + 1));
            let line = without_cr(rest.take(k - from));
            assert(done + (seq![line] + text_lines(rest.skip(k - from + 1))) =~= done.push(line)
                + text_lines(rest.skip(k - from + 1)));
        }
        from = k + 1;
    }
    proof {
        assert(texts(out@) + Seq::<Seq<char>>::empty() =~= texts(out@));
    }
    out
}

/// `s` without leading white space.
pub open spec fn trimmed_start(s: Seq<char>) -> Seq<char>
    decreases s.len(),
{
    if s.len() > 0 && blank_char(s[0]) {
        trimmed_start(s.skip(1))
    } else {
        s
    }
}

/// `s` without trailing white space.
pub open spec fn trimmed_end(s: Seq<char>) -> Seq<char>
    decreases s.len(),
{
    if s.len() > 0 && blank_char(s.last()) {
        trimmed_end(s.drop_last())
    } else {
        s
    }
}

/// `s` without white space at either end.
pub open spec fn trimmed(s: Seq<char>) -> Seq<char> {
    trimmed_end(trimmed_start(s))
}

/// `s` without white space at either end.
pub fn trim_text(s: &str) -> (r: String)
    ensures
        r@ == trimmed(s@),
{
    let chars = chars_of(s);
    let mut from: usize = 0;
    proof {
        assert(chars@.skip(0) =~= chars@);
    }
    while from < chars.len() && is_blank_char(chars[from])
        invariant
            chars@ == s@,
            from <= chars@.len(),
            trimmed_start(s@) == trimmed_start(chars@.skip(from as int)),
        decreases chars@.len() - from,
    {
        proof {
            assert(chars@.skip(from as int).skip(1) =~= chars@.skip(from + 1));
        }
        from += 1;
    }
    let mut to: usize = chars.len();
    proof {
        assert(chars@.subrange(from as int, to as int) =~= chars@.skip(from as int));
    }
    while to > from && is_blank_char(chars[to - 1])
        invariant
            from <= to <= chars@.len(),
            trimmed_end(chars@.skip(from as int)) == trimmed_end(
                chars@.subrange(from as int, to as int),
            ),
        decreases to,
    {
        proof {
            assert(chars@.subrange(from as int, to as int).drop_last() =~= chars@.subrange(
                from as int,
                to - 1,
            ));
        }
        to -= 1;
    }
    string_of(&chars, from, to)
}

/// `s` with four spaces in the place of every tab.
pub open spec fn untabbed(s: Seq<char>) -> Seq<char>
    decreases s.len(),
{
    if s.len() == 0 {
        s
    } else if s.last() == '\t' {
        untabbed(s.drop_last()).push(' ').push(' ').push(' ').push(' ')
    } else {
        untabbed(s.drop_last()).push(s.last())
    }
}

/// `s` with four spaces in the place of every tab.
pub fn expand_tabs(s: &str) -> (r: String)
    ensures
        r@ == untabbed(s@),
{
    let chars = chars_of(s);
    let mut out = String::new();
    let mut i: usize = 0;
    while i < chars.len()
        invariant
            chars@ == s@,
            i <= chars@.len(),
            out@ == untabbed(s@.take(i as int)),
        decreases chars@.len() - i,
    {
        proof {
            assert(s@.take(i + 1).drop_last() =~= s@.take(i as int));
        }
        if chars[i] == '\t' {
            out.push(' ');
            out.push(' ');
            out.push(' ');
            out.push(' ');
        } else {
            out.push(chars[i]);
        }
        i += 1;
    }
    proof {
        assert(s@.take(s@.len() as int) =~= s@);
    }
    out
}

/// The bytes a character takes in UTF-8.
pub open spec fn utf8_size(c: char) -> int {
    if (c as u32) < 0x80 {
        1
    } else if (c as u32) < 0x800 {
        2
    } else if (c as u32) < 0x10000 {
        3
    } else {
        4
    }
}

/// How many leading characters of `s`, from character `i` at byte `at`, end
/// exactly at byte `target`; `None` where no character ends there.
pub open spec fn chars_at_byte(s: Seq<char>, i: int, at: int, target: int) -> Option<int>
    decreases s.len() - i,
{
    if at == target {
        Some(i)
    } else if at > target || i < 0 || i >= s.len() {
        None
    } else {
        chars_at_byte(s, i + 1, at + utf8_size(s[i]), target)
    }
}

/// The position in characters of byte `target`; `None` where the text is
/// shorter or no character begins or ends there.
pub open spec fn byte_place(s: Seq<char>, target: int) -> Option<int> {
    chars_at_byte(s, 0, 0, target)
}

/// The position in characters of byte `target`.
pub fn find_byte(chars: &Vec<char>, target: u32) -> (r: Option<usize>)
    ensures
        (match r {
            Some(k) => byte_place(chars@, target as int) == Some(k as int) && k <= chars@.len(),
            None => byte_place(chars@, target as int) is None,
        }),
{
    let mut i: usize = 0;
    let mut at: u64 = 0;
    while i < chars.len() && at < target as u64
        invariant
            i <= chars@.len(),
            at < target + 4,
            byte_place(chars@, target as int) == chars_at_byte(
                chars@,
                i as int,
                at as int,
                target as int,
            ),
        decreases chars@.len() - i,
    {
        let code: u32 = chars[i] as u32;
        let size: u64 = if code < 0x80 {
            1
        } else if code < 0x800 {
            2
        } else if code < 0x10000 {
            3
        } else {
            4
        };
        at += size;
        i += 1;
    }
    if at == target as u64 {
        Some(i)
    } else {
        None
    }
}

} // verus!
