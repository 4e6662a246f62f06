//! Numbers, words, lines and pieces of text.
use vstd::prelude::*;

use crate::split::{
    lemma_first_place, pieces, text_lines, trimmed, trimmed_end, trimmed_start, untabbed,
    without_cr, words,
};
use crate::text::{blank_char, decimal, digit};

verus! {

/// The number that a text of digits stands for.
pub open spec fn number(s: Seq<char>) -> int
    decreases s.len(),
{
    if s.len() == 0 {
        0
    } else {
        10 * number(s.drop_last()) + (s.last() as u32 - 48)
    }
}

/// A number is written in digits that stand for it, without leading zeros.
pub proof fn decimal_reads_back(n: nat)
    ensures
        number(decimal(n)) == n,
        decimal(n).len() >= 1,
        decimal(n).len() > 1 ==> decimal(n)[0] as u32 != 48,
        forall|i: int| 0 <= i < decimal(n).len() ==> 48 <= (#[trigger] decimal(n)[i]) as u32 <= 57,
    decreases n,
{
    if n < 10 {
        let s = seq![digit(n)];
        assert(s.drop_last() =~= Seq::empty());
        assert(number(s.drop_last()) == 0);
    } else {
        decimal_reads_back(n / 10);
        let front = decimal(n / 10);
        let s = front.push(digit(n % 10));
        assert(s.drop_last() =~= front);
        assert(front.len() == 1 ==> front[0] == front.last());
        if front.len() == 1 {
            assert(front.drop_last() =~= Seq::empty());
            assert(number(front.drop_last()) == 0);
        }
        assert(s[0] == front[0]);
    }
}

/// Two numbers are not written the same.
pub proof fn decimals_differ(a: nat, b: nat)
    requires
        a != b,
    ensures
        decimal(a) != decimal(b),
{
    decimal_reads_back(a);
    decimal_reads_back(b);
}

/// White space is the blank, the tabulator and line ends, and their kin beyond
/// ASCII: no letter, digit or sign.
pub proof fn white_space_is_blank(c: char)
    ensures
        blank_char(c) ==> {
            let n = c as u32;
            n == 9 || n == 10 || n == 11 || n == 12 || n == 13 || n == 32 || n == 133 || n == 160
                || n == 5760 || (8192 <= n && n <= 8202) || n == 8232 || n == 8233 || n == 8239 || n
                == 8287 || n == 12288
        },
        c == ' ' || c == '\n' || c == '\t' || c == '\r' ==> blank_char(c),
{
}

/// Whether no character of `s` is blank.
pub open spec fn solid(s: Seq<char>) -> bool {
    forall|i: int| 0 <= i < s.len() ==> !blank_char(#[trigger] s[i])
}

/// Whether every character of `s` is blank.
pub open spec fn hollow(s: Seq<char>) -> bool {
    forall|i: int| 0 <= i < s.len() ==> blank_char(#[trigger] s[i])
}

proof fn lemma_words_shape(s: Seq<char>)
    ensures
        s.len() > 0 && !blank_char(s.last()) ==> words(s).len() > 0,
        forall|i: int|
            0 <= i < words(s).len() ==> (#[trigger] words(s)[i]).len() > 0 && solid(words(s)[i]),
    decreases s.len(),
{
    if s.len() > 0 {
        let front = s.drop_last();
        lemma_words_shape(front);
        let rest = words(front);
        if !blank_char(s.last()) && s.len() > 1 && !blank_char(s[s.len() - 2]) {
            assert(front.last() == s[s.len() - 2]);
            let grown = rest.last().push(s.last());
            assert(solid(rest[rest.len() - 1]));
            assert(solid(grown)) by {
                assert forall|i: int| 0 <= i < grown.len() implies !blank_char(#[trigger] grown[i]) by {
                    if i < rest.last().len() {
                        assert(grown[i] == rest.last()[i]);
                    }
                }
            }
        }
        let all = words(s);
        assert forall|i: int| 0 <= i < all.len() implies (#[trigger] all[i]).len() > 0 && solid(
            all[i],
        ) by {
            if i < rest.len() - 1 {
                assert(all[i] == rest[i]);
            } else if i < rest.len() {
                assert(solid(rest[i]));
                if blank_char(s.last()) || s.len() == 1 || blank_char(s[s.len() - 2]) {
                    assert(all[i] == rest[i]);
                }
            } else {
                assert(all[i] =~= seq![s.last()]);
            }
        }
    }
}

/// No word is empty or has white space in it.
pub proof fn words_are_solid(s: Seq<char>)
    ensures
        forall|i: int|
            0 <= i < words(s).len() ==> (#[trigger] words(s)[i]).len() > 0 && solid(words(s)[i]),
{
    lemma_words_shape(s);
}

/// A text without white space is one word.
pub proof fn solid_text_is_one_word(s: Seq<char>)
    requires
        s.len() > 0,
        solid(s),
    ensures
        words(s) == seq![s],
    decreases s.len(),
{
    assert(!blank_char(s[s.len() - 1]));
    if s.len() > 1 {
        assert(!blank_char(s[s.len() - 2]));
        let front = s.drop_last();
        assert forall|i: int| 0 <= i < front.len() implies !blank_char(#[trigger] front[i]) by {
            assert(front[i] == s[i]);
        }
        solid_text_is_one_word(front);
        assert(front.push(s.last()) =~= s);
        assert(words(front).drop_last() =~= Seq::empty());
        assert(words(s) =~= seq![s]);
    } else {
        assert(s.drop_last() =~= Seq::empty());
        assert(words(s.drop_last()).len() == 0);
        assert(words(s) =~= seq![s]) by {
            assert(seq![s.last()] =~= s);
        }
    }
}

/// White space parts words: the words of two texts with a blank between them
/// are the words of the first, then those of the second.
pub proof fn blank_parts_words(a: Seq<char>, c: char, b: Seq<char>)
    requires
        blank_char(c),
    ensures
        words(a.push(c) + b) == words(a) + words(b),
    decreases b.len(),
{
    let s = a.push(c) + b;
    if b.len() == 0 {
        assert(s =~= a.push(c));
        assert(s.drop_last() =~= a);
        assert(words(a) + words(b) =~= words(a));
    } else {
        let front = b.drop_last();
        assert(s.drop_last() =~= a.push(c) + front);
        blank_parts_words(a, c, front);
        let x = words(a);
        let y = words(front);
        assert(s.last() == b.last());
        if blank_char(b.last()) {
        } else if b.len() == 1 {
            assert(s[s.len() - 2] == c);
            assert(y =~= Seq::empty());
            assert(words(s) =~= x + words(b));
        } else {
            assert(s[s.len() - 2] == b[b.len() - 2]);
            if blank_char(b[b.len() - 2]) {
                assert(words(s) =~= x + words(b));
            } else {
                lemma_words_shape(front);
                assert(front.last() == b[b.len() - 2]);
                assert((x + y).drop_last() =~= x + y.drop_last());
                assert((x + y).last() == y.last());
                assert(words(s) =~= x + words(b));
            }
        }
    }
}

proof fn lemma_trimmed_start(s: Seq<char>) -> (k: int)
    ensures
        0 <= k <= s.len(),
        hollow(s.take(k)),
        trimmed_start(s) == s.skip(k),
        k < s.len() ==> !blank_char(s[k]),
    decreases s.len(),
{
    if s.len() > 0 && blank_char(s[0]) {
        let k = lemma_trimmed_start(s.skip(1));
        assert(s.skip(1).skip(k) =~= s.skip(k + 1));
        assert forall|i: int| 0 <= i < k + 1 implies blank_char(#[trigger] s.take(k + 1)[i]) by {
            if i > 0 {
                assert(s.skip(1).take(k)[i - 1] == s[i]);
            }
        }
        k + 1
    } else {
        assert(s.skip(0) =~= s);
        0
    }
}

proof fn lemma_trimmed_end(s: Seq<char>) -> (k: int)
    ensures
        0 <= k <= s.len(),
        hollow(s.skip(k)),
        trimmed_end(s) == s.take(k),
        k > 0 ==> !blank_char(s[k - 1]),
    decreases s.len(),
{
    if s.len() > 0 && blank_char(s.last()) {
        let front = s.drop_last();
        let k = lemma_trimmed_end(front);
        assert(front.take(k) =~= s.take(k));
        assert forall|i: int| 0 <= i < s.len() - k implies blank_char(#[trigger] s.skip(k)[i]) by {
            if i < s.len() - k - 1 {
                assert(front.skip(k)[i] == s[k + i]);
            }
        }
        k
    } else {
        assert(s.take(s.len() as int) =~= s);
        s.len() as int
    }
}

/// Trimming takes white space off both ends, all of it and nothing else.
pub proof fn trimming_takes_white_space(s: Seq<char>)
    ensures
        exists|a: Seq<char>, b: Seq<char>|
            hollow(a) && hollow(b) && s == #[trigger] (a + trimmed(s) + b),
        trimmed(s).len() > 0 ==> !blank_char(trimmed(s)[0]) && !blank_char(trimmed(s).last()),
{
    let i = lemma_trimmed_start(s);
    let rest = s.skip(i);
    let j = lemma_trimmed_end(rest);
    let a = s.take(i);
    let b = rest.skip(j);
    assert(s =~= a + trimmed(s) + b);
    if trimmed(s).len() > 0 {
        assert(trimmed(s)[0] == s[i]);
    }
}

/// A line is what stands before a line end, a carriage return aside; the rest
/// of the text gives the lines below it.
pub proof fn lines_end_at_line_ends(line: Seq<char>, rest: Seq<char>)
    requires
        !line.contains('\n'),
    ensures
        text_lines(line.push('\n') + rest) == seq![
            if line.len() > 0 && line.last() == '\r' {
                line.drop_last()
            } else {
                line
            },
        ] + text_lines(rest),
        line.len() > 0 ==> text_lines(line) == seq![line],
        text_lines(Seq::empty()) == Seq::<Seq<char>>::empty(),
{
    let s = line.push('\n') + rest;
    assert forall|j: int| 0 <= j < line.len() implies s[j] != '\n' by {
        assert(line.contains(line[j]));
    }
    assert forall|j: int| 0 <= j < line.len() implies line[j] != '\n' by {
        assert(line.contains(line[j]));
    }
    lemma_first_place(s, '\n', line.len() as int);
    lemma_first_place(line, '\n', line.len() as int);
    assert(s.take(line.len() as int) =~= line);
    assert(s.skip(line.len() as int + 1) =~= rest);
    assert(without_cr(line) =~= if line.len() > 0 && line.last() == '\r' {
        line.drop_last()
    } else {
        line
    });
}

/// A separator ends a piece; the rest gives the pieces behind it.
pub proof fn pieces_end_at_separators(piece: Seq<char>, c: char, rest: Seq<char>)
    requires
        !piece.contains(c),
    ensures
        pieces(piece.push(c) + rest, c) == seq![piece] + pieces(rest, c),
        pieces(piece, c) == seq![piece],
{
    let s = piece.push(c) + rest;
    assert forall|j: int| 0 <= j < piece.len() implies s[j] != c by {
        assert(piece.contains(piece[j]));
    }
    assert forall|j: int| 0 <= j < piece.len() implies piece[j] != c by {
        assert(piece.contains(piece[j]));
    }
    lemma_first_place(s, c, piece.len() as int);
    lemma_first_place(piece, c, piece.len() as int);
    assert(s.take(piece.len() as int) =~= piece);
    assert(s.skip(piece.len() as int + 1) =~= rest);
}

/// A tabulator becomes four blanks, and every other character stays.
pub proof fn tabs_become_blanks(a: Seq<char>, c: char, b: Seq<char>)
    ensures
        untabbed(a.push(c) + b) == untabbed(a) + (if c == '\t' {
            seq![' ', ' ', ' ', ' ']
        } else {
            seq![c]
        }) + untabbed(b),
        untabbed(Seq::empty()).len() == 0,
    decreases b.len(),
{
    let s = a.push(c) + b;
    let mid = if c == '\t' {
        seq![' ', ' ', ' ', ' ']
    } else {
        seq![c]
    };
    if b.len() == 0 {
        assert(s =~= a.push(c));
        assert(s.drop_last() =~= a);
        assert(untabbed(s) =~= untabbed(a) + mid + untabbed(b));
    } else {
        tabs_become_blanks(a, c, b.drop_last());
        assert(s.drop_last() =~= a.push(c) + b.drop_last());
        assert(untabbed(s) =~= untabbed(a) + mid + untabbed(b));
    }
}

} // verus!
