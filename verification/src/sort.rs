//! Ordering of texts and stable sorting.
use vstd::prelude::*;

use crate::text::chars_of;

verus! {

/// Whether `a` comes before `b`, character by character from position `i` on.
pub open spec fn before_from(a: Seq<char>, b: Seq<char>, i: int) -> bool
    decreases b.len() - i,
{
    if i < 0 || i >= b.len() {
        false
    } else if i >= a.len() {
        true
    } else if a[i] as u32 == b[i] as u32 {
        before_from(a, b, i + 1)
    } else {
        (a[i] as u32) < (b[i] as u32)
    }
}

/// Whether `a` comes before `b` in the order of their characters.
pub open spec fn text_before(a: Seq<char>, b: Seq<char>) -> bool {
    before_from(a, b, 0)
}

/// Whether `a` comes before `b` in the order of their characters.
pub fn comes_before(a: &str, b: &str) -> (r: bool)
    ensures
        r == text_before(a@, b@),
{
    let x = chars_of(a);
    let y = chars_of(b);
    let mut i: usize = 0;
    while i < y.len()
        invariant
            x@ == a@,
            y@ == b@,
            i <= y@.len(),
            text_before(a@, b@) == before_from(a@, b@, i as int),
        decreases y@.len() - i,
    {
        if i >= x.len() {
            return true;
        }
        if x[i] as u32 != y[i] as u32 {
            return (x[i] as u32) < (y[i] as u32);
        }
        i += 1;
    }
    false
}

proof fn lemma_before_asymmetric(a: Seq<char>, b: Seq<char>, i: int)
    requires
        before_from(a, b, i),
    ensures
        !before_from(b, a, i),
    decreases b.len() - i,
{
    if 0 <= i < b.len() && i < a.len() && a[i] as u32 == b[i] as u32 {
        lemma_before_asymmetric(a, b, i + 1);
    }
}

proof fn lemma_before_transitive(a: Seq<char>, b: Seq<char>, c: Seq<char>, i: int)
    requires
        0 <= i,
        !before_from(b, a, i),
        !before_from(c, b, i),
    ensures
        !before_from(c, a, i),
    decreases a.len() - i,
{
    if i < a.len() && i < b.len() && i < c.len() {
        if a[i] as u32 == b[i] as u32 && b[i] as u32 == c[i] as u32 {
            lemma_before_transitive(a, b, c, i + 1);
        }
    }
}

/// The order of texts never runs both ways.
pub proof fn text_order_is_asymmetric(a: Seq<char>, b: Seq<char>)
    requires
        text_before(a, b),
    ensures
        !text_before(b, a),
{
    lemma_before_asymmetric(a, b, 0);
}

/// "Not after" carries over from text to text.
pub proof fn text_order_is_transitive(a: Seq<char>, b: Seq<char>, c: Seq<char>)
    requires
        !text_before(b, a),
        !text_before(c, b),
    ensures
        !text_before(c, a),
{
    lemma_before_transitive(a, b, c, 0);
}

/// `s` with `x` put behind every item that `x` does not precede, scanning
/// from the end.
pub open spec fn insert_ordered<T>(s: Seq<T>, x: T, precedes: spec_fn(T, T) -> bool) -> Seq<T>
    decreases s.len(),
{
    if s.len() == 0 || !precedes(x, s.last()) {
        s.push(x)
    } else {
        insert_ordered(s.drop_last(), x, precedes).push(s.last())
    }
}

/// The items of `s` in order; items that do not precede one another keep
/// their places relative to each other.
pub open spec fn stable_order<T>(s: Seq<T>, precedes: spec_fn(T, T) -> bool) -> Seq<T>
    decreases s.len(),
{
    if s.len() == 0 {
        s
    } else {
        insert_ordered(stable_order(s.drop_last(), precedes), s.last(), precedes)
    }
}

/// Inserting at `p` is inserting in order, where `x` precedes everything from
/// `p` on and not the item just before `p`.
pub proof fn lemma_insert_at<T>(s: Seq<T>, x: T, p: int, precedes: spec_fn(T, T) -> bool)
    requires
        0 <= p <= s.len(),
        forall|j: int| p <= j < s.len() ==> precedes(x, #[trigger] s[j]),
        p > 0 ==> !precedes(x, s[p - 1]),
    ensures
        insert_ordered(s, x, precedes) == s.insert(p, x),
    decreases s.len(),
{
    if p == s.len() {
        assert(s.insert(p, x) =~= s.push(x));
    } else {
        lemma_insert_at(s.drop_last(), x, p, precedes);
        assert(s.drop_last().insert(p, x).push(s.last()) =~= s.insert(p, x));
    }
}

/// A strict order in which "not preceded by" carries over.
pub open spec fn strict_order<T>(precedes: spec_fn(T, T) -> bool) -> bool {
    &&& forall|a: T, b: T| #[trigger] precedes(a, b) ==> !precedes(b, a)
    &&& forall|a: T, b: T, c: T|
        !#[trigger] precedes(b, a) && !#[trigger] precedes(c, b) ==> !precedes(c, a)
}

/// No item is preceded by a later one.
pub open spec fn in_order<T>(s: Seq<T>, precedes: spec_fn(T, T) -> bool) -> bool {
    forall|i: int, j: int| 0 <= i < j < s.len() ==> !precedes(s[j], s[i])
}

proof fn lemma_insert_ordered<T>(s: Seq<T>, x: T, precedes: spec_fn(T, T) -> bool)
    requires
        strict_order(precedes),
        in_order(s, precedes),
    ensures
        in_order(insert_ordered(s, x, precedes), precedes),
        insert_ordered(s, x, precedes).to_multiset() == s.to_multiset().insert(x),
        insert_ordered(s, x, precedes).len() == s.len() + 1,
    decreases s.len(),
{
    broadcast use vstd::seq_lib::group_to_multiset_ensures;

    if s.len() == 0 || !precedes(x, s.last()) {
        let r = s.push(x);
        assert forall|i: int, j: int| 0 <= i < j < r.len() implies !precedes(r[j], r[i]) by {
            if j == s.len() && i < s.len() - 1 {
                assert(!precedes(s.last(), s[i]));
            }
        }
    } else {
        let t = s.drop_last();
        lemma_insert_ordered(t, x, precedes);
        let m = insert_ordered(t, x, precedes);
        let r = m.push(s.last());
        assert forall|i: int, j: int| 0 <= i < j < r.len() implies !precedes(r[j], r[i]) by {
            if j == m.len() {
                assert(m.to_multiset().contains(m[i]));
                if m[i] != x {
                    assert(t.to_multiset().contains(m[i]));
                    let k = choose|k: int| 0 <= k < t.len() && t[k] == m[i];
                    assert(t[k] == s[k]);
                    assert(!precedes(s.last(), s[k]));
                } else {
                    assert(precedes(x, s.last()));
                }
            }
        }
        assert(s =~= t.push(s.last()));
        assert(r.to_multiset() =~= s.to_multiset().insert(x));
    }
}

/// Sorting keeps every item, as often as it occurs, and leaves none that is
/// preceded by a later one.
pub proof fn stable_order_sorts<T>(s: Seq<T>, precedes: spec_fn(T, T) -> bool)
    requires
        strict_order(precedes),
    ensures
        in_order(stable_order(s, precedes), precedes),
        stable_order(s, precedes).to_multiset() == s.to_multiset(),
        stable_order(s, precedes).len() == s.len(),
    decreases s.len(),
{
    broadcast use vstd::seq_lib::group_to_multiset_ensures;

    if s.len() > 0 {
        stable_order_sorts(s.drop_last(), precedes);
        lemma_insert_ordered(stable_order(s.drop_last(), precedes), s.last(), precedes);
        assert(s =~= s.drop_last().push(s.last()));
    }
}

/// What is already in order stays as it is: sorting moves only items that are
/// preceded by a later one.
pub proof fn stable_order_keeps_order<T>(s: Seq<T>, precedes: spec_fn(T, T) -> bool)
    requires
        in_order(s, precedes),
    ensures
        stable_order(s, precedes) == s,
    decreases s.len(),
{
    if s.len() > 0 {
        let t = s.drop_last();
        assert forall|i: int, j: int| 0 <= i < j < t.len() implies !precedes(t[j], t[i]) by {
            assert(!precedes(s[j], s[i]));
        }
        stable_order_keeps_order(t, precedes);
        if t.len() > 0 {
            assert(!precedes(s[s.len() - 1], s[s.len() - 2]));
        }
        assert(t.push(s.last()) =~= s);
    }
}

/// The length of a sorted list.
pub proof fn lemma_insert_ordered_len<T>(s: Seq<T>, x: T, precedes: spec_fn(T, T) -> bool)
    ensures
        insert_ordered(s, x, precedes).len() == s.len() + 1,
    decreases s.len(),
{
    if s.len() > 0 && precedes(x, s.last()) {
        lemma_insert_ordered_len(s.drop_last(), x, precedes);
    }
}

/// Sorting keeps the number of items.
pub proof fn stable_order_len<T>(s: Seq<T>, precedes: spec_fn(T, T) -> bool)
    ensures
        stable_order(s, precedes).len() == s.len(),
    decreases s.len(),
{
    if s.len() > 0 {
        stable_order_len(s.drop_last(), precedes);
        lemma_insert_ordered_len(stable_order(s.drop_last(), precedes), s.last(), precedes);
    }
}

/// Whether `a` stands before `b` in a dictionary: up to some place they agree,
/// and there `a` ends or has the lesser character.
pub open spec fn lexically_less(a: Seq<char>, b: Seq<char>) -> bool {
    exists|k: int| #[trigger] parts_at(a, b, k)
}

/// Whether `a` and `b` agree before place `k`, and `a` is the lesser there.
pub open spec fn parts_at(a: Seq<char>, b: Seq<char>, k: int) -> bool {
    &&& 0 <= k < b.len()
    &&& k <= a.len()
    &&& forall|i: int| 0 <= i < k ==> #[trigger] a[i] as u32 == b[i] as u32
    &&& k < a.len() ==> (a[k] as u32) < (b[k] as u32)
}

proof fn lemma_before_parts(a: Seq<char>, b: Seq<char>, i: int)
    requires
        0 <= i,
        before_from(a, b, i),
        i <= a.len(),
        forall|j: int| 0 <= j < i ==> #[trigger] a[j] as u32 == b[j] as u32,
    ensures
        lexically_less(a, b),
    decreases b.len() - i,
{
    if i < b.len() && i < a.len() && a[i] as u32 == b[i] as u32 {
        lemma_before_parts(a, b, i + 1);
    } else {
        assert(parts_at(a, b, i));
    }
}

proof fn lemma_parts_before(a: Seq<char>, b: Seq<char>, i: int, k: int)
    requires
        0 <= i <= k,
        parts_at(a, b, k),
    ensures
        before_from(a, b, i),
    decreases k - i,
{
    if i < k {
        lemma_parts_before(a, b, i + 1, k);
    }
}

/// Texts are ordered as in a dictionary.
pub proof fn text_order_is_lexical(a: Seq<char>, b: Seq<char>)
    ensures
        text_before(a, b) <==> lexically_less(a, b),
{
    if text_before(a, b) {
        lemma_before_parts(a, b, 0);
    }
    if lexically_less(a, b) {
        let k = choose|k: int| #[trigger] parts_at(a, b, k);
        lemma_parts_before(a, b, 0, k);
    }
}

proof fn lemma_insert_keeps_ties<T>(
    s: Seq<T>,
    x: T,
    precedes: spec_fn(T, T) -> bool,
    tied: spec_fn(T) -> bool,
)
    requires
        forall|a: T, b: T| tied(a) && tied(b) ==> !#[trigger] precedes(a, b),
    ensures
        insert_ordered(s, x, precedes).filter(tied) == if tied(x) {
            s.filter(tied).push(x)
        } else {
            s.filter(tied)
        },
    decreases s.len(),
{
    reveal(Seq::filter);
    if s.len() == 0 || !precedes(x, s.last()) {
        assert(s.push(x).drop_last() =~= s);
    } else {
        let t = s.drop_last();
        lemma_insert_keeps_ties(t, x, precedes, tied);
        let m = insert_ordered(t, x, precedes);
        assert(m.push(s.last()).drop_last() =~= m);
    }
}

/// Items of which none precedes another keep the order they came in.
pub proof fn stable_order_keeps_ties<T>(
    s: Seq<T>,
    precedes: spec_fn(T, T) -> bool,
    tied: spec_fn(T) -> bool,
)
    requires
        forall|a: T, b: T| tied(a) && tied(b) ==> !#[trigger] precedes(a, b),
    ensures
        stable_order(s, precedes).filter(tied) == s.filter(tied),
    decreases s.len(),
{
    if s.len() > 0 {
        stable_order_keeps_ties(s.drop_last(), precedes, tied);
        lemma_insert_keeps_ties(stable_order(s.drop_last(), precedes), s.last(), precedes, tied);
        reveal(Seq::filter);
    }
}

} // verus!
