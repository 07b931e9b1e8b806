//! The order of strings (lexicographic by character, as `String`'s `Ord` orders them: a
//! proper prefix comes first), and sorting a list of names by it.
use vstd::prelude::*;
use vstd::relations::{sorted_by, total_ordering};

use crate::config::texts;

verus! {

/// Whether `a` comes strictly before `b`: at the first character where they differ, `a`'s
/// is the smaller; or `a` is a proper prefix of `b`.
pub open spec fn text_lt(a: Seq<char>, b: Seq<char>) -> bool
    decreases a.len(),
{
    if a.len() == 0 {
        b.len() > 0
    } else if b.len() == 0 {
        false
    } else if a[0] != b[0] {
        (a[0] as int) < (b[0] as int)
    } else {
        text_lt(a.drop_first(), b.drop_first())
    }
}

/// Whether `a` comes before `b` or equals it.
pub open spec fn text_le(a: Seq<char>, b: Seq<char>) -> bool {
    a == b || text_lt(a, b)
}

/// The order of strings, as a relation.
pub open spec fn text_order() -> spec_fn(Seq<char>, Seq<char>) -> bool {
    |a: Seq<char>, b: Seq<char>| text_le(a, b)
}

/// No string comes strictly before itself.
pub proof fn lemma_lt_irreflexive(a: Seq<char>)
    ensures
        !text_lt(a, a),
    decreases a.len(),
{
    if a.len() > 0 {
        lemma_lt_irreflexive(a.drop_first());
    }
}

/// Of two strings, at most one comes strictly before the other.
pub proof fn lemma_lt_asymmetric(a: Seq<char>, b: Seq<char>)
    ensures
        !(text_lt(a, b) && text_lt(b, a)),
    decreases a.len(),
{
    if a.len() > 0 && b.len() > 0 && a[0] == b[0] {
        lemma_lt_asymmetric(a.drop_first(), b.drop_first());
    }
}

/// Coming strictly before is transitive.
pub proof fn lemma_lt_transitive(a: Seq<char>, b: Seq<char>, c: Seq<char>)
    requires
        text_lt(a, b),
        text_lt(b, c),
    ensures
        text_lt(a, c),
    decreases a.len(),
{
    if a.len() > 0 && a[0] == b[0] && b[0] == c[0] {
        lemma_lt_transitive(a.drop_first(), b.drop_first(), c.drop_first());
    }
}

/// Of two different strings, one comes strictly before the other.
pub proof fn lemma_lt_total(a: Seq<char>, b: Seq<char>)
    requires
        a != b,
    ensures
        text_lt(a, b) || text_lt(b, a),
    decreases a.len(),
{
    if a.len() > 0 && b.len() > 0 && a[0] == b[0] {
        if a.drop_first() == b.drop_first() {
            assert(a =~= seq![a[0]] + a.drop_first());
            assert(b =~= seq![b[0]] + b.drop_first());
        }
        lemma_lt_total(a.drop_first(), b.drop_first());
    } else if a.len() == 0 && b.len() == 0 {
        assert(a =~= b);
    }
}

/// The order of strings is a total order.
pub proof fn lemma_text_order_total()
    ensures
        total_ordering(text_order()),
{
    let r = text_order();
    assert forall|x: Seq<char>, y: Seq<char>| #[trigger] r(x, y) && #[trigger] r(y, x) implies x
        == y by {
        lemma_lt_asymmetric(x, y);
    }
    assert forall|x: Seq<char>, y: Seq<char>, z: Seq<char>| #[trigger]
        r(x, y) && #[trigger] r(y, z) implies r(x, z) by {
        if x != y && y != z {
            lemma_lt_transitive(x, y, z);
        }
    }
    assert forall|x: Seq<char>, y: Seq<char>| #[trigger] r(x, y) || #[trigger] r(y, x) by {
        if x != y {
            lemma_lt_total(x, y);
        }
    }
}

/// Strings that agree on their first `i` characters compare as their rests do.
proof fn lemma_lt_skip(a: Seq<char>, b: Seq<char>, i: int)
    requires
        0 <= i <= a.len(),
        i <= b.len(),
        a.subrange(0, i) == b.subrange(0, i),
    ensures
        text_lt(a, b) == text_lt(a.skip(i), b.skip(i)),
    decreases i,
{
    if i == 0 {
        assert(a.skip(0) =~= a);
        assert(b.skip(0) =~= b);
    } else {
        assert(a[0] == a.subrange(0, i)[0]);
        assert(b[0] == b.subrange(0, i)[0]);
        assert(a.drop_first().subrange(0, i - 1) =~= a.subrange(0, i).drop_first());
        assert(b.drop_first().subrange(0, i - 1) =~= b.subrange(0, i).drop_first());
        lemma_lt_skip(a.drop_first(), b.drop_first(), i - 1);
        assert(a.drop_first().skip(i - 1) =~= a.skip(i));
        assert(b.drop_first().skip(i - 1) =~= b.skip(i));
    }
}

/// Whether `a` comes strictly before `b` (see [`text_lt`]).
pub fn text_less(a: &str, b: &str) -> (r: bool)
    ensures
        r == text_lt(a@, b@),
{
    let la = a.unicode_len();
    let lb = b.unicode_len();
    let mut i: usize = 0;
    loop
        invariant
            la == a@.len(),
            lb == b@.len(),
            i <= la,
            i <= lb,
            a@.subrange(0, i as int) == b@.subrange(0, i as int),
        decreases la - i,
    {
        proof {
            lemma_lt_skip(a@, b@, i as int);
        }
        if i == la {
            return i < lb;
        }
        if i == lb {
            return false;
        }
        let ca = a.get_char(i);
        let cb = b.get_char(i);
        if ca != cb {
            return (ca as u32) < (cb as u32);
        }
        proof {
            assert(a@.subrange(0, i + 1) =~= a@.subrange(0, i as int).push(ca));
            assert(b@.subrange(0, i + 1) =~= b@.subrange(0, i as int).push(cb));
        }
        i = i + 1;
    }
}

/// Whether a list is in order.
pub open spec fn ordered(s: Seq<Seq<char>>) -> bool {
    forall|i: int, j: int| 0 <= i < j < s.len() ==> text_le(#[trigger] s[i], #[trigger] s[j])
}

/// The first position in the ordered `r` whose name does not come before `x`.
fn insert_position(r: &Vec<String>, x: &str) -> (j: usize)
    ensures
        j <= r@.len(),
        forall|k: int| 0 <= k < j ==> text_lt(#[trigger] r@[k]@, x@),
        j < r@.len() ==> !text_lt(r@[j as int]@, x@),
{
    let mut j: usize = 0;
    while j < r.len()
        invariant
            j <= r@.len(),
            forall|k: int| 0 <= k < j ==> text_lt(#[trigger] r@[k]@, x@),
        decreases r@.len() - j,
    {
        if !text_less(r[j].as_str(), x) {
            return j;
        }
        j = j + 1;
    }
    j
}

/// Inserting `x` at its position keeps an ordered list ordered.
proof fn lemma_insert_ordered(s: Seq<Seq<char>>, j: int, x: Seq<char>)
    requires
        ordered(s),
        0 <= j <= s.len(),
        forall|k: int| 0 <= k < j ==> text_lt(#[trigger] s[k], x),
        j < s.len() ==> !text_lt(s[j], x),
    ensures
        ordered(s.insert(j, x)),
{
    lemma_text_order_total();
    let t = s.insert(j, x);
    assert forall|p: int, q: int| 0 <= p < q < t.len() implies text_le(#[trigger] t[p], #[trigger] t[q]) by {
        if q < j {
            assert(t[p] == s[p] && t[q] == s[q]);
        } else if q == j {
            assert(t[p] == s[p]);
        } else if p < j {
            assert(t[p] == s[p] && t[q] == s[q - 1]);
            if p < q - 1 {
            }
        } else if p == j {
            assert(t[q] == s[q - 1]);
            if x != s[j] {
                lemma_lt_total(x, s[j]);
            }
            if j < q - 1 {
                assert(text_le(s[j], s[q - 1]));
                if x != s[j] && s[j] != s[q - 1] {
                    lemma_lt_transitive(x, s[j], s[q - 1]);
                }
            }
        } else {
            assert(t[p] == s[p - 1] && t[q] == s[q - 1]);
        }
    }
}

/// The names of `v`, sorted by the order of strings.
pub fn sort_texts(v: &Vec<String>) -> (r: Vec<String>)
    ensures
        texts(r@) == texts(v@).sort_by(text_order()),
{
    let mut r: Vec<String> = Vec::new();
    let mut i: usize = 0;
    proof {
        assert(texts(r@) =~= texts(v@.subrange(0, 0)));
    }
    while i < v.len()
        invariant
            i <= v@.len(),
            ordered(texts(r@)),
            texts(r@).to_multiset() == texts(v@.subrange(0, i as int)).to_multiset(),
        decreases v@.len() - i,
    {
        let x = v[i].clone();
        let j = insert_position(&r, x.as_str());
        let ghost before = texts(r@);
        proof {
            lemma_insert_ordered(before, j as int, x@);
            vstd::seq_lib::to_multiset_insert(before, j as int, x@);
            vstd::seq_lib::to_multiset_build(texts(v@.subrange(0, i as int)), x@);
        }
        r.insert(j, x);
        proof {
            assert(texts(r@) =~= before.insert(j as int, x@));
            assert(texts(v@.subrange(0, i + 1)) =~= texts(v@.subrange(0, i as int)).push(x@));
        }
        i = i + 1;
    }
    proof {
        assert(v@.subrange(0, v@.len() as int) =~= v@);
        lemma_text_order_total();
        texts(v@).lemma_sort_by_ensures(text_order());
        assert(sorted_by(texts(r@), text_order())) by {
            assert forall|a: int, b: int| 0 <= a < b < texts(r@).len() implies #[trigger] (text_order())(
                texts(r@)[a],
                texts(r@)[b],
            ) by {
                assert(text_le(texts(r@)[a], texts(r@)[b]));
            }
        }
        vstd::seq_lib::lemma_sorted_unique(
            texts(r@),
            texts(v@).sort_by(text_order()),
            text_order(),
        );
    }
    r
}

/// An ordered list has no repeated name exactly when no name is followed by itself.
pub proof fn lemma_ordered_duplicates(s: Seq<Seq<char>>)
    requires
        ordered(s),
    ensures
        s.no_duplicates() <==> forall|k: int| 0 <= k < s.len() - 1 ==> s[k] != #[trigger] s[k + 1],
{
    if forall|k: int| 0 <= k < s.len() - 1 ==> s[k] != #[trigger] s[k + 1] {
        assert forall|a: int, b: int| 0 <= a < s.len() && 0 <= b < s.len() && a != b implies s[a]
            != s[b] by {
            let (p, q) = if a < b {
                (a, b)
            } else {
                (b, a)
            };
            if s[p] == s[q] {
                assert(text_le(s[p], s[p + 1]));
                assert(s[p] != s[p + 1]);
                if p + 1 < q {
                    assert(text_le(s[p + 1], s[q]));
                    if s[p + 1] != s[q] {
                        lemma_lt_transitive(s[p], s[p + 1], s[q]);
                    }
                    lemma_lt_irreflexive(s[p]);
                }
            }
        }
    }
}

/// Two lists with the same names, counted with repetition, repeat a name alike.
pub proof fn lemma_same_names_duplicates(a: Seq<Seq<char>>, b: Seq<Seq<char>>)
    requires
        a.to_multiset() == b.to_multiset(),
    ensures
        a.no_duplicates() <==> b.no_duplicates(),
{
    if a.no_duplicates() {
        a.lemma_multiset_has_no_duplicates();
        b.lemma_multiset_has_no_duplicates_conv();
    }
    if b.no_duplicates() {
        b.lemma_multiset_has_no_duplicates();
        a.lemma_multiset_has_no_duplicates_conv();
    }
}

} // verus!
