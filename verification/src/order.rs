//! The order of strings by their characters, and sorting by a rank.

use vstd::prelude::*;
use vstd::seq_lib::{to_multiset_insert, to_multiset_remove};
use crate::text::chars_of;

verus! {

/// `a` and `b` compared from position `i` on: `a` is not greater than `b`
/// where it ends first or has the smaller character at the first position
/// where the two differ.
pub open spec fn lex_le_from(a: Seq<char>, b: Seq<char>, i: int) -> bool
    decreases a.len() - i,
{
    if i < 0 || i >= a.len() {
        true
    } else if i >= b.len() {
        false
    } else if a[i] != b[i] {
        (a[i] as u32) < (b[i] as u32)
    } else {
        lex_le_from(a, b, i + 1)
    }
}

/// `a` is not greater than `b` in the order of strings.
pub open spec fn lex_le(a: Seq<char>, b: Seq<char>) -> bool {
    lex_le_from(a, b, 0)
}

/// `a` is less than `b` in the order of strings.
pub open spec fn lex_lt(a: Seq<char>, b: Seq<char>) -> bool {
    lex_le(a, b) && a != b
}

proof fn lemma_lex_total_from(a: Seq<char>, b: Seq<char>, i: int)
    requires
        0 <= i,
    ensures
        lex_le_from(a, b, i) || lex_le_from(b, a, i),
    decreases a.len() - i,
{
    if i < a.len() && i < b.len() {
        if a[i] == b[i] {
            lemma_lex_total_from(a, b, i + 1);
        } else {
            vstd::utf8::char_u32_cast(a[i], a[i] as u32);
            vstd::utf8::char_u32_cast(b[i], b[i] as u32);
        }
    }
}

proof fn lemma_lex_transitive_from(a: Seq<char>, b: Seq<char>, c: Seq<char>, i: int)
    requires
        0 <= i,
        lex_le_from(a, b, i),
        lex_le_from(b, c, i),
    ensures
        lex_le_from(a, c, i),
    decreases a.len() - i,
{
    if i < a.len() && a[i] == b[i] && b[i] == c[i] {
        lemma_lex_transitive_from(a, b, c, i + 1);
    }
}

proof fn lemma_lex_antisymmetric_from(a: Seq<char>, b: Seq<char>, i: int)
    requires
        0 <= i <= a.len(),
        i <= b.len(),
        lex_le_from(a, b, i),
        lex_le_from(b, a, i),
    ensures
        a.len() == b.len(),
        forall|k: int| i <= k < a.len() ==> a[k] == b[k],
    decreases a.len() - i,
{
    if i < a.len() {
        lemma_lex_antisymmetric_from(a, b, i + 1);
    }
}

/// Of two strings, one is not greater than the other.
pub proof fn lemma_lex_total(a: Seq<char>, b: Seq<char>)
    ensures
        lex_le(a, b) || lex_le(b, a),
{
    lemma_lex_total_from(a, b, 0);
}

/// The order of strings is transitive.
pub proof fn lemma_lex_transitive(a: Seq<char>, b: Seq<char>, c: Seq<char>)
    requires
        lex_le(a, b),
        lex_le(b, c),
    ensures
        lex_le(a, c),
{
    lemma_lex_transitive_from(a, b, c, 0);
}

/// Two strings of which neither is greater than the other are equal.
pub proof fn lemma_lex_antisymmetric(a: Seq<char>, b: Seq<char>)
    requires
        lex_le(a, b),
        lex_le(b, a),
    ensures
        a == b,
{
    lemma_lex_antisymmetric_from(a, b, 0);
    assert(a =~= b);
}

/// Tells whether `a` is not greater than `b` in the order of strings.
pub fn str_le(a: &str, b: &str) -> (r: bool)
    ensures
        r == lex_le(a@, b@),
{
    let x = chars_of(a);
    let y = chars_of(b);
    let mut i: usize = 0;
    while i < x.len()
        invariant
            i <= x.len(),
            x@ == a@,
            y@ == b@,
            lex_le(a@, b@) == lex_le_from(a@, b@, i as int),
        decreases x.len() - i,
    {
        if i >= y.len() {
            return false;
        }
        if x[i] != y[i] {
            return (x[i] as u32) < (y[i] as u32);
        }
        i += 1;
    }
    true
}

/// A type whose values are ranked: `precedes` is a total, transitive
/// relation that says which of two values may stand first.
pub trait Ranked: Sized {
    /// `self` may stand before `other`.
    spec fn precedes(&self, other: &Self) -> bool;

    /// Tells whether `self` may stand before `other`.
    fn stands_before(&self, other: &Self) -> (r: bool)
        ensures
            r == self.precedes(other),
    ;

    /// Of two values, one may stand before the other.
    proof fn lemma_total(a: &Self, b: &Self)
        ensures
            a.precedes(b) || b.precedes(a),
    ;

    /// If `a` may stand before `b` and `b` before `c`, then `a` may stand
    /// before `c`.
    proof fn lemma_transitive(a: &Self, b: &Self, c: &Self)
        requires
            a.precedes(b),
            b.precedes(c),
        ensures
            a.precedes(c),
    ;
}

/// Every item may stand before every later one.
pub open spec fn is_ranked<T: Ranked>(s: Seq<T>) -> bool {
    forall|i: int, j: int| #![trigger s[i], s[j]] 0 <= i < j < s.len() ==> s[i].precedes(&s[j])
}

/// The number of items at the start of `s` that may stand before `x`.
pub open spec fn place_of<T: Ranked>(s: Seq<T>, x: T) -> int
    decreases s.len(),
{
    if s.len() > 0 && s[0].precedes(&x) {
        1 + place_of(s.drop_first(), x)
    } else {
        0
    }
}

/// `s` with `x` put behind the items at its start that may stand before
/// `x`: in a ranked `s`, behind every item of equal rank.
pub open spec fn ranked_insert<T: Ranked>(s: Seq<T>, x: T) -> Seq<T> {
    s.insert(place_of(s, x), x)
}

/// The items of `s` by rank, items of equal rank in the order in which
/// they stand in `s`.
pub open spec fn ranked_order<T: Ranked>(s: Seq<T>) -> Seq<T>
    decreases s.len(),
{
    if s.len() == 0 {
        Seq::empty()
    } else {
        ranked_insert(ranked_order(s.drop_last()), s.last())
    }
}

/// Puts `item` into the ranked `out`, behind every item that may stand
/// before it.
pub fn insert_ranked<T: Ranked>(out: &mut Vec<T>, item: T)
    requires
        is_ranked(old(out)@),
    ensures
        final(out)@ == ranked_insert(old(out)@, item),
        is_ranked(final(out)@),
        final(out)@.to_multiset() == old(out)@.to_multiset().insert(item),
        final(out)@.len() == old(out)@.len() + 1,
{
    let mut p: usize = 0;
    proof {
        assert(out@.subrange(0, out@.len() as int) =~= out@);
    }
    while p < out.len() && out[p].stands_before(&item)
        invariant
            p <= out@.len(),
            out@ == old(out)@,
            forall|j: int| 0 <= j < p ==> (#[trigger] out@[j]).precedes(&item),
            place_of(out@, item) == p + place_of(out@.subrange(p as int, out@.len() as int), item),
        decreases out.len() - p,
    {
        proof {
            assert(out@.subrange(p as int, out@.len() as int).drop_first() =~= out@.subrange(
                p + 1,
                out@.len() as int,
            ));
        }
        p += 1;
    }
    proof {
        let s = out@;
        let t = s.insert(p as int, item);
        if p < s.len() {
            T::lemma_total(&s[p as int], &item);
        }
        assert forall|i: int, j: int| #![trigger t[i], t[j]] 0 <= i < j < t.len() implies t[i].precedes(
            &t[j],
        ) by {
            if j < p {
                assert(t[i] == s[i] && t[j] == s[j]);
            } else if j == p {
                assert(t[i] == s[i]);
            } else if i < p {
                assert(t[i] == s[i] && t[j] == s[j - 1]);
            } else if i == p {
                assert(t[j] == s[j - 1]);
                if j - 1 > p {
                    assert(s[p as int].precedes(&s[j - 1]));
                    T::lemma_transitive(&item, &s[p as int], &s[j - 1]);
                }
            } else {
                assert(t[i] == s[i - 1] && t[j] == s[j - 1]);
            }
        }
        to_multiset_insert(s, p as int, item);
    }
    out.insert(p, item);
}

/// Sorts `items` by rank, keeping items of equal rank in their order: the
/// result holds the same items, each as often as before, and every item may
/// stand before every later one.
pub fn sort_ranked<T: Ranked>(items: Vec<T>) -> (out: Vec<T>)
    ensures
        out@ == ranked_order(items@),
        is_ranked(out@),
        out@.to_multiset() == items@.to_multiset(),
        out@.len() == items@.len(),
{
    broadcast use vstd::multiset::group_multiset_axioms;
    broadcast use vstd::seq_lib::group_to_multiset_ensures;

    let ghost all = items@;
    let mut rest = items;
    let mut out: Vec<T> = Vec::new();
    let ghost mut done: int = 0;
    proof {
        assert(out@.to_multiset() =~= vstd::multiset::Multiset::<T>::empty());
        assert(out@.to_multiset().add(rest@.to_multiset()) =~= all.to_multiset());
        assert(all.take(0) =~= Seq::<T>::empty());
        assert(all.skip(0) =~= all);
    }
    while rest.len() > 0
        invariant
            is_ranked(out@),
            0 <= done <= all.len(),
            out@ == ranked_order(all.take(done)),
            rest@ == all.skip(done),
            out@.to_multiset().add(rest@.to_multiset()) == all.to_multiset(),
            out@.len() + rest@.len() == all.len(),
        decreases rest.len(),
    {
        let ghost before = rest@;
        let item = rest.remove(0);
        proof {
            to_multiset_remove(before, 0);
            assert(before[0] == item);
            assert(before.contains(item));
            vstd::seq_lib::to_multiset_contains(before, item);
            assert(before.to_multiset().count(item) > 0);
            assert(before.to_multiset() =~= rest@.to_multiset().insert(item));
        }
        let ghost sorted_before = out@;
        insert_ranked(&mut out, item);
        proof {
            assert(out@.to_multiset().add(rest@.to_multiset()) =~= sorted_before.to_multiset().add(
                before.to_multiset(),
            ));
            assert(all.take(done + 1).drop_last() =~= all.take(done));
            assert(all.take(done + 1).last() == item);
            assert(rest@ =~= all.skip(done + 1));
            done = done + 1;
        }
    }
    proof {
        assert(rest@.to_multiset() =~= vstd::multiset::Multiset::<T>::empty()) by {
            rest@.to_multiset_ensures();
        }
        assert(out@.to_multiset() =~= all.to_multiset());
        assert(all.take(done) =~= all);
    }
    out
}

} // verus!
