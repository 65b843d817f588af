//! Orders on sequences: the lexicographic order that compares paths, and the
//! stable sort that arranges a directory listing.

use vstd::prelude::*;

verus! {

/// `lt` is irreflexive, transitive and decides between any two different values.
pub open spec fn strict_total<T>(lt: spec_fn(T, T) -> bool) -> bool {
    &&& forall|a: T| !#[trigger] lt(a, a)
    &&& forall|a: T, b: T, c: T| #[trigger] lt(a, b) && #[trigger] lt(b, c) ==> lt(a, c)
    &&& forall|a: T, b: T| a != b ==> #[trigger] lt(a, b) || lt(b, a)
}

/// `before` never holds both ways, and "not before" is transitive: values
/// fall into classes of equals, and the classes are in a line.
pub open spec fn strict_weak<T>(before: spec_fn(T, T) -> bool) -> bool {
    &&& forall|a: T, b: T| #[trigger] before(a, b) ==> !before(b, a)
    &&& forall|a: T, b: T, c: T|
        !#[trigger] before(a, b) && !#[trigger] before(b, c) ==> !before(a, c)
}

/// Neither value goes before the other.
pub open spec fn tied<T>(a: T, b: T, before: spec_fn(T, T) -> bool) -> bool {
    !before(a, b) && !before(b, a)
}

/// Strict lexicographic order: at the first position where the sequences
/// differ `a` holds the smaller item, or `a` ends there and `b` goes on.
pub open spec fn lex_before<T>(a: Seq<T>, b: Seq<T>, lt: spec_fn(T, T) -> bool) -> bool
    decreases a.len(),
{
    if b.len() == 0 {
        false
    } else if a.len() == 0 {
        true
    } else if lt(a[0], b[0]) {
        true
    } else if lt(b[0], a[0]) {
        false
    } else {
        lex_before(a.drop_first(), b.drop_first(), lt)
    }
}

/// No sequence goes before itself.
pub proof fn lemma_lex_irreflexive<T>(a: Seq<T>, lt: spec_fn(T, T) -> bool)
    requires
        strict_total(lt),
    ensures
        !lex_before(a, a, lt),
    decreases a.len(),
{
    if a.len() > 0 {
        lemma_lex_irreflexive(a.drop_first(), lt);
    }
}

/// The lexicographic order is transitive.
pub proof fn lemma_lex_transitive<T>(a: Seq<T>, b: Seq<T>, c: Seq<T>, lt: spec_fn(T, T) -> bool)
    requires
        strict_total(lt),
        lex_before(a, b, lt),
        lex_before(b, c, lt),
    ensures
        lex_before(a, c, lt),
    decreases a.len(),
{
    if a.len() > 0 {
        if !lt(a[0], b[0]) && !lt(b[0], c[0]) {
            assert(a[0] == b[0]);
            assert(b[0] == c[0]);
            lemma_lex_transitive(a.drop_first(), b.drop_first(), c.drop_first(), lt);
        } else if !lt(a[0], b[0]) {
            assert(a[0] == b[0]);
        } else if !lt(b[0], c[0]) {
            assert(b[0] == c[0]);
        }
    }
}

/// Of two different sequences one goes before the other.
pub proof fn lemma_lex_total<T>(a: Seq<T>, b: Seq<T>, lt: spec_fn(T, T) -> bool)
    requires
        strict_total(lt),
        a != b,
    ensures
        lex_before(a, b, lt) || lex_before(b, a, lt),
    decreases a.len(),
{
    if a.len() == 0 {
        if b.len() == 0 {
            assert(a =~= b);
        }
    } else if b.len() > 0 {
        if !lt(a[0], b[0]) && !lt(b[0], a[0]) {
            assert(a[0] == b[0]);
            if a.drop_first() == b.drop_first() {
                assert(a =~= seq![a[0]] + a.drop_first());
                assert(b =~= seq![b[0]] + b.drop_first());
            }
            lemma_lex_total(a.drop_first(), b.drop_first(), lt);
        }
    }
}

/// Where the items are in a strict total order, so are the sequences.
pub proof fn lemma_lex_strict_total<T>(lt: spec_fn(T, T) -> bool)
    requires
        strict_total(lt),
    ensures
        strict_total(|a: Seq<T>, b: Seq<T>| lex_before(a, b, lt)),
{
    let lex = |a: Seq<T>, b: Seq<T>| lex_before(a, b, lt);
    assert forall|a: Seq<T>| !#[trigger] lex(a, a) by {
        lemma_lex_irreflexive(a, lt);
    }
    assert forall|a: Seq<T>, b: Seq<T>, c: Seq<T>| #[trigger] lex(a, b) && #[trigger] lex(b, c)
        implies lex(a, c) by {
        lemma_lex_transitive(a, b, c, lt);
    }
    assert forall|a: Seq<T>, b: Seq<T>| a != b implies #[trigger] lex(a, b) || lex(b, a) by {
        lemma_lex_total(a, b, lt);
    }
}

/// A strict total order is a strict weak order whose classes hold one value each.
pub proof fn lemma_total_is_weak<T>(lt: spec_fn(T, T) -> bool)
    requires
        strict_total(lt),
    ensures
        strict_weak(lt),
        forall|a: T, b: T| tied(a, b, lt) ==> a == b,
{
    assert forall|a: T, b: T| #[trigger] lt(a, b) implies !lt(b, a) by {
        if lt(b, a) {
            assert(lt(a, a));
        }
    }
    assert forall|a: T, b: T, c: T| !#[trigger] lt(a, b) && !#[trigger] lt(b, c) implies !lt(
        a,
        c,
    ) by {
        if lt(a, c) {
            if a != b {
                assert(lt(b, a));
                assert(lt(b, c));
            }
        }
    }
}

/// How many leading items of `t` go before `x`: the place that `x` takes in `t`.
pub open spec fn place_index<T>(x: T, t: Seq<T>, before: spec_fn(T, T) -> bool) -> int
    decreases t.len(),
{
    if t.len() > 0 && before(t[0], x) {
        1 + place_index(x, t.drop_first(), before)
    } else {
        0
    }
}

/// `s` sorted by `before`, stably: the first item of `s` takes its place among
/// the sorted rest, in front of every item that does not go before it.
pub open spec fn sorted<T>(s: Seq<T>, before: spec_fn(T, T) -> bool) -> Seq<T>
    decreases s.len(),
{
    if s.len() == 0 {
        s
    } else {
        let rest = sorted(s.drop_first(), before);
        rest.insert(place_index(s[0], rest, before), s[0])
    }
}

/// No item stands behind one that it goes before.
pub open spec fn ordered<T>(s: Seq<T>, before: spec_fn(T, T) -> bool) -> bool {
    forall|i: int, j: int| 0 <= i < j < s.len() ==> !before(#[trigger] s[j], #[trigger] s[i])
}

/// The place of `x` in `t` lies within `t`, behind items that go before `x`
/// and at an item that does not.
pub proof fn lemma_place_index<T>(x: T, t: Seq<T>, before: spec_fn(T, T) -> bool)
    ensures
        0 <= place_index(x, t, before) <= t.len(),
        forall|i: int| 0 <= i < place_index(x, t, before) ==> before(#[trigger] t[i], x),
        place_index(x, t, before) < t.len() ==> !before(t[place_index(x, t, before)], x),
    decreases t.len(),
{
    if t.len() > 0 && before(t[0], x) {
        let rest = t.drop_first();
        lemma_place_index(x, rest, before);
        let p = place_index(x, rest, before);
        assert forall|i: int| 0 <= i < p + 1 implies before(#[trigger] t[i], x) by {
            if i > 0 {
                assert(t[i] == rest[i - 1]);
            }
        }
        if p < rest.len() {
            assert(t[p + 1] == rest[p]);
        }
    }
}

/// Sorting keeps every item, as often as it occurs.
pub proof fn lemma_sorted_permutes<T>(s: Seq<T>, before: spec_fn(T, T) -> bool)
    ensures
        sorted(s, before).len() == s.len(),
        sorted(s, before).to_multiset() == s.to_multiset(),
    decreases s.len(),
{
    if s.len() > 0 {
        let rest = sorted(s.drop_first(), before);
        lemma_sorted_permutes(s.drop_first(), before);
        lemma_place_index(s[0], rest, before);
        let p = place_index(s[0], rest, before);
        vstd::seq_lib::to_multiset_insert(rest, p, s[0]);
        vstd::seq_lib::to_multiset_insert(s.drop_first(), 0, s[0]);
        assert(s.drop_first().insert(0, s[0]) =~= s);
    }
}

/// Under a strict weak order the sorted sequence is ordered.
pub proof fn lemma_sorted_ordered<T>(s: Seq<T>, before: spec_fn(T, T) -> bool)
    requires
        strict_weak(before),
    ensures
        ordered(sorted(s, before), before),
    decreases s.len(),
{
    if s.len() > 0 {
        let x = s[0];
        let rest = sorted(s.drop_first(), before);
        lemma_sorted_ordered(s.drop_first(), before);
        lemma_place_index(x, rest, before);
        let p = place_index(x, rest, before);
        let out = rest.insert(p, x);
        assert forall|i: int, j: int| 0 <= i < j < out.len() implies !before(
            #[trigger] out[j],
            #[trigger] out[i],
        ) by {
            if j < p {
                assert(out[i] == rest[i] && out[j] == rest[j]);
            } else if j == p {
                assert(out[i] == rest[i]);
                assert(before(rest[i], x));
            } else if i < p {
                assert(out[i] == rest[i] && out[j] == rest[j - 1]);
            } else if i == p {
                assert(out[j] == rest[j - 1]);
                assert(!before(rest[p], x));
                if j - 1 > p {
                    assert(!before(rest[j - 1], rest[p]));
                }
            } else {
                assert(out[i] == rest[i - 1] && out[j] == rest[j - 1]);
            }
        }
    }
}

/// Sorting is stable: the items tied with any one value keep the order that
/// they came in.
pub proof fn lemma_sorted_stable<T>(s: Seq<T>, before: spec_fn(T, T) -> bool, e: T)
    requires
        strict_weak(before),
    ensures
        ({
            let with_e = |y: T| tied(y, e, before);
            sorted(s, before).filter(with_e) == s.filter(with_e)
        }),
    decreases s.len(),
{
    let with_e = |y: T| tied(y, e, before);
    if s.len() > 0 {
        let x = s[0];
        let tail = s.drop_first();
        let rest = sorted(tail, before);
        lemma_sorted_stable(tail, before, e);
        lemma_place_index(x, rest, before);
        let p = place_index(x, rest, before);
        let head = rest.subrange(0, p);
        let back = rest.subrange(p, rest.len() as int);
        assert(rest =~= head + back);
        assert(sorted(s, before) =~= head + seq![x] + back);
        assert(s =~= seq![x] + tail);
        Seq::filter_distributes_over_add(head, back, with_e);
        Seq::filter_distributes_over_add(head, seq![x], with_e);
        Seq::filter_distributes_over_add(head + seq![x], back, with_e);
        Seq::filter_distributes_over_add(seq![x], tail, with_e);
        if with_e(x) {
            assert(head.all(|y: T| !with_e(y))) by {
                assert forall|i: int| 0 <= i < head.len() implies !with_e(#[trigger] head[i]) by {
                    assert(before(rest[i], x));
                    if with_e(head[i]) {
                        assert(!before(head[i], e) && !before(e, x));
                    }
                }
            }
            head.lemma_all_neg_filter_empty(with_e);
            assert(head.filter(with_e) =~= Seq::<T>::empty());
            assert(sorted(s, before).filter(with_e) =~= s.filter(with_e));
        } else {
            assert(seq![x].filter(with_e) =~= Seq::<T>::empty()) by {
                assert(seq![x].all(|y: T| !with_e(y)));
                seq![x].lemma_all_neg_filter_empty(with_e);
            }
            assert(sorted(s, before).filter(with_e) =~= s.filter(with_e));
        }
    }
}

} // verus!
