//! Small lemmas about `Seq::filter` that the catalog's mutations lean on:
//! how filtering interacts with appending, with a second filter, and with
//! removing a uniquely identified element.

use vstd::prelude::*;

verus! {

/// The pointwise conjunction of two predicates.
pub open spec fn conj<A>(p: spec_fn(A) -> bool, q: spec_fn(A) -> bool) -> spec_fn(A) -> bool {
    |a: A| p(a) && q(a)
}

/// Filtering distributes over appending one element.
pub proof fn lemma_filter_push<A>(s: Seq<A>, pred: spec_fn(A) -> bool, x: A)
    ensures
        s.push(x).filter(pred) == if pred(x) {
            s.filter(pred).push(x)
        } else {
            s.filter(pred)
        },
{
    reveal(Seq::filter);
    assert(s.push(x).drop_last() =~= s);
    assert(s.push(x).last() == x);
}

/// Filtering twice is filtering with the conjunction.
pub proof fn lemma_filter_filter<A>(s: Seq<A>, p: spec_fn(A) -> bool, q: spec_fn(A) -> bool)
    ensures
        s.filter(p).filter(q) == s.filter(conj(p, q)),
    decreases s.len(),
{
    reveal(Seq::filter);
    if s.len() == 0 {
    } else {
        let d = s.drop_last();
        let x = s.last();
        lemma_filter_filter(d, p, q);
        if p(x) {
            lemma_filter_push(d.filter(p), q, x);
        }
        assert(conj(p, q)(x) == (p(x) && q(x)));
    }
}

/// Two predicates that agree on every element filter alike.
pub proof fn lemma_filter_congruence<A>(s: Seq<A>, p: spec_fn(A) -> bool, q: spec_fn(A) -> bool)
    requires
        forall|i: int| 0 <= i < s.len() ==> p(#[trigger] s[i]) == q(s[i]),
    ensures
        s.filter(p) == s.filter(q),
    decreases s.len(),
{
    reveal(Seq::filter);
    if s.len() > 0 {
        let d = s.drop_last();
        assert(forall|i: int| 0 <= i < d.len() ==> p(#[trigger] d[i]) == q(d[i])) by {
            assert(forall|i: int| 0 <= i < d.len() ==> #[trigger] d[i] == s[i]);
        }
        lemma_filter_congruence(d, p, q);
        assert(p(s.last()) == q(s.last()));
    }
}

/// A filter that keeps every element changes nothing.
pub proof fn lemma_filter_all<A>(s: Seq<A>, pred: spec_fn(A) -> bool)
    requires
        forall|i: int| 0 <= i < s.len() ==> pred(#[trigger] s[i]),
    ensures
        s.filter(pred) == s,
    decreases s.len(),
{
    reveal(Seq::filter);
    if s.len() > 0 {
        let d = s.drop_last();
        assert(forall|i: int| 0 <= i < d.len() ==> pred(#[trigger] d[i])) by {
            assert(forall|i: int| 0 <= i < d.len() ==> #[trigger] d[i] == s[i]);
        }
        lemma_filter_all(d, pred);
        assert(d.push(s.last()) =~= s);
    }
}

/// Every element of a filtered sequence comes from the sequence.
pub proof fn lemma_filter_elements<A>(s: Seq<A>, pred: spec_fn(A) -> bool)
    ensures
        forall|i: int| 0 <= i < s.filter(pred).len() ==> s.contains(#[trigger] s.filter(pred)[i]),
    decreases s.len(),
{
    reveal(Seq::filter);
    if s.len() > 0 {
        let d = s.drop_last();
        let f = s.filter(pred);
        lemma_filter_elements(d, pred);
        assert forall|i: int| 0 <= i < f.len() implies s.contains(f[i]) by {
            if pred(s.last()) && i == f.len() - 1 {
                assert(f[i] == s.last());
                assert(s[s.len() - 1] == s.last());
            } else {
                assert(f[i] == d.filter(pred)[i]);
                assert(d.contains(d.filter(pred)[i]));
                let j = choose|j: int| 0 <= j < d.len() && d[j] == f[i];
                assert(s[j] == f[i]);
            }
        }
    }
}

/// Filtering out one element that sits at `i`, where every other element is
/// kept, is removing it.
pub proof fn lemma_filter_single_out<A>(s: Seq<A>, q: spec_fn(A) -> bool, i: int)
    requires
        0 <= i < s.len(),
        !q(s[i]),
        forall|j: int| 0 <= j < s.len() && j != i ==> q(#[trigger] s[j]),
    ensures
        s.filter(q) == s.remove(i),
{
    let before = s.subrange(0, i);
    let mid = s.subrange(i, i + 1);
    let after = s.subrange(i + 1, s.len() as int);
    assert(s =~= (before + mid) + after);
    Seq::filter_distributes_over_add(before + mid, after, q);
    Seq::filter_distributes_over_add(before, mid, q);
    lemma_filter_all(before, q);
    lemma_filter_all(after, q);
    assert(mid.filter(q) =~= Seq::<A>::empty()) by {
        reveal_with_fuel(Seq::filter, 2);
        assert(mid.len() == 1);
        assert(mid.last() == s[i]);
        assert(mid.drop_last() =~= Seq::<A>::empty());
    }
    assert(s.filter(q) =~= before + after);
    assert(s.remove(i) =~= before + after);
}

} // verus!
