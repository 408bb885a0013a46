use vstd::prelude::*;

verus! {

/// Filtering a sequence extended by one element keeps the filtered prefix
/// and appends the new element exactly when it satisfies the predicate.
pub proof fn lemma_filter_push<T>(s: Seq<T>, x: T, pred: spec_fn(T) -> bool)
    ensures
        s.push(x).filter(pred) == (if pred(x) {
            s.filter(pred).push(x)
        } else {
            s.filter(pred)
        }),
{
    reveal(Seq::filter);
    assert(s.push(x).drop_last() =~= s);
    assert(s.push(x).last() == x);
}

/// Mapping a sequence extended by one element appends the element's image.
pub proof fn lemma_map_values_push<T, U>(s: Seq<T>, x: T, f: spec_fn(T) -> U)
    ensures
        s.push(x).map_values(f) == s.map_values(f).push(f(x)),
{
    assert(s.push(x).map_values(f) =~= s.map_values(f).push(f(x)));
}

/// An empty sequence filters and maps to empty sequences.
pub proof fn lemma_filter_map_empty<T, U>(pred: spec_fn(T) -> bool, f: spec_fn(T) -> U)
    ensures
        Seq::<T>::empty().filter(pred) == Seq::<T>::empty(),
        Seq::<T>::empty().map_values(f) == Seq::<U>::empty(),
{
    reveal(Seq::filter);
    assert(Seq::<T>::empty().filter(pred) =~= Seq::<T>::empty());
    assert(Seq::<T>::empty().map_values(f) =~= Seq::<U>::empty());
}

/// Membership in a pushed sequence.
pub proof fn lemma_push_contains<T>(s: Seq<T>, x: T)
    ensures
        forall|y: T| #[trigger] s.push(x).contains(y) <==> (s.contains(y) || y == x),
{
    assert forall|y: T| #[trigger] s.push(x).contains(y) implies (s.contains(y) || y == x) by {
        let m = choose|m: int| 0 <= m < s.push(x).len() && s.push(x)[m] == y;
        if m < s.len() {
            assert(s[m] == y);
        }
    }
    assert forall|y: T| (s.contains(y) || y == x) implies #[trigger] s.push(x).contains(y) by {
        if s.contains(y) {
            let m = choose|m: int| 0 <= m < s.len() && s[m] == y;
            assert(s.push(x)[m] == y);
        } else {
            assert(s.push(x)[s.len() as int] == y);
        }
    }
}

/// Membership in a concatenation.
pub proof fn lemma_add_contains<T>(a: Seq<T>, b: Seq<T>)
    ensures
        forall|y: T| #[trigger] (a + b).contains(y) <==> (a.contains(y) || b.contains(y)),
{
    assert forall|y: T| #[trigger] (a + b).contains(y) implies (a.contains(y) || b.contains(y)) by {
        let m = choose|m: int| 0 <= m < (a + b).len() && (a + b)[m] == y;
        if m < a.len() {
            assert(a[m] == y);
        } else {
            assert(b[m - a.len()] == y);
        }
    }
    assert forall|y: T| (a.contains(y) || b.contains(y)) implies #[trigger] (a + b).contains(y) by {
        if a.contains(y) {
            let m = choose|m: int| 0 <= m < a.len() && a[m] == y;
            assert((a + b)[m] == y);
        } else {
            let m = choose|m: int| 0 <= m < b.len() && b[m] == y;
            assert((a + b)[a.len() + m] == y);
        }
    }
}

} // verus!
