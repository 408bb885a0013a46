use vstd::prelude::*;

verus! {

/// No two entities of the collection share an identity, where `id_of` reads
/// an entity's identity.
pub open spec fn ids_unique_by<T>(s: Seq<T>, id_of: spec_fn(T) -> u64) -> bool {
    forall|i: int, j: int| 0 <= i < j < s.len() ==> id_of(s[i]) != id_of(s[j])
}

/// Every live identity was drawn from the collection's counter, so all of
/// them lie below its next value.
pub open spec fn ids_below_by<T>(s: Seq<T>, id_of: spec_fn(T) -> u64, next_id: u64) -> bool {
    forall|i: int| 0 <= i < s.len() ==> id_of(s[i]) < next_id
}

/// The identity invariant every entity collection maintains.
pub open spec fn ids_ok_by<T>(s: Seq<T>, id_of: spec_fn(T) -> u64, next_id: u64) -> bool {
    ids_unique_by(s, id_of) && ids_below_by(s, id_of, next_id)
}

/// An identity is never reused within a collection: the counter's next value
/// differs from every identity currently alive, so an entity carrying it can
/// be appended, and the invariant holds again for the advanced counter.
pub proof fn lemma_fresh_id_unique<T>(s: Seq<T>, id_of: spec_fn(T) -> u64, e: T, next_id: u64)
    requires
        ids_ok_by(s, id_of, next_id),
        id_of(e) == next_id,
        next_id < u64::MAX,
    ensures
        forall|i: int| 0 <= i < s.len() ==> id_of(s[i]) != id_of(e),
        ids_ok_by(s.push(e), id_of, (next_id + 1) as u64),
{
    let pushed = s.push(e);
    assert forall|i: int, j: int| 0 <= i < j < pushed.len() implies
        id_of(pushed[i]) != id_of(pushed[j]) by {
        if j < s.len() {
            assert(id_of(s[i]) != id_of(s[j]));
        } else {
            assert(pushed[j] == e);
            assert(pushed[i] == s[i] && id_of(s[i]) < next_id);
        }
    }
    assert forall|i: int| 0 <= i < pushed.len() implies id_of(pushed[i]) < next_id + 1 by {
        if i < s.len() {
            assert(pushed[i] == s[i]);
        } else {
            assert(pushed[i] == e);
        }
    }
}

/// An identity retired at some point in a collection's history never comes
/// back: it lay below the counter when its entity was removed, and the
/// counter only grows, so every identity handed out later is strictly
/// larger.
pub proof fn lemma_retired_id_never_returns(retired: u64, next_at_removal: u64, next_now: u64)
    requires
        retired < next_at_removal,
        next_at_removal <= next_now,
    ensures
        retired != next_now,
{
}

/// Removing an entity and then spawning a new one never yields a duplicate
/// key: the removed entity's identity lay below the counter at its removal,
/// the counter never moves back, and the newcomer takes the counter's
/// current value — so the newcomer's identity differs from the removed one
/// and from every entity still alive.
pub proof fn lemma_removed_then_spawned_distinct<T>(
    s: Seq<T>,
    id_of: spec_fn(T) -> u64,
    removed_id: u64,
    next_at_removal: u64,
    next_now: u64,
    e: T,
)
    requires
        removed_id < next_at_removal,
        next_at_removal <= next_now,
        ids_below_by(s, id_of, next_now),
        id_of(e) == next_now,
    ensures
        id_of(e) != removed_id,
        forall|i: int| 0 <= i < s.len() ==> id_of(s[i]) != id_of(e),
{
}

/// Updating entities in place — mapping each through a function that keeps
/// its identity — preserves the identity invariant.
pub proof fn lemma_ids_ok_map<T>(
    s: Seq<T>,
    id_of: spec_fn(T) -> u64,
    f: spec_fn(T) -> T,
    next_id: u64,
)
    requires
        ids_ok_by(s, id_of, next_id),
        forall|x: T| #[trigger] id_of(f(x)) == id_of(x),
    ensures
        ids_ok_by(s.map_values(f), id_of, next_id),
{
    let m = s.map_values(f);
    assert forall|i: int, j: int| 0 <= i < j < m.len() implies id_of(m[i]) != id_of(m[j]) by {
        assert(m[i] == f(s[i]) && m[j] == f(s[j]));
        assert(id_of(s[i]) != id_of(s[j]));
    }
    assert forall|i: int| 0 <= i < m.len() implies id_of(m[i]) < next_id by {
        assert(m[i] == f(s[i]));
    }
}

/// Removing entities — keeping those that satisfy `pred` — preserves the
/// identity invariant, and introduces no entity that was not already there.
pub proof fn lemma_ids_ok_filter<T>(
    s: Seq<T>,
    id_of: spec_fn(T) -> u64,
    pred: spec_fn(T) -> bool,
    next_id: u64,
)
    requires
        ids_ok_by(s, id_of, next_id),
    ensures
        ids_ok_by(s.filter(pred), id_of, next_id),
        forall|x: T| #[trigger] s.filter(pred).contains(x) ==> s.contains(x),
    decreases s.len(),
{
    reveal(Seq::filter);
    if s.len() == 0 {
        assert(s.filter(pred) =~= Seq::<T>::empty());
    } else {
        let prefix = s.drop_last();
        let last = s.last();
        assert(ids_ok_by(prefix, id_of, next_id)) by {
            assert(forall|i: int| 0 <= i < prefix.len() ==> prefix[i] == s[i]);
        }
        lemma_ids_ok_filter(prefix, id_of, pred, next_id);
        let fp = prefix.filter(pred);
        let fs = s.filter(pred);
        assert forall|x: T| #[trigger] fs.contains(x) implies s.contains(x) by {
            if fp.contains(x) {
                assert(prefix.contains(x));
                let k = choose|k: int| 0 <= k < prefix.len() && prefix[k] == x;
                assert(s[k] == x);
            } else {
                assert(x == last);
                assert(s[s.len() - 1] == x);
            }
        }
        if pred(last) {
            assert(fs == fp.push(last));
            assert forall|i: int, j: int| 0 <= i < j < fs.len() implies
                id_of(fs[i]) != id_of(fs[j]) by {
                if j < fp.len() {
                    assert(fs[i] == fp[i] && fs[j] == fp[j]);
                } else {
                    assert(fs[j] == last);
                    assert(fs[i] == fp[i]);
                    assert(fp.contains(fp[i]));
                    assert(prefix.contains(fp[i]));
                    let k = choose|k: int| 0 <= k < prefix.len() && prefix[k] == fp[i];
                    assert(id_of(s[k]) != id_of(s[s.len() - 1]));
                }
            }
            assert forall|i: int| 0 <= i < fs.len() implies id_of(fs[i]) < next_id by {
                if i < fp.len() {
                    assert(fs[i] == fp[i]);
                } else {
                    assert(fs[i] == last);
                    assert(s[s.len() - 1] == last);
                }
            }
        } else {
            assert(fs == fp);
        }
    }
}

/// Whether `ids` lists `id`.
pub fn contains_id(ids: &Vec<u64>, id: u64) -> (r: bool)
    ensures
        r == ids@.contains(id),
{
    let mut i: usize = 0;
    while i < ids.len()
        invariant
            i <= ids@.len(),
            forall|j: int| 0 <= j < i ==> ids@[j] != id,
        decreases ids@.len() - i,
    {
        if ids[i] == id {
            return true;
        }
        i += 1;
    }
    false
}

} // verus!
