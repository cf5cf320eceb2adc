//! Facts on sequences that the loops of this crate lean on.

use vstd::prelude::*;

verus! {

/// Filtering one element more: the filtered prefix grows by that element
/// where the predicate holds of it, and stays as it is where not.
pub proof fn lemma_filter_step<A>(s: Seq<A>, i: int, pred: spec_fn(A) -> bool)
    requires
        0 <= i < s.len(),
    ensures
        s.take(i + 1).filter(pred) == if pred(s[i]) {
            s.take(i).filter(pred).push(s[i])
        } else {
            s.take(i).filter(pred)
        },
{
    assert(s.take(i + 1) =~= s.take(i).push(s[i]));
    s.take(i).lemma_filter_push(s[i], pred);
}

/// The filter of a sequence without elements is without elements.
pub proof fn lemma_filter_empty<A>(s: Seq<A>, pred: spec_fn(A) -> bool)
    requires
        s.len() == 0,
    ensures
        s.filter(pred) == Seq::<A>::empty(),
{
    reveal(Seq::filter);
    assert(s.filter(pred) =~= Seq::<A>::empty());
}

/// `key` stands at place `i` of `keys` and at no place before it.
pub open spec fn first_at<K>(keys: Seq<K>, key: K, i: int) -> bool {
    &&& 0 <= i < keys.len()
    &&& keys[i] == key
    &&& forall|j: int| 0 <= j < i ==> #[trigger] keys[j] != key
}

/// The first place at which `key` stands in `keys`, where it stands at
/// any.
pub open spec fn position<K>(keys: Seq<K>, key: K) -> int {
    choose|i: int| first_at(keys, key, i)
}

/// A key that occurs has one first place, and `position` names it.
pub proof fn lemma_position<K>(keys: Seq<K>, key: K)
    requires
        keys.contains(key),
    ensures
        first_at(keys, key, position(keys, key)),
    decreases keys.len(),
{
    let last = keys.len() - 1;
    if keys.drop_last().contains(key) {
        lemma_position(keys.drop_last(), key);
        let i = position(keys.drop_last(), key);
        assert(keys.drop_last()[i] == key);
        assert forall|j: int| 0 <= j < i implies #[trigger] keys[j] != key by {
            assert(keys.drop_last()[j] != key);
        }
        assert(first_at(keys, key, i));
    } else {
        assert forall|j: int| 0 <= j < last implies #[trigger] keys[j] != key by {
            if keys[j] == key {
                assert(keys.drop_last()[j] == key);
            }
        }
        assert(first_at(keys, key, last));
    }
}

/// Where `key` stands first at `i`, `position` is `i`.
pub proof fn lemma_position_is<K>(keys: Seq<K>, key: K, i: int)
    requires
        first_at(keys, key, i),
    ensures
        position(keys, key) == i,
        keys.contains(key),
{
    let p = position(keys, key);
    assert(first_at(keys, key, p));
    if p < i {
        assert(keys[p] != key);
    }
    if i < p {
        assert(keys[i] != key);
    }
}

/// A filter keeps a sequence free of repetitions.
pub proof fn lemma_filter_no_duplicates<A>(s: Seq<A>, pred: spec_fn(A) -> bool)
    requires
        s.no_duplicates(),
    ensures
        s.filter(pred).no_duplicates(),
    decreases s.len(),
{
    reveal(Seq::filter);
    if s.len() > 0 {
        let rest = s.drop_last();
        lemma_filter_no_duplicates(rest, pred);
        if pred(s.last()) {
            let kept = rest.filter(pred);
            if kept.contains(s.last()) {
                rest.lemma_filter_contains_rev(pred, s.last());
                let j = choose|j: int| 0 <= j < rest.len() && rest[j] == s.last();
                assert(s[j] == s[s.len() - 1]);
            }
            assert forall|i: int, j: int|
                0 <= i < kept.push(s.last()).len() && 0 <= j < kept.push(s.last()).len() && i
                    != j implies kept.push(s.last())[i] != kept.push(s.last())[j] by {
                if i == kept.len() {
                    assert(kept.contains(kept[j]) ==> kept[j] != s.last());
                } else if j == kept.len() {
                    assert(kept.contains(kept[i]) ==> kept[i] != s.last());
                }
            }
        }
    }
}

} // verus!
