//! Sort keys and the stable order of a list under its keys.
//!
//! A key is a sequence of numbers; keys are ordered as words are in a
//! dictionary. The stable order of a list of keys is the one arrangement
//! of its places in which the keys do not fall (or, where a falling
//! order is asked for, do not rise) and in which places with the same
//! key keep the order they had.

use vstd::prelude::*;

verus! {

/// `a` does not come after `b`: at the first place where they differ `a`
/// has the smaller number, or `a` ends where `b` goes on.
pub open spec fn key_le(a: Seq<i64>, b: Seq<i64>) -> bool
    decreases a.len(),
{
    if a.len() == 0 {
        true
    } else if b.len() == 0 {
        false
    } else if a[0] != b[0] {
        a[0] < b[0]
    } else {
        key_le(a.skip(1), b.skip(1))
    }
}

/// Of two keys one does not come after the other.
pub proof fn lemma_key_le_total(a: Seq<i64>, b: Seq<i64>)
    ensures
        key_le(a, b) || key_le(b, a),
    decreases a.len(),
{
    if a.len() > 0 && b.len() > 0 && a[0] == b[0] {
        lemma_key_le_total(a.skip(1), b.skip(1));
    }
}

/// The order of keys is transitive.
pub proof fn lemma_key_le_transitive(a: Seq<i64>, b: Seq<i64>, c: Seq<i64>)
    requires
        key_le(a, b),
        key_le(b, c),
    ensures
        key_le(a, c),
    decreases a.len(),
{
    if a.len() > 0 && b.len() > 0 && c.len() > 0 && a[0] == b[0] && b[0] == c[0] {
        lemma_key_le_transitive(a.skip(1), b.skip(1), c.skip(1));
    }
}

/// Keys of which neither comes after the other are the same key.
pub proof fn lemma_key_le_antisymmetric(a: Seq<i64>, b: Seq<i64>)
    requires
        key_le(a, b),
        key_le(b, a),
    ensures
        a == b,
    decreases a.len(),
{
    if a.len() > 0 && b.len() > 0 {
        lemma_key_le_antisymmetric(a.skip(1), b.skip(1));
        assert(a =~= seq![a[0]] + a.skip(1));
        assert(b =~= seq![b[0]] + b.skip(1));
    } else {
        assert(a =~= b);
    }
}

/// Every key stands in the order with itself.
pub proof fn lemma_key_le_reflexive(a: Seq<i64>)
    ensures
        key_le(a, a),
{
    lemma_key_le_total(a, a);
}

/// Tells whether one key does not come after another.
pub fn key_not_after(a: &Vec<i64>, b: &Vec<i64>) -> (r: bool)
    ensures
        r == key_le(a@, b@),
{
    let mut i: usize = 0;
    assert(a@.skip(0) =~= a@ && b@.skip(0) =~= b@);
    while i < a.len() && i < b.len()
        invariant
            i <= a.len(),
            i <= b.len(),
            key_le(a@, b@) == key_le(a@.skip(i as int), b@.skip(i as int)),
        decreases a.len() - i,
    {
        if a[i] != b[i] {
            return a[i] < b[i];
        }
        proof {
            assert(a@.skip(i as int).skip(1) =~= a@.skip(i + 1));
            assert(b@.skip(i as int).skip(1) =~= b@.skip(i + 1));
        }
        i += 1;
    }
    i == a.len()
}

/// `a` may stand before `b`: in a rising order `a` does not come after
/// `b`, in a falling order `b` does not come after `a`.
pub open spec fn in_order(a: Seq<i64>, b: Seq<i64>, falling: bool) -> bool {
    if falling {
        key_le(b, a)
    } else {
        key_le(a, b)
    }
}

/// Of two keys one may stand before the other, in either direction.
pub proof fn lemma_in_order_total(a: Seq<i64>, b: Seq<i64>, falling: bool)
    ensures
        in_order(a, b, falling) || in_order(b, a, falling),
{
    lemma_key_le_total(a, b);
}

/// Standing before is transitive, in either direction.
pub proof fn lemma_in_order_transitive(a: Seq<i64>, b: Seq<i64>, c: Seq<i64>, falling: bool)
    requires
        in_order(a, b, falling),
        in_order(b, c, falling),
    ensures
        in_order(a, c, falling),
{
    if falling {
        lemma_key_le_transitive(c, b, a);
    } else {
        lemma_key_le_transitive(a, b, c);
    }
}

/// Keys of which each may stand before the other are the same key.
pub proof fn lemma_in_order_antisymmetric(a: Seq<i64>, b: Seq<i64>, falling: bool)
    requires
        in_order(a, b, falling),
        in_order(b, a, falling),
    ensures
        a == b,
{
    lemma_key_le_antisymmetric(a, b);
}

/// Tells whether one key may stand before another.
pub fn key_in_order(a: &Vec<i64>, b: &Vec<i64>, falling: bool) -> (r: bool)
    ensures
        r == in_order(a@, b@, falling),
{
    if falling {
        key_not_after(b, a)
    } else {
        key_not_after(a, b)
    }
}

/// The place at which the index `x` joins an arrangement of earlier
/// indices: behind the last of them whose key may stand before the key
/// of `x`.
pub open spec fn slot(order: Seq<int>, keys: Seq<Seq<i64>>, x: int, falling: bool) -> int
    decreases order.len(),
{
    if order.len() == 0 {
        0
    } else if in_order(keys[order.last()], keys[x], falling) {
        order.len() as int
    } else {
        slot(order.drop_last(), keys, x, falling)
    }
}

/// The stable order of the first `n` places of a list of keys, rising or
/// falling: the stable order of the first `n - 1` places, which place
/// `n - 1` joins at its slot.
pub open spec fn stable_order(keys: Seq<Seq<i64>>, n: nat, falling: bool) -> Seq<int>
    decreases n,
{
    if n == 0 {
        Seq::empty()
    } else {
        let before = stable_order(keys, (n - 1) as nat, falling);
        before.insert(slot(before, keys, n - 1, falling), n - 1)
    }
}

/// `order` arranges the places `0 .. n` of `keys`, each once, so that the
/// keys do not fall (in a falling order: do not rise) and places with
/// the same key stand in rising order.
pub open spec fn arranges_stably(order: Seq<int>, keys: Seq<Seq<i64>>, n: nat, falling: bool)
    -> bool {
    &&& order.len() == n
    &&& forall|a: int| 0 <= a < n ==> 0 <= #[trigger] order[a] < n
    &&& forall|a: int, b: int| 0 <= a < b < n ==> #[trigger] order[a] != #[trigger] order[b]
    &&& forall|a: int, b: int|
        0 <= a < b < n ==> in_order(keys[#[trigger] order[a]], keys[#[trigger] order[b]], falling)
    &&& forall|a: int, b: int|
        0 <= a < b < n && keys[#[trigger] order[a]] == keys[#[trigger] order[b]] ==> order[a]
            < order[b]
}

/// Where an index joins: no index behind its slot has a key that may
/// stand before its own, and the index just before its slot has one.
proof fn lemma_slot(order: Seq<int>, keys: Seq<Seq<i64>>, x: int, falling: bool)
    ensures
        0 <= slot(order, keys, x, falling) <= order.len(),
        slot(order, keys, x, falling) > 0 ==> in_order(
            keys[order[slot(order, keys, x, falling) - 1]],
            keys[x],
            falling,
        ),
        forall|b: int|
            slot(order, keys, x, falling) <= b < order.len() ==> !in_order(
                keys[#[trigger] order[b]],
                keys[x],
                falling,
            ),
    decreases order.len(),
{
    if order.len() > 0 && !in_order(keys[order.last()], keys[x], falling) {
        lemma_slot(order.drop_last(), keys, x, falling);
        let p = slot(order, keys, x, falling);
        assert forall|b: int| p <= b < order.len() implies !in_order(
            keys[#[trigger] order[b]],
            keys[x],
            falling,
        ) by {
            if b < order.len() - 1 {
                assert(order.drop_last()[b] == order[b]);
            }
        }
        if p > 0 {
            assert(order.drop_last()[p - 1] == order[p - 1]);
        }
    }
}

/// The stable order is what its name says.
pub proof fn lemma_stable_order(keys: Seq<Seq<i64>>, n: nat, falling: bool)
    requires
        n <= keys.len(),
    ensures
        arranges_stably(stable_order(keys, n, falling), keys, n, falling),
    decreases n,
{
    if n > 0 {
        let x = (n - 1) as int;
        let before = stable_order(keys, (n - 1) as nat, falling);
        lemma_stable_order(keys, (n - 1) as nat, falling);
        lemma_slot(before, keys, x, falling);
        let p = slot(before, keys, x, falling);
        let order = before.insert(p, x);
        assert forall|a: int, b: int| 0 <= a < b < n implies in_order(
            keys[#[trigger] order[a]],
            keys[#[trigger] order[b]],
            falling,
        ) && (keys[order[a]] == keys[order[b]] ==> order[a] < order[b]) && order[a]
            != order[b] by {
            if b < p {
                assert(order[a] == before[a] && order[b] == before[b]);
            } else if b == p {
                assert(order[a] == before[a]);
                if a < p - 1 {
                    assert(in_order(keys[before[a]], keys[before[p - 1]], falling));
                    lemma_in_order_transitive(
                        keys[before[a]],
                        keys[before[p - 1]],
                        keys[x],
                        falling,
                    );
                }
            } else if a == p {
                assert(order[b] == before[b - 1]);
                lemma_in_order_total(keys[x], keys[before[b - 1]], falling);
                if keys[x] == keys[before[b - 1]] {
                    lemma_key_le_reflexive(keys[x]);
                }
            } else if a < p {
                assert(order[a] == before[a] && order[b] == before[b - 1]);
            } else {
                assert(order[a] == before[a - 1] && order[b] == before[b - 1]);
            }
        }
        assert forall|a: int| 0 <= a < n implies 0 <= #[trigger] order[a] < n by {
            if a < p {
                assert(order[a] == before[a]);
            } else if a > p {
                assert(order[a] == before[a - 1]);
            }
        }
    }
}

/// There is one stable order in each direction: an arrangement that is
/// stable is the stable order.
pub proof fn lemma_stable_order_unique(
    order: Seq<int>,
    keys: Seq<Seq<i64>>,
    n: nat,
    falling: bool,
)
    requires
        n <= keys.len(),
        arranges_stably(order, keys, n, falling),
    ensures
        order == stable_order(keys, n, falling),
    decreases n,
{
    if n == 0 {
        assert(order =~= stable_order(keys, n, falling));
    } else {
        let x = (n - 1) as int;
        lemma_occurs(order, n, x);
        let p = choose|p: int| 0 <= p < n && order[p] == x;
        let rest = order.remove(p);
        assert forall|a: int| 0 <= a < n - 1 implies 0 <= #[trigger] rest[a] < n - 1 by {
            if a < p {
                assert(rest[a] == order[a]);
            } else {
                assert(rest[a] == order[a + 1]);
            }
        }
        assert forall|a: int, b: int| 0 <= a < b < n - 1 implies #[trigger] rest[a]
            != #[trigger] rest[b] && in_order(keys[rest[a]], keys[rest[b]], falling) && (
        keys[rest[a]] == keys[rest[b]] ==> rest[a] < rest[b]) by {
            let a2 = if a < p {
                a
            } else {
                a + 1
            };
            let b2 = if b < p {
                b
            } else {
                b + 1
            };
            assert(rest[a] == order[a2] && rest[b] == order[b2]);
        }
        assert(arranges_stably(rest, keys, (n - 1) as nat, falling));
        lemma_stable_order_unique(rest, keys, (n - 1) as nat, falling);
        lemma_slot(rest, keys, x, falling);
        let q = slot(rest, keys, x, falling);
        if q < p {
            // the index at q stands before x in `order`, though its key may not
            assert(rest[q] == order[q]);
            assert(in_order(keys[order[q]], keys[order[p]], falling));
        }
        if p < q {
            // the index before the slot stands behind x in `order`, with the same key
            assert(rest[q - 1] == order[q]);
            assert(in_order(keys[order[p]], keys[order[q]], falling));
            lemma_in_order_antisymmetric(keys[order[p]], keys[order[q]], falling);
        }
        assert(order =~= rest.insert(p, x));
    }
}

/// An arrangement of the places `0 .. n`, each at most once, holds each
/// of them.
proof fn lemma_occurs(order: Seq<int>, n: nat, x: int)
    requires
        order.len() == n,
        forall|a: int| 0 <= a < n ==> 0 <= #[trigger] order[a] < n,
        forall|a: int, b: int| 0 <= a < b < n ==> #[trigger] order[a] != #[trigger] order[b],
        0 <= x < n,
    ensures
        exists|p: int| 0 <= p < n && order[p] == x,
{
    let places = Set::new(|i: int| 0 <= i < n);
    vstd::set_lib::lemma_int_range(0, n as int);
    assert(places =~= vstd::set_lib::set_int_range(0, n as int));
    assert(order.no_duplicates());
    order.unique_seq_to_set();
    let held = order.to_set();
    assert(held.subset_of(places)) by {
        assert forall|v: int| held.contains(v) implies places.contains(v) by {
            let a = choose|a: int| 0 <= a < order.len() && order[a] == v;
            assert(0 <= order[a] < n);
        }
    }
    vstd::set_lib::lemma_subset_equality(held, places);
    assert(held.contains(x));
}

/// An arrangement of places as the numbers it holds.
pub open spec fn places(order: Seq<usize>) -> Seq<int> {
    order.map_values(|i: usize| i as int)
}

/// Computes the stable order of a list of keys, rising or falling.
pub fn stable_sort_order(keys: &Vec<Vec<i64>>, falling: bool) -> (order: Vec<usize>)
    ensures
        places(order@) == stable_order(keys.deep_view(), keys.len() as nat, falling),
        order.len() == keys.len(),
        forall|a: int| 0 <= a < order.len() ==> #[trigger] order@[a] < keys.len(),
{
    let ghost all = keys.deep_view();
    let mut order: Vec<usize> = Vec::new();
    let mut n: usize = 0;
    assert(places(order@) =~= stable_order(all, 0, falling));
    while n < keys.len()
        invariant
            n <= keys.len(),
            all == keys.deep_view(),
            order.len() == n,
            places(order@) == stable_order(all, n as nat, falling),
            forall|a: int| 0 <= a < order.len() ==> #[trigger] order@[a] < n,
        decreases keys.len() - n,
    {
        let ghost before = places(order@);
        let mut p: usize = order.len();
        assert(before.take(p as int) =~= before);
        while p > 0 && !key_in_order(&keys[order[p - 1]], &keys[n], falling)
            invariant
                p <= order.len(),
                n < keys.len(),
                all == keys.deep_view(),
                before == places(order@),
                forall|a: int| 0 <= a < order.len() ==> #[trigger] order@[a] < n,
                slot(before, all, n as int, falling) == slot(
                    before.take(p as int),
                    all,
                    n as int,
                    falling,
                ),
            decreases p,
        {
            proof {
                let upto = before.take(p as int);
                assert(upto.last() == order@[p - 1] as int);
                assert(all[order@[p - 1] as int] == keys@[order@[p - 1] as int]@);
                assert(all[n as int] == keys@[n as int]@);
                assert(upto.drop_last() =~= before.take(p - 1));
            }
            p -= 1;
        }
        proof {
            let upto = before.take(p as int);
            if p > 0 {
                assert(upto.last() == order@[p - 1] as int);
                assert(all[order@[p - 1] as int] == keys@[order@[p - 1] as int]@);
                assert(all[n as int] == keys@[n as int]@);
            }
            assert(slot(before, all, n as int, falling) == p);
        }
        order.insert(p, n);
        assert(places(order@) =~= before.insert(p as int, n as int));
        n += 1;
    }
    order
}

} // verus!
