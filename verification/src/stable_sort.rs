//! Stable sorting by a `u64` key, for lists whose order is part of what a
//! function returns.

use vstd::prelude::*;

verus! {

/// Key `a` ranks strictly before key `b`: larger first when `desc`,
/// smaller first otherwise.
pub open spec fn ranks_before(a: u64, b: u64, desc: bool) -> bool {
    if desc { a > b } else { a < b }
}

/// Index `i` goes before index `j`: its key ranks first, or the keys are
/// equal and `i` came first.
pub open spec fn sorts_before(keys: Seq<u64>, i: int, j: int, desc: bool) -> bool {
    ranks_before(keys[i], keys[j], desc) || (keys[i] == keys[j] && i < j)
}

/// `o` lists the indices of `keys` in key order (descending when `desc`),
/// equal keys in the order they came: what a stable sort by key does.
/// (Being of the same length and strictly ordered, `o` holds each index
/// exactly once.)
pub open spec fn stable_order(keys: Seq<u64>, o: Seq<int>, desc: bool) -> bool {
    &&& o.len() == keys.len()
    &&& forall|k: int| 0 <= k < o.len() ==> 0 <= #[trigger] o[k] < keys.len()
    &&& forall|a: int, b: int| 0 <= a < b < o.len() ==> sorts_before(keys, #[trigger] o[a], #[trigger] o[b], desc)
}

/// A stable order lists every index exactly once: sorting drops nothing
/// and repeats nothing.
pub proof fn lemma_order_is_permutation(keys: Seq<u64>, o: Seq<int>, desc: bool)
    requires
        stable_order(keys, o, desc),
    ensures
        o.no_duplicates(),
        forall|j: int| 0 <= j < keys.len() ==> o.contains(j),
{
    assert forall|a: int, b: int| 0 <= a < o.len() && 0 <= b < o.len() && a != b implies o[a] != o[b] by {
        if a < b {
            assert(sorts_before(keys, o[a], o[b], desc));
        } else {
            assert(sorts_before(keys, o[b], o[a], desc));
        }
    }
    o.unique_seq_to_set();
    let n = keys.len() as int;
    let range = vstd::set_lib::set_int_range(0, n);
    vstd::set_lib::lemma_int_range(0, n);
    assert(o.to_set().subset_of(range)) by {
        assert forall|v: int| o.to_set().contains(v) implies range.contains(v) by {
            let k = choose|k: int| 0 <= k < o.len() && o[k] == v;
            assert(0 <= o[k] < n);
        }
    }
    vstd::set_lib::lemma_len_subset(o.to_set(), range);
    vstd::set_lib::lemma_subset_equality(o.to_set(), range);
    assert forall|j: int| 0 <= j < keys.len() implies o.contains(j) by {
        assert(range.contains(j));
        assert(o.to_set().contains(j));
    }
}

fn ranks_first(a: u64, b: u64, desc: bool) -> (r: bool)
    ensures
        r == ranks_before(a, b, desc),
{
    if desc {
        a > b
    } else {
        a < b
    }
}

/// Sorts `items` and their `keys` together by key (descending when `desc`),
/// keeping the order of equal keys; returns the order taken.
pub fn sort_by_keys<T>(items: &mut Vec<T>, keys: &mut Vec<u64>, desc: bool) -> (o: Ghost<Seq<int>>)
    requires
        old(items)@.len() == old(keys)@.len(),
    ensures
        stable_order(old(keys)@, o@, desc),
        final(items)@.len() == old(items)@.len(),
        final(keys)@.len() == old(keys)@.len(),
        forall|k: int| 0 <= k < o@.len() ==> final(items)@[k] == old(items)@[#[trigger] o@[k]],
        forall|k: int| 0 <= k < o@.len() ==> final(keys)@[k] == old(keys)@[#[trigger] o@[k]],
{
    let ghost k0 = keys@;
    let ghost it0 = items@;
    let n = keys.len();
    let ghost mut o: Seq<int> = Seq::new(n as nat, |k: int| k);
    let mut i: usize = 0;
    while i < n
        invariant
            n == k0.len(),
            keys@.len() == n,
            items@.len() == n,
            it0.len() == n,
            o.len() == n,
            i <= n,
            forall|k: int| 0 <= k < n ==> 0 <= #[trigger] o[k] < n,
            forall|k: int| 0 <= k < n ==> keys@[k] == k0[#[trigger] o[k]],
            forall|k: int| 0 <= k < n ==> items@[k] == it0[#[trigger] o[k]],
            forall|k: int| i <= k < n ==> #[trigger] o[k] == k,
            forall|k: int| 0 <= k < i ==> #[trigger] o[k] < i,
            forall|a: int, b: int| 0 <= a < b < i ==> sorts_before(k0, #[trigger] o[a], #[trigger] o[b], desc),
        decreases n - i,
    {
        let key = keys[i];
        assert(o[i as int] == i);
        assert(key == k0[i as int]);
        let mut p: usize = 0;
        while p < i && !ranks_first(key, keys[p], desc)
            invariant
                p <= i,
                i < n,
                keys@.len() == n,
                forall|q: int| 0 <= q < p ==> !ranks_before(key, #[trigger] keys@[q], desc),
            decreases i - p,
        {
            p += 1;
        }
        let ghost ko = keys@;
        let ghost oo = o;
        let it = items.remove(i);
        items.insert(p, it);
        let kk = keys.remove(i);
        keys.insert(p, kk);
        proof {
            o = oo.remove(i as int).insert(p as int, i as int);
            assert forall|k: int| 0 <= k < n implies 0 <= #[trigger] o[k] < n by {
                if k < p {
                    assert(o[k] == oo[k]);
                } else if k == p {
                } else if k <= i {
                    assert(o[k] == oo[k - 1]);
                } else {
                    assert(o[k] == oo[k]);
                }
            }
            assert forall|k: int| 0 <= k < n implies keys@[k] == k0[#[trigger] o[k]] by {
                if k < p {
                    assert(o[k] == oo[k] && keys@[k] == ko[k]);
                } else if k == p {
                } else if k <= i {
                    assert(o[k] == oo[k - 1] && keys@[k] == ko[k - 1]);
                } else {
                    assert(o[k] == oo[k] && keys@[k] == ko[k]);
                }
            }
            assert forall|k: int| i + 1 <= k < n implies #[trigger] o[k] == k by {
                assert(o[k] == oo[k]);
            }
            assert forall|k: int| 0 <= k < i + 1 implies #[trigger] o[k] < i + 1 by {
                if k < p {
                    assert(o[k] == oo[k]);
                } else if k > p {
                    assert(o[k] == oo[k - 1]);
                }
            }
            assert forall|a: int, b: int| 0 <= a < b < i + 1 implies sorts_before(k0, #[trigger] o[a], #[trigger] o[b], desc) by {
                if b < p {
                    assert(o[a] == oo[a] && o[b] == oo[b]);
                } else if b == p {
                    assert(o[a] == oo[a]);
                    assert(ko[a] == k0[oo[a]]);
                    assert(!ranks_before(key, ko[a], desc));
                } else if a < p {
                    assert(o[a] == oo[a] && o[b] == oo[b - 1]);
                } else if a == p {
                    assert(o[b] == oo[b - 1]);
                    assert(p < i);
                    assert(ranks_before(key, ko[p as int], desc));
                    assert(ko[p as int] == k0[oo[p as int]]);
                    if b - 1 > p {
                        assert(sorts_before(k0, oo[p as int], oo[b - 1], desc));
                    }
                } else {
                    assert(o[a] == oo[a - 1] && o[b] == oo[b - 1]);
                }
            }
        }
        assert forall|k: int| 0 <= k < n implies items@[k] == it0[#[trigger] o[k]] by {
            if k < p {
                assert(o[k] == oo[k]);
            } else if k == p {
            } else if k <= i {
                assert(o[k] == oo[k - 1]);
            } else {
                assert(o[k] == oo[k]);
            }
        }
        i += 1;
    }
    Ghost(o)
}

} // verus!
