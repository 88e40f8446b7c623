//! The keys of an ordered map, in order.

use std::collections::BTreeMap;
use vstd::prelude::*;
use vstd::std_specs::cmp::OrdSpec;
use vstd::std_specs::iter::IteratorSpec;

verus! {

/// A key that is ordered by a number of its own.
pub trait Ranked: Sized {
    /// The number by which the key is ordered.
    spec fn rank(self) -> int;

    /// What the numbers of all keys stay below.
    spec fn limit() -> nat;

    /// No two keys share a number.
    proof fn lemma_rank(a: Self, b: Self)
        ensures
            a.rank() == b.rank() ==> a == b,
    ;

    /// No number is negative, and none reaches the limit.
    proof fn lemma_limit(a: Self)
        ensures
            0 <= a.rank() < Self::limit(),
    ;
}

impl Ranked for usize {
    open spec fn rank(self) -> int {
        self as int
    }

    open spec fn limit() -> nat {
        (usize::MAX + 1) as nat
    }

    proof fn lemma_rank(a: usize, b: usize) {
    }

    proof fn lemma_limit(a: usize) {
    }
}

impl Ranked for u32 {
    open spec fn rank(self) -> int {
        self as int
    }

    open spec fn limit() -> nat {
        0x1_0000_0000
    }

    proof fn lemma_rank(a: u32, b: u32) {
    }

    proof fn lemma_limit(a: u32) {
    }
}

impl Ranked for (usize, u32) {
    /// Pairs are ordered by their first member, and by their second where the first is the same.
    open spec fn rank(self) -> int {
        self.0 * 0x1_0000_0000 + self.1
    }

    open spec fn limit() -> nat {
        ((usize::MAX + 1) * 0x1_0000_0000) as nat
    }

    proof fn lemma_rank(a: (usize, u32), b: (usize, u32)) {
    }

    proof fn lemma_limit(a: (usize, u32)) {
    }
}

/// Whether `keys` holds the members of `dom`, each once, in ascending order.
pub open spec fn lists<K: Ranked>(keys: Seq<K>, dom: Set<K>) -> bool {
    &&& forall|i: int, j: int|
        0 <= i < j < keys.len() ==> (#[trigger] keys[i]).rank() < (#[trigger] keys[j]).rank()
    &&& forall|k: K| #[trigger] dom.contains(k) <==> keys.contains(k)
}

/// The members of `dom` in ascending order.
pub open spec fn listing<K: Ranked>(dom: Set<K>) -> Seq<K> {
    choose|keys: Seq<K>| lists(keys, dom)
}

/// The members of `dom` with numbers below `n`, in ascending order.
spec fn listed_below<K: Ranked>(dom: Set<K>, n: nat) -> Seq<K>
    decreases n,
{
    if n == 0 {
        Seq::empty()
    } else {
        let before = listed_below(dom, (n - 1) as nat);
        if exists|k: K| #[trigger] dom.contains(k) && k.rank() == n - 1 {
            before.push(choose|k: K| #[trigger] dom.contains(k) && k.rank() == n - 1)
        } else {
            before
        }
    }
}

proof fn lemma_listed_below<K: Ranked>(dom: Set<K>, n: nat)
    ensures
        ({
            let keys = listed_below(dom, n);
            &&& forall|i: int, j: int|
                0 <= i < j < keys.len() ==> (#[trigger] keys[i]).rank() < (
                #[trigger] keys[j]).rank()
            &&& forall|i: int|
                0 <= i < keys.len() ==> dom.contains(#[trigger] keys[i]) && keys[i].rank() < n
            &&& forall|k: K|
                #[trigger] dom.contains(k) && 0 <= k.rank() < n ==> keys.contains(k)
        }),
    decreases n,
{
    if n > 0 {
        let before = listed_below(dom, (n - 1) as nat);
        let keys = listed_below(dom, n);
        lemma_listed_below(dom, (n - 1) as nat);
        assert forall|k: K| #[trigger] dom.contains(k) && 0 <= k.rank() < n implies keys.contains(
            k,
        ) by {
            if k.rank() < n - 1 {
                let i = before.index_of(k);
                assert(keys[i] == k);
            } else {
                let last = choose|x: K| #[trigger] dom.contains(x) && x.rank() == n - 1;
                K::lemma_rank(k, last);
                assert(keys[before.len() as int] == k);
            }
        }
    }
}

/// Every set of keys has an ascending order.
pub proof fn lemma_listed<K: Ranked>(dom: Set<K>)
    ensures
        lists(listing(dom), dom),
{
    let keys = listed_below(dom, K::limit());
    lemma_listed_below(dom, K::limit());
    assert forall|k: K| #[trigger] dom.contains(k) <==> keys.contains(k) by {
        K::lemma_limit(k);
        if keys.contains(k) {
            let i = keys.index_of(k);
            assert(dom.contains(keys[i]));
        }
    }
    assert(lists(keys, dom));
}

proof fn lemma_same_prefix<K: Ranked>(a: Seq<K>, b: Seq<K>, dom: Set<K>, n: int)
    requires
        lists(a, dom),
        lists(b, dom),
        0 <= n <= a.len(),
        n <= b.len(),
    ensures
        forall|i: int| 0 <= i < n ==> a[i] == b[i],
    decreases n,
{
    if n > 0 {
        let last = n - 1;
        lemma_same_prefix(a, b, dom, last);
        assert(dom.contains(a[last]));
        assert(dom.contains(b[last]));
        let j = b.index_of(a[last]);
        let k = a.index_of(b[last]);
        assert(b[j] == a[last] && a[k] == b[last]);
        if j < last {
            assert(a[j] == a[last]);
        }
        if k < last {
            assert(b[k] == b[last]);
        }
        assert(j >= last && k >= last);
        assert(a[last].rank() == b[last].rank());
        K::lemma_rank(a[last], b[last]);
    }
}

/// There is one ascending order only.
pub proof fn lemma_listing<K: Ranked>(keys: Seq<K>, dom: Set<K>)
    requires
        lists(keys, dom),
    ensures
        listing(dom) == keys,
{
    let other = listing(dom);
    assert(lists(other, dom));
    if keys.len() < other.len() {
        lemma_same_prefix(keys, other, dom, keys.len() as int);
        let extra = other[keys.len() as int];
        assert(dom.contains(extra));
        let j = keys.index_of(extra);
        assert(other[j] == extra);
    } else if other.len() < keys.len() {
        lemma_same_prefix(keys, other, dom, other.len() as int);
        let extra = keys[other.len() as int];
        assert(dom.contains(extra));
        let j = other.index_of(extra);
        assert(keys[j] == extra);
    } else {
        lemma_same_prefix(keys, other, dom, keys.len() as int);
        assert(keys =~= other);
    }
}

proof fn lemma_positions_ascend(keys: Seq<usize>)
    requires
        vstd::std_specs::btree::increasing_seq(keys),
    ensures
        forall|i: int, j: int|
            0 <= i < j < keys.len() ==> (#[trigger] keys[i]).rank() < (#[trigger] keys[j]).rank(),
{
    assert forall|i: int, j: int| 0 <= i < j < keys.len() implies (#[trigger] keys[i]).rank() < (
    #[trigger] keys[j]).rank() by {
        assert(keys[i].cmp_spec(&keys[j]) is Less);
    }
}

proof fn lemma_ids_ascend(keys: Seq<u32>)
    requires
        vstd::std_specs::btree::increasing_seq(keys),
    ensures
        forall|i: int, j: int|
            0 <= i < j < keys.len() ==> (#[trigger] keys[i]).rank() < (#[trigger] keys[j]).rank(),
{
    assert forall|i: int, j: int| 0 <= i < j < keys.len() implies (#[trigger] keys[i]).rank() < (
    #[trigger] keys[j]).rank() by {
        assert(keys[i].cmp_spec(&keys[j]) is Less);
    }
}

/// The keys of `m`, in ascending order.
pub fn positions<V>(m: &BTreeMap<usize, V>) -> (r: Vec<usize>)
    ensures
        lists(r@, m@.dom()),
        r@ == listing(m@.dom()),
{
    let mut r: Vec<usize> = Vec::new();
    let entries = m.iter();
    let ghost all = entries.remaining();
    for entry in it: entries
        invariant
            it.seq() == all,
            r@ == all.take(it.index() as int).map_values(|e: (&usize, &V)| *e.0),
    {
        r.push(*entry.0);
        assert(all.take(it.index() + 1).drop_last() =~= all.take(it.index() as int));
    }
    proof {
        let keys = all.map_values(|e: (&usize, &V)| *e.0);
        assert(r@ =~= keys);
        assert(vstd::std_specs::btree::increasing_seq(keys));
        lemma_positions_ascend(r@);
        assert forall|k: usize| #[trigger] m@.dom().contains(k) <==> r@.contains(k) by {
            if m@.dom().contains(k) {
                assert(m@.contains_key(k));
                let i = all.index_of((&k, &m@[k]));
                assert(r@[i] == k);
            }
            if r@.contains(k) {
                let i = r@.index_of(k);
                assert(m@.contains_key(*all[i].0));
            }
        }
        lemma_listing(r@, m@.dom());
    }
    r
}

/// The keys of `m`, in ascending order.
pub fn pane_ids<V>(m: &BTreeMap<u32, V>) -> (r: Vec<u32>)
    ensures
        lists(r@, m@.dom()),
        r@ == listing(m@.dom()),
{
    let mut r: Vec<u32> = Vec::new();
    let entries = m.iter();
    let ghost all = entries.remaining();
    for entry in it: entries
        invariant
            it.seq() == all,
            r@ == all.take(it.index() as int).map_values(|e: (&u32, &V)| *e.0),
    {
        r.push(*entry.0);
        assert(all.take(it.index() + 1).drop_last() =~= all.take(it.index() as int));
    }
    proof {
        let keys = all.map_values(|e: (&u32, &V)| *e.0);
        assert(r@ =~= keys);
        assert(vstd::std_specs::btree::increasing_seq(keys));
        lemma_ids_ascend(r@);
        assert forall|k: u32| #[trigger] m@.dom().contains(k) <==> r@.contains(k) by {
            if m@.dom().contains(k) {
                assert(m@.contains_key(k));
                let i = all.index_of((&k, &m@[k]));
                assert(r@[i] == k);
            }
            if r@.contains(k) {
                let i = r@.index_of(k);
                assert(m@.contains_key(*all[i].0));
            }
        }
        lemma_listing(r@, m@.dom());
    }
    r
}

} // verus!
