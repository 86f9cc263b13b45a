//! Stable ordering of texts: the permutation that sorts a list of keys and
//! keeps equal keys in the order they came in.

use crate::text::{le, lemma_lex_le_total, lemma_lex_le_transitive, lex_le};
use vstd::prelude::*;

verus! {

/// The texts that a vector of strings holds.
pub open spec fn texts(v: Seq<String>) -> Seq<Seq<char>> {
    v.map_values(|s: String| s@)
}

/// The positions that a vector of indices holds.
pub open spec fn positions(v: Seq<usize>) -> Seq<int> {
    v.map_values(|i: usize| i as int)
}

/// Where `key` goes in `order`: right behind the last position whose key is at
/// or before it, and at the front if there is none.
pub open spec fn slot(keys: Seq<Seq<char>>, order: Seq<int>, key: Seq<char>) -> int
    decreases order.len(),
{
    if order.len() == 0 {
        0
    } else if lex_le(keys[order.last()], key) {
        order.len() as int
    } else {
        slot(keys, order.drop_last(), key)
    }
}

/// The stable order of the first `n` keys: the positions `0..n`, arranged so
/// that their keys ascend and equal keys keep their relative order.
pub open spec fn sort_prefix(keys: Seq<Seq<char>>, n: nat) -> Seq<int>
    decreases n,
{
    if n == 0 {
        Seq::empty()
    } else {
        let rest = sort_prefix(keys, (n - 1) as nat);
        rest.insert(slot(keys, rest, keys[n - 1]), n - 1)
    }
}

/// The stable order of all the keys.
pub open spec fn sort_order(keys: Seq<Seq<char>>) -> Seq<int> {
    sort_prefix(keys, keys.len())
}

/// `order` lists positions of `keys` with ascending keys, and positions with
/// equal keys in ascending order.
pub open spec fn ascending(keys: Seq<Seq<char>>, order: Seq<int>) -> bool {
    forall|p: int, q: int|
        0 <= p < q < order.len() ==> {
            &&& lex_le(keys[#[trigger] order[p]], keys[#[trigger] order[q]])
            &&& lex_le(keys[order[q]], keys[order[p]]) ==> order[p] < order[q]
        }
}

/// `order` holds each of the positions `0..n` exactly once.
pub open spec fn is_permutation(order: Seq<int>, n: nat) -> bool {
    &&& order.len() == n
    &&& forall|p: int| 0 <= p < order.len() ==> 0 <= #[trigger] order[p] < n
    &&& forall|p: int, q: int|
        0 <= p < q < order.len() ==> #[trigger] order[p] != #[trigger] order[q]
    &&& forall|k: int| 0 <= k < n ==> #[trigger] order.contains(k)
}

/// The keys are already in ascending order.
pub open spec fn keys_ascend(keys: Seq<Seq<char>>) -> bool {
    forall|p: int, q: int| 0 <= p < q < keys.len() ==> lex_le(#[trigger] keys[p], #[trigger] keys[q])
}

/// What `slot` returns splits the order: every key before it is at or before
/// `key`, provided the one just before it is, and every key from it on comes
/// strictly after `key`.
pub proof fn lemma_slot(keys: Seq<Seq<char>>, order: Seq<int>, key: Seq<char>)
    ensures
        0 <= slot(keys, order, key) <= order.len(),
        slot(keys, order, key) > 0 ==> lex_le(keys[order[slot(keys, order, key) - 1]], key),
        forall|p: int|
            slot(keys, order, key) <= p < order.len() ==> !lex_le(keys[#[trigger] order[p]], key),
    decreases order.len(),
{
    if order.len() > 0 && !lex_le(keys[order.last()], key) {
        let front = order.drop_last();
        lemma_slot(keys, front, key);
        assert forall|p: int| slot(keys, order, key) <= p < order.len() implies !lex_le(
            keys[#[trigger] order[p]],
            key,
        ) by {
            if p < front.len() {
                assert(order[p] == front[p]);
            }
        }
    }
}

/// Once every position from `j` on is known to come after `key`, the slot is
/// decided by the first `j` positions alone.
proof fn lemma_slot_skips_tail(keys: Seq<Seq<char>>, order: Seq<int>, key: Seq<char>, j: int)
    requires
        0 <= j <= order.len(),
        forall|p: int| j <= p < order.len() ==> !lex_le(keys[#[trigger] order[p]], key),
    ensures
        slot(keys, order, key) == slot(keys, order.take(j), key),
    decreases order.len() - j,
{
    if j < order.len() {
        assert(order.drop_last().take(j) =~= order.take(j));
        lemma_slot_skips_tail(keys, order.drop_last(), key, j);
    } else {
        assert(order.take(j) =~= order);
    }
}

/// The stable order of `n` keys is a permutation of their positions, with
/// ascending keys and ties in the order they came in.
pub proof fn lemma_sort_prefix(keys: Seq<Seq<char>>, n: nat)
    requires
        n <= keys.len(),
    ensures
        is_permutation(sort_prefix(keys, n), n),
        ascending(keys, sort_prefix(keys, n)),
    decreases n,
{
    if n > 0 {
        let rest = sort_prefix(keys, (n - 1) as nat);
        let key = keys[n - 1];
        let s = slot(keys, rest, key);
        let order = sort_prefix(keys, n);
        lemma_sort_prefix(keys, (n - 1) as nat);
        lemma_slot(keys, rest, key);
        assert forall|p: int, q: int| 0 <= p < q < order.len() implies {
            &&& lex_le(keys[#[trigger] order[p]], keys[#[trigger] order[q]])
            &&& lex_le(keys[order[q]], keys[order[p]]) ==> order[p] < order[q]
        } by {
            if q == s {
                if p < s - 1 {
                    lemma_lex_le_transitive(keys[rest[p]], keys[rest[s - 1]], key);
                }
            } else if p == s {
                lemma_lex_le_total(keys[rest[q - 1]], key);
            }
        }
        assert forall|k: int| 0 <= k < n implies #[trigger] order.contains(k) by {
            if k == n - 1 {
                assert(order[s] == k);
            } else {
                assert(rest.contains(k));
                let p0 = choose|p0: int| 0 <= p0 < rest.len() && rest[p0] == k;
                let p = if p0 < s { p0 } else { p0 + 1 };
                assert(order[p] == k);
            }
        }
    }
}

/// Keys that already ascend are left where they are.
pub proof fn lemma_sort_prefix_of_ascending(keys: Seq<Seq<char>>, n: nat)
    requires
        n <= keys.len(),
        keys_ascend(keys),
    ensures
        sort_prefix(keys, n) == Seq::new(n, |i: int| i),
    decreases n,
{
    if n > 0 {
        lemma_sort_prefix_of_ascending(keys, (n - 1) as nat);
    }
}

/// A position that splits the order as `slot` does is the slot.
proof fn lemma_slot_is(keys: Seq<Seq<char>>, order: Seq<int>, key: Seq<char>, p: int)
    requires
        0 <= p <= order.len(),
        p > 0 ==> lex_le(keys[order[p - 1]], key),
        forall|q: int| p <= q < order.len() ==> !lex_le(keys[#[trigger] order[q]], key),
    ensures
        slot(keys, order, key) == p,
{
    lemma_slot_skips_tail(keys, order, key, p);
}

/// There is one stable order only: an arrangement of the positions `0..n` with
/// ascending keys, and with equal keys in ascending position, is the stable
/// order of the first `n` keys.
pub proof fn lemma_stable_order_is_unique(keys: Seq<Seq<char>>, n: nat, order: Seq<int>)
    requires
        n <= keys.len(),
        is_permutation(order, n),
        ascending(keys, order),
    ensures
        order == sort_prefix(keys, n),
    decreases n,
{
    if n > 0 {
        let last = n - 1;
        assert(order.contains(last));
        let p = choose|p: int| 0 <= p < order.len() && order[p] == last;
        let rest = order.remove(p);
        assert forall|k: int| 0 <= k < n - 1 implies #[trigger] rest.contains(k) by {
            assert(order.contains(k));
            let q0 = choose|q0: int| 0 <= q0 < order.len() && order[q0] == k;
            let q = if q0 < p { q0 } else { q0 - 1 };
            assert(rest[q] == k);
        }
        lemma_stable_order_is_unique(keys, (n - 1) as nat, rest);
        lemma_slot_is(keys, rest, keys[last], p);
    }
}

/// The stable order of the keys: the positions `0..keys.len()`, by ascending
/// key, positions with equal keys in ascending order.
pub fn stable_order(keys: &Vec<String>) -> (order: Vec<usize>)
    ensures
        positions(order@) == sort_order(texts(keys@)),
{
    let ghost all = texts(keys@);
    let mut order: Vec<usize> = Vec::new();
    let mut i: usize = 0;
    while i < keys.len()
        invariant
            i <= keys.len(),
            all == texts(keys@),
            positions(order@) == sort_prefix(all, i as nat),
        decreases keys.len() - i,
    {
        let ghost before = positions(order@);
        proof {
            lemma_sort_prefix(all, i as nat);
            assert forall|p: int| 0 <= p < order.len() implies #[trigger] order[p] < i by {
                assert(before[p] == order[p] as int);
            }
        }
        let mut j: usize = order.len();
        while j > 0 && !le(keys[order[j - 1]].as_str(), keys[i].as_str())
            invariant
                j <= order.len(),
                i < keys.len(),
                all == texts(keys@),
                before == positions(order@),
                forall|p: int| 0 <= p < order.len() ==> #[trigger] order[p] < i,
                forall|p: int| j <= p < before.len() ==> !lex_le(all[#[trigger] before[p]], all[i as int]),
            decreases j,
        {
            j = j - 1;
        }
        proof {
            lemma_slot_is(all, before, all[i as int], j as int);
        }
        order.insert(j, i);
        i = i + 1;
    }
    order
}

} // verus!
