//! Laws of the container, stated over its abstract contents.
//!
//! The contracts in [`crate::map`] describe each operation through the view
//! of an [`ErgoMap`](crate::map::ErgoMap): a [`Map`] from raw keys to
//! values. The proof functions here state what follows for sequences of
//! operations — freshness, staleness, rejection and overwrite — in the same
//! terms, so that a caller can chain them with the contracts.

use vstd::prelude::*;

verus! {

/// A handle returned by an insertion resolves, immediately afterwards, to
/// the very value that was inserted. Equally: once a value is stored under
/// a key, that key is in use, so a later non-forcing insertion under the
/// same key — caller-supplied or content-derived — is rejected by the
/// inserting operations' contracts and leaves this value in place.
pub proof fn lemma_inserted_handle_resolves<T>(m: Map<u128, T>, raw: u128, v: T)
    ensures
        m.insert(raw, v).contains_key(raw),
        m.insert(raw, v)[raw] == v,
{
}

/// After a removal the removed handle no longer resolves: membership on the
/// new contents is false, and a second removal of the same handle leaves
/// the contents unchanged — it can only report absence.
pub proof fn lemma_removed_handle_is_stale<T>(m: Map<u128, T>, raw: u128)
    ensures
        !m.remove(raw).contains_key(raw),
        m.remove(raw).remove(raw) == m.remove(raw),
{
    assert(m.remove(raw).remove(raw) =~= m.remove(raw));
}

/// A forcing insertion under a key already in use replaces the stored
/// value: the handle afterwards resolves to the newer value, and the number
/// of entries does not change.
pub proof fn lemma_forced_insert_overwrites<T>(m: Map<u128, T>, raw: u128, v1: T, v2: T)
    ensures
        m.insert(raw, v1).insert(raw, v2).contains_key(raw),
        m.insert(raw, v1).insert(raw, v2)[raw] == v2,
        m.insert(raw, v1).insert(raw, v2).dom() == m.insert(raw, v1).dom(),
{
    assert(m.insert(raw, v1).insert(raw, v2).dom() =~= m.insert(raw, v1).dom());
}

/// Every key that one contents-state holds, every later state of a chain of
/// insertions holds too.
proof fn lemma_insert_chain_monotone<T>(
    maps: Seq<Map<u128, T>>,
    raws: Seq<u128>,
    values: Seq<T>,
    i: int,
    j: int,
)
    requires
        maps.len() == raws.len() + 1,
        values.len() == raws.len(),
        forall|n: int|
            0 <= n < raws.len() ==> maps[n + 1] == (#[trigger] maps[n]).insert(raws[n], values[n]),
        0 <= i <= j <= raws.len(),
    ensures
        forall|k: u128| #[trigger] maps[i].contains_key(k) ==> maps[j].contains_key(k),
    decreases j - i,
{
    if i < j {
        lemma_insert_chain_monotone(maps, raws, values, i, j - 1);
        assert(maps[j] == maps[j - 1].insert(raws[j - 1], values[j - 1]));
    }
}

/// Handles minted by a chain of insertions are pairwise distinct, provided
/// each insertion's key was fresh for the contents of that moment: the
/// contents only grow along the chain, so an earlier key is still present —
/// and hence not fresh — at every later step.
///
/// `maps` are the contents before each insertion (and after the last one),
/// `raws` the minted raw keys, `values` the inserted values.
pub proof fn lemma_fresh_handles_distinct<T>(
    maps: Seq<Map<u128, T>>,
    raws: Seq<u128>,
    values: Seq<T>,
)
    requires
        maps.len() == raws.len() + 1,
        values.len() == raws.len(),
        forall|n: int| 0 <= n < raws.len() ==> !(#[trigger] maps[n]).contains_key(raws[n]),
        forall|n: int|
            0 <= n < raws.len() ==> maps[n + 1] == (#[trigger] maps[n]).insert(raws[n], values[n]),
    ensures
        forall|i: int, j: int| 0 <= i < j < raws.len() ==> raws[i] != raws[j],
{
    assert forall|i: int, j: int| 0 <= i < j < raws.len() implies raws[i] != raws[j] by {
        assert(maps[i + 1] == maps[i].insert(raws[i], values[i]));
        assert(maps[i + 1].contains_key(raws[i]));
        lemma_insert_chain_monotone(maps, raws, values, i + 1, j);
        assert(maps[j].contains_key(raws[i]));
        assert(!maps[j].contains_key(raws[j]));
    }
}

} // verus!
