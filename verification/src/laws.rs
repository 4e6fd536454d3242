use vstd::prelude::*;
use crate::service::{apply_sets, lemma_sets_push, mget_listing};
use crate::storage::{lookup_or_empty, table_listing, StoreModel};
use crate::value::{KvpairModel, ValueModel};

verus! {

/// A (table, key) never written reads as absent everywhere: a lookup
/// reports `Empty`, an existence check reports false, a removal removes
/// nothing — and no write or removal under a different (table, key)
/// brings it into being. A fresh backend holds no key at all, so by
/// induction a never-written key stays absent for good.
pub proof fn lemma_never_written(
    m: StoreModel,
    t: Seq<char>,
    k: Seq<char>,
    t2: Seq<char>,
    k2: Seq<char>,
    v: ValueModel,
)
    requires
        !m.contains_key((t, k)),
        (t2, k2) != (t, k),
    ensures
        lookup_or_empty(m, t, k) == ValueModel::Empty,
        m.remove((t, k)) == m,
        !m.insert((t2, k2), v).contains_key((t, k)),
        !m.remove((t2, k2)).contains_key((t, k)),
{
    assert(m.remove((t, k)) =~= m);
}

/// Writing twice under one key: the second write reports the first
/// write's value as the previous one, and a lookup afterwards sees the
/// second value.
pub proof fn lemma_set_set_get(
    m: StoreModel,
    t: Seq<char>,
    k: Seq<char>,
    v1: ValueModel,
    v2: ValueModel,
)
    ensures
        lookup_or_empty(m.insert((t, k), v1), t, k) == v1,
        lookup_or_empty(m.insert((t, k), v1).insert((t, k), v2), t, k) == v2,
{
}

/// Removing a key just written reports the written value, and a lookup
/// afterwards reports `Empty`.
pub proof fn lemma_set_del_get(m: StoreModel, t: Seq<char>, k: Seq<char>, v: ValueModel)
    ensures
        lookup_or_empty(m.insert((t, k), v), t, k) == v,
        !m.insert((t, k), v).remove((t, k)).contains_key((t, k)),
        lookup_or_empty(m.insert((t, k), v).remove((t, k)), t, k) == ValueModel::Empty,
{
}

/// A whole-table listing taken after a write reports the written key
/// exactly once, with the written value: overwriting never duplicates
/// a key in the listing, and the latest value is the one shown.
pub proof fn lemma_listing_after_write(
    m: StoreModel,
    t: Seq<char>,
    k: Seq<char>,
    v: ValueModel,
    pairs: Seq<KvpairModel>,
)
    requires
        table_listing(m.insert((t, k), v), t, pairs),
    ensures
        exists|i: int| 0 <= i < pairs.len() && pairs[i] == (KvpairModel { key: k, value: v }),
        forall|i: int, j: int|
            0 <= i < pairs.len() && 0 <= j < pairs.len() && i != j ==> (#[trigger] pairs[i]).key
                != (#[trigger] pairs[j]).key,
{
    let m1 = m.insert((t, k), v);
    assert(m1.contains_key((t, k)));
    let i = choose|i: int| 0 <= i < pairs.len() && pairs[i].key == k;
    assert(pairs[i] == (KvpairModel { key: k, value: v }));
}

/// A multi-key lookup answers key for key: the result has one pair per
/// requested key, in the caller's order, carrying the key's current
/// value or `Empty` on a miss — misses never shorten the result.
pub proof fn lemma_mget_shape(m: StoreModel, t: Seq<char>, keys: Seq<Seq<char>>)
    ensures
        mget_listing(m, t, keys).len() == keys.len(),
        forall|i: int|
            0 <= i < keys.len() ==> #[trigger] mget_listing(m, t, keys)[i] == (KvpairModel {
                key: keys[i],
                value: lookup_or_empty(m, t, keys[i]),
            }),
{
}

/// Writes to pairwise distinct keys all persist: after the whole batch
/// is applied, every written key holds exactly the value written for
/// it, whatever else the batch did.
pub proof fn lemma_distinct_writes_all_persist(m: StoreModel, t: Seq<char>, pairs: Seq<KvpairModel>)
    requires
        forall|i: int, j: int|
            0 <= i < pairs.len() && 0 <= j < pairs.len() && i != j ==> (#[trigger] pairs[i]).key
                != (#[trigger] pairs[j]).key,
    ensures
        forall|i: int|
            0 <= i < pairs.len() ==> {
                &&& apply_sets(m, t, pairs).contains_key((t, (#[trigger] pairs[i]).key))
                &&& apply_sets(m, t, pairs)[(t, pairs[i].key)] == pairs[i].value
            },
    decreases pairs.len(),
{
    if pairs.len() > 0 {
        let s = pairs.drop_last();
        let x = pairs.last();
        assert(pairs =~= s.push(x));
        lemma_distinct_writes_all_persist(m, t, s);
        lemma_sets_push(m, t, s, x);
        assert forall|i: int| 0 <= i < pairs.len() implies {
            &&& apply_sets(m, t, pairs).contains_key((t, (#[trigger] pairs[i]).key))
            &&& apply_sets(m, t, pairs)[(t, pairs[i].key)] == pairs[i].value
        } by {
            if i < pairs.len() - 1 {
                assert(pairs[i] == s[i]);
                assert(pairs[i].key != x.key);
            } else {
                assert(pairs[i] == x);
            }
        };
    }
}

} // verus!
