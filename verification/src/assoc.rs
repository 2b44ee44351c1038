//! Lists of pairs as maps.

use vstd::prelude::*;

verus! {

/// The map that a list of pairs stands for.
pub open spec fn assoc<K, V>(pairs: Seq<(K, V)>) -> Map<K, V>
    decreases pairs.len(),
{
    if pairs.len() == 0 {
        Map::empty()
    } else {
        assoc(pairs.drop_last()).insert(pairs.last().0, pairs.last().1)
    }
}

/// Whether no key occurs twice.
pub open spec fn has_distinct_keys<K, V>(pairs: Seq<(K, V)>) -> bool {
    forall|i: int, j: int| 0 <= i < j < pairs.len() ==> (#[trigger] pairs[i]).0 != (#[trigger] pairs[j]).0
}

/// The keys of the map are those of the list, and each has its value.
pub proof fn lemma_assoc<K, V>(pairs: Seq<(K, V)>)
    requires
        has_distinct_keys(pairs),
    ensures
        forall|k: K|
            #[trigger] assoc(pairs).contains_key(k) <==> exists|i: int|
                0 <= i < pairs.len() && (#[trigger] pairs[i]).0 == k,
        forall|i: int|
            0 <= i < pairs.len() ==> assoc(pairs).contains_key((#[trigger] pairs[i]).0) && assoc(
                pairs,
            )[pairs[i].0] == pairs[i].1,
    decreases pairs.len(),
{
    if pairs.len() > 0 {
        let init = pairs.drop_last();
        assert forall|i: int, j: int| 0 <= i < j < init.len() implies (#[trigger] init[i]).0 != (
        #[trigger] init[j]).0 by {
            assert(init[i] == pairs[i]);
            assert(init[j] == pairs[j]);
        }
        lemma_assoc(init);
        assert forall|k: K| #[trigger] assoc(pairs).contains_key(k) implies exists|i: int|
            0 <= i < pairs.len() && (#[trigger] pairs[i]).0 == k by {
            if k == pairs.last().0 {
                assert(pairs[pairs.len() - 1].0 == k);
            } else {
                assert(assoc(init).contains_key(k));
                let i = choose|i: int| 0 <= i < init.len() && (#[trigger] init[i]).0 == k;
                assert(pairs[i].0 == k);
            }
        }
        assert forall|i: int| 0 <= i < pairs.len() implies assoc(pairs).contains_key(
            (#[trigger] pairs[i]).0,
        ) && assoc(pairs)[pairs[i].0] == pairs[i].1 by {
            if i < init.len() {
                assert(init[i] == pairs[i]);
                assert(pairs[i].0 != pairs[pairs.len() - 1].0);
            }
        }
    }
}

/// Replacing a value in the list replaces it in the map.
pub proof fn lemma_assoc_update<K, V>(pairs: Seq<(K, V)>, at: int, value: V)
    requires
        has_distinct_keys(pairs),
        0 <= at < pairs.len(),
    ensures
        has_distinct_keys(pairs.update(at, (pairs[at].0, value))),
        assoc(pairs.update(at, (pairs[at].0, value))) == assoc(pairs).insert(pairs[at].0, value),
{
    let after = pairs.update(at, (pairs[at].0, value));
    assert(has_distinct_keys(after));
    lemma_assoc(pairs);
    lemma_assoc(after);
    let expected = assoc(pairs).insert(pairs[at].0, value);
    assert forall|k: K| #[trigger] assoc(after).contains_key(k) <==> expected.contains_key(k) by {
        if assoc(after).contains_key(k) {
            let i = choose|i: int| 0 <= i < after.len() && (#[trigger] after[i]).0 == k;
            assert(pairs[i].0 == k);
        }
        if expected.contains_key(k) {
            if k == pairs[at].0 {
                assert(after[at].0 == k);
            } else {
                let i = choose|i: int| 0 <= i < pairs.len() && (#[trigger] pairs[i]).0 == k;
                assert(after[i].0 == k);
            }
        }
    }
    assert forall|k: K| #[trigger] assoc(after).contains_key(k) implies assoc(after)[k]
        == expected[k] by {
        let i = choose|i: int| 0 <= i < after.len() && (#[trigger] after[i]).0 == k;
        assert(assoc(after)[after[i].0] == after[i].1);
        assert(assoc(pairs)[pairs[i].0] == pairs[i].1);
        if i != at {
            assert(pairs[i].0 != pairs[at].0) by {
                if i < at {
                    assert(pairs[i].0 != pairs[at].0);
                } else {
                    assert(pairs[at].0 != pairs[i].0);
                }
            }
        }
    }
    assert(assoc(after) =~= expected);
}

/// A pair with a new key at the end of the list is a new key of the map.
pub proof fn lemma_assoc_push<K, V>(pairs: Seq<(K, V)>, key: K, value: V)
    requires
        has_distinct_keys(pairs),
        forall|i: int| 0 <= i < pairs.len() ==> (#[trigger] pairs[i]).0 != key,
    ensures
        has_distinct_keys(pairs.push((key, value))),
        assoc(pairs.push((key, value))) == assoc(pairs).insert(key, value),
{
    assert(pairs.push((key, value)).drop_last() == pairs);
}

/// A pair taken out of the list is a key taken out of the map.
pub proof fn lemma_assoc_remove<K, V>(pairs: Seq<(K, V)>, at: int)
    requires
        has_distinct_keys(pairs),
        0 <= at < pairs.len(),
    ensures
        has_distinct_keys(pairs.remove(at)),
        assoc(pairs.remove(at)) == assoc(pairs).remove(pairs[at].0),
{
    let after = pairs.remove(at);
    let key = pairs[at].0;
    assert forall|i: int| 0 <= i < after.len() implies #[trigger] after[i] == pairs[if i < at {
        i
    } else {
        i + 1
    }] by {}
    assert(has_distinct_keys(after));
    lemma_assoc(pairs);
    lemma_assoc(after);
    let expected = assoc(pairs).remove(key);
    assert forall|k: K| #[trigger] assoc(after).contains_key(k) <==> expected.contains_key(k) by {
        if assoc(after).contains_key(k) {
            let i = choose|i: int| 0 <= i < after.len() && (#[trigger] after[i]).0 == k;
            let j = if i < at {
                i
            } else {
                i + 1
            };
            assert(pairs[j].0 == k);
            if j < at {
                assert(pairs[j].0 != pairs[at].0);
            } else {
                assert(pairs[at].0 != pairs[j].0);
            }
        }
        if expected.contains_key(k) {
            let j = choose|j: int| 0 <= j < pairs.len() && (#[trigger] pairs[j]).0 == k;
            let i = if j < at {
                j
            } else {
                j - 1
            };
            assert(after[i].0 == k);
        }
    }
    assert forall|k: K| #[trigger] assoc(after).contains_key(k) implies assoc(after)[k]
        == expected[k] by {
        let i = choose|i: int| 0 <= i < after.len() && (#[trigger] after[i]).0 == k;
        assert(assoc(after)[after[i].0] == after[i].1);
        let j = if i < at {
            i
        } else {
            i + 1
        };
        assert(assoc(pairs)[pairs[j].0] == pairs[j].1);
    }
    assert(assoc(after) =~= expected);
}

} // verus!
