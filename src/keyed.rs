//! Maps keyed by strings, kept as vectors of pairs without repeated keys.

use vstd::prelude::*;

verus! {

/// Index of the first pair at or after `i` whose key is `key`, or the length.
pub open spec fn find_key_from<V>(pairs: Seq<(String, V)>, key: Seq<char>, i: int) -> int
    decreases pairs.len() - i,
{
    if i >= pairs.len() {
        pairs.len() as int
    } else if pairs[i].0@ == key {
        i
    } else {
        find_key_from(pairs, key, i + 1)
    }
}

pub open spec fn find_key<V>(pairs: Seq<(String, V)>, key: Seq<char>) -> int {
    find_key_from(pairs, key, 0)
}

/// No key occurs twice.
pub open spec fn unique_keys<V>(pairs: Seq<(String, V)>) -> bool {
    forall|i: int, j: int|
        0 <= i < pairs.len() && 0 <= j < pairs.len() && i != j ==> pairs[i].0@ != pairs[j].0@
}

/// The pairs as a map.
pub open spec fn keyed_map<V>(pairs: Seq<(String, V)>) -> Map<Seq<char>, V> {
    Map::new(
        |k: Seq<char>| find_key(pairs, k) < pairs.len(),
        |k: Seq<char>| pairs[find_key(pairs, k)].1,
    )
}

proof fn lemma_find_key_from<V>(pairs: Seq<(String, V)>, key: Seq<char>, i: int)
    requires
        0 <= i <= pairs.len(),
    ensures
        i <= find_key_from(pairs, key, i) <= pairs.len(),
        find_key_from(pairs, key, i) < pairs.len() ==> pairs[find_key_from(pairs, key, i)].0@
            == key,
        forall|j: int| i <= j < find_key_from(pairs, key, i) ==> pairs[j].0@ != key,
    decreases pairs.len() - i,
{
    if i < pairs.len() && pairs[i].0@ != key {
        lemma_find_key_from(pairs, key, i + 1);
    }
}

/// Without repeated keys, the pair of `key` is the one that carries it.
pub proof fn lemma_find_key<V>(pairs: Seq<(String, V)>, key: Seq<char>)
    requires
        unique_keys(pairs),
    ensures
        0 <= find_key(pairs, key) <= pairs.len(),
        find_key(pairs, key) < pairs.len() ==> pairs[find_key(pairs, key)].0@ == key,
        forall|j: int| 0 <= j < pairs.len() && pairs[j].0@ == key ==> find_key(pairs, key) == j,
{
    lemma_find_key_from(pairs, key, 0);
}

/// Without repeated keys, each pair is what its key maps to.
pub proof fn lemma_key_at<V>(pairs: Seq<(String, V)>, j: int)
    requires
        unique_keys(pairs),
        0 <= j < pairs.len(),
    ensures
        keyed_map(pairs).contains_key(pairs[j].0@),
        keyed_map(pairs)[pairs[j].0@] == pairs[j].1,
{
    lemma_find_key(pairs, pairs[j].0@);
}

/// The index of the first pair with key `key`, or the length.
pub fn key_position<V>(pairs: &Vec<(String, V)>, key: &str) -> (r: usize)
    ensures
        r == find_key(pairs@, key@),
{
    let k = key.to_owned();
    let mut i: usize = 0;
    while i < pairs.len()
        invariant
            i <= pairs@.len(),
            k@ == key@,
            find_key(pairs@, key@) == find_key_from(pairs@, key@, i as int),
        decreases pairs.len() - i,
    {
        if pairs[i].0 == k {
            return i;
        }
        i = i + 1;
    }
    i
}

/// The value of `key`.
pub fn keyed_get<'a, V>(pairs: &'a Vec<(String, V)>, key: &str) -> (r: Option<&'a V>)
    ensures
        match r {
            Some(v) => keyed_map(pairs@).contains_key(key@) && *v == keyed_map(pairs@)[key@],
            None => !keyed_map(pairs@).contains_key(key@),
        },
{
    let i = key_position(pairs, key);
    proof {
        lemma_find_key_from(pairs@, key@, 0);
    }
    if i < pairs.len() {
        Some(&pairs[i].1)
    } else {
        None
    }
}

/// Drops the pair of `key`; returns whether there was one.
pub fn keyed_remove<V>(pairs: &mut Vec<(String, V)>, key: &str) -> (r: bool)
    requires
        unique_keys(old(pairs)@),
    ensures
        unique_keys(final(pairs)@),
        r == keyed_map(old(pairs)@).contains_key(key@),
        keyed_map(final(pairs)@) == keyed_map(old(pairs)@).remove(key@),
{
    let i = key_position(pairs, key);
    proof {
        lemma_find_key(pairs@, key@);
    }
    if i < pairs.len() {
        let ghost before = pairs@;
        pairs.remove(i);
        proof {
            let after = pairs@;
            assert(unique_keys(after)) by {
                assert forall|a: int, b: int|
                    0 <= a < after.len() && 0 <= b < after.len() && a != b implies after[a].0@
                    != after[b].0@ by {
                    let a0 = if a < i { a } else { a + 1 };
                    let b0 = if b < i { b } else { b + 1 };
                    assert(after[a] == before[a0]);
                    assert(after[b] == before[b0]);
                }
            }
            assert forall|u: Seq<char>| #[trigger]
                keyed_map(after).contains_key(u) == keyed_map(before).remove(
                    key@,
                ).contains_key(u) && (keyed_map(after).contains_key(u) ==> keyed_map(
                    after,
                )[u] == keyed_map(before).remove(key@)[u]) by {
                lemma_find_key(after, u);
                lemma_find_key(before, u);
                let ja = find_key(after, u);
                if ja < after.len() {
                    let j0 = if ja < i { ja } else { ja + 1 };
                    assert(after[ja] == before[j0]);
                }
                let jb = find_key(before, u);
                if jb < before.len() && u != key@ {
                    let j1 = if jb < i { jb } else { jb - 1 };
                    assert(after[j1] == before[jb]);
                }
            }
            assert(keyed_map(after) =~= keyed_map(before).remove(key@));
        }
        true
    } else {
        proof {
            assert(keyed_map(pairs@) =~= keyed_map(pairs@).remove(key@));
        }
        false
    }
}


/// Sets the value of `key`, replacing any it had.
pub fn keyed_insert<V>(pairs: &mut Vec<(String, V)>, key: String, value: V)
    requires
        unique_keys(old(pairs)@),
    ensures
        unique_keys(final(pairs)@),
        keyed_map(final(pairs)@) == keyed_map(old(pairs)@).insert(key@, value),
{
    let i = key_position(pairs, key.as_str());
    let ghost before = pairs@;
    let ghost kv = key@;
    proof {
        lemma_find_key(before, kv);
    }
    if i < pairs.len() {
        let (old_id, _) = pairs.remove(i);
        pairs.insert(i, (old_id, value));
        proof {
            let after = pairs@;
            assert forall|j: int| 0 <= j < after.len() implies #[trigger] after[j].0@
                == before[j].0@ by {}
            assert(unique_keys(after));
            assert forall|u: Seq<char>| #[trigger]
                keyed_map(after).contains_key(u) == keyed_map(before).insert(
                    kv,
                    value,
                ).contains_key(u) && (keyed_map(after).contains_key(u) ==> keyed_map(
                    after,
                )[u] == keyed_map(before).insert(kv, value)[u]) by {
                lemma_find_key(after, u);
                lemma_find_key(before, u);
                assert(after[i as int].1 == value);
                assert(after[i as int].0@ == kv);
                let jb = find_key(before, u);
                if jb < before.len() && jb != i {
                    assert(after[jb] == before[jb]);
                }
            }
            assert(keyed_map(after) =~= keyed_map(before).insert(kv, value));
        }
    } else {
        let ghost pair = (key, value);
        pairs.push((key, value));
        proof {
            let after = pairs@;
            assert forall|j: int| 0 <= j < before.len() implies #[trigger] after[j] == before[j] by {}
            assert(unique_keys(after));
            assert forall|u: Seq<char>| #[trigger]
                keyed_map(after).contains_key(u) == keyed_map(before).insert(
                    kv,
                    value,
                ).contains_key(u) && (keyed_map(after).contains_key(u) ==> keyed_map(
                    after,
                )[u] == keyed_map(before).insert(kv, value)[u]) by {
                lemma_find_key(after, u);
                lemma_find_key(before, u);
                let jb = find_key(before, u);
                let last = before.len() as int;
                assert(after[last] == pair);
                if jb < before.len() {
                    assert(after[jb] == before[jb]);
                }
                let ja = find_key(after, u);
                if ja < before.len() {
                    assert(after[ja] == before[ja]);
                }
            }
            assert(keyed_map(after) =~= keyed_map(before).insert(kv, value));
        }
    }
}

} // verus!
