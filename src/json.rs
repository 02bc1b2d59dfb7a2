//! A JSON document as the library reads it, and lookups on JSON objects.

use vstd::prelude::*;

verus! {

/// A JSON value.
///
/// A number is kept as its value where that is a non-negative integer that fits in `u64`,
/// and as `None` otherwise: that is all the configuration formats here read of a number.
pub enum Json {
    Null,
    Bool(bool),
    Number(Option<u64>),
    String(String),
    Array(Vec<Json>),
    Object(Vec<(String, Json)>),
}

/// Index of the first member of `members` at or after `i` whose key is `key`, or the length.
pub open spec fn find_member_from(members: Seq<(String, Json)>, key: Seq<char>, i: int) -> int
    decreases members.len() - i,
{
    if i >= members.len() {
        members.len() as int
    } else if members[i].0@ == key {
        i
    } else {
        find_member_from(members, key, i + 1)
    }
}

/// Index of the first member whose key is `key`, or the length.
pub open spec fn find_member(members: Seq<(String, Json)>, key: Seq<char>) -> int {
    find_member_from(members, key, 0)
}

/// The value of the first member whose key is `key`.
pub open spec fn member(members: Seq<(String, Json)>, key: Seq<char>) -> Option<Json> {
    let i = find_member(members, key);
    if i < members.len() {
        Some(members[i].1)
    } else {
        None
    }
}

/// `members` without the first member whose key is `key`.
pub open spec fn without_member(members: Seq<(String, Json)>, key: Seq<char>) -> Seq<
    (String, Json),
> {
    let i = find_member(members, key);
    if i < members.len() {
        members.remove(i)
    } else {
        members
    }
}

proof fn lemma_find_member_from(members: Seq<(String, Json)>, key: Seq<char>, i: int)
    requires
        0 <= i <= members.len(),
    ensures
        i <= find_member_from(members, key, i) <= members.len(),
        find_member_from(members, key, i) < members.len() ==> members[find_member_from(
            members,
            key,
            i,
        )].0@ == key,
        forall|j: int| i <= j < find_member_from(members, key, i) ==> (#[trigger] members[j]).0@ != key,
    decreases members.len() - i,
{
    if i < members.len() && members[i].0@ != key {
        lemma_find_member_from(members, key, i + 1);
    }
}

/// `f` is the first index at or after `i` whose key is `key`, or the length if none is.
proof fn lemma_find_member_is(members: Seq<(String, Json)>, key: Seq<char>, i: int, f: int)
    requires
        0 <= i <= f <= members.len(),
        forall|j: int| i <= j < f ==> (#[trigger] members[j]).0@ != key,
        f < members.len() ==> members[f].0@ == key,
    ensures
        find_member_from(members, key, i) == f,
    decreases f - i,
{
    if i < f {
        lemma_find_member_is(members, key, i + 1, f);
    }
}

/// Taking out one member leaves the members under other keys as they were.
pub proof fn lemma_member_without(members: Seq<(String, Json)>, gone: Seq<char>, key: Seq<char>)
    requires
        gone != key,
    ensures
        member(without_member(members, gone), key) == member(members, key),
        member(members, gone) is Some ==> without_member(members, gone).len() == members.len() - 1,
{
    lemma_find_member_from(members, gone, 0);
    lemma_find_member_from(members, key, 0);
    let i = find_member(members, gone);
    let f = find_member(members, key);
    if i < members.len() {
        let rest = members.remove(i);
        if f < i {
            lemma_find_member_is(rest, key, 0, f);
        } else if f < members.len() {
            assert(f != i);
            assert forall|j: int| 0 <= j < f - 1 implies (#[trigger] rest[j]).0@ != key by {
                if j >= i {
                    assert(rest[j] == members[j + 1]);
                }
            }
            lemma_find_member_is(rest, key, 0, f - 1);
        } else {
            assert forall|j: int| 0 <= j < rest.len() implies (#[trigger] rest[j]).0@ != key by {
                if j >= i {
                    assert(rest[j] == members[j + 1]);
                }
            }
            lemma_find_member_is(rest, key, 0, rest.len() as int);
        }
    }
}

/// Whether an object has a member named `key`.
pub fn has_member(members: &Vec<(String, Json)>, key: &str) -> (r: bool)
    ensures
        r == member(members@, key@) is Some,
{
    let k = key.to_owned();
    let mut i: usize = 0;
    while i < members.len()
        invariant
            i <= members@.len(),
            k@ == key@,
            find_member(members@, key@) == find_member_from(members@, key@, i as int),
        decreases members.len() - i,
    {
        if members[i].0 == k {
            proof {
                lemma_find_member_from(members@, key@, i as int);
            }
            return true;
        }
        i = i + 1;
    }
    false
}

/// Removes the first member named `key` from an object and returns its value.
pub fn take_member(members: &mut Vec<(String, Json)>, key: &str) -> (r: Option<Json>)
    ensures
        r == member(old(members)@, key@),
        final(members)@ == without_member(old(members)@, key@),
{
    let k = key.to_owned();
    let mut i: usize = 0;
    while i < members.len()
        invariant
            i <= members@.len(),
            k@ == key@,
            members@ == old(members)@,
            find_member(members@, key@) == find_member_from(members@, key@, i as int),
        decreases members.len() - i,
    {
        if members[i].0 == k {
            proof {
                lemma_find_member_from(members@, key@, i as int);
            }
            let (_, value) = members.remove(i);
            return Some(value);
        }
        i = i + 1;
    }
    None
}

} // verus!
