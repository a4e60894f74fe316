//! Specification vocabulary for tables: finite sequences of rows addressed by
//! a string key.
//!
//! A table is modelled as a `Seq<T>` together with a key projection
//! `spec_fn(T) -> Seq<char>`.  The functions here say what it means for a key
//! to be present, which row it names, and that keys are unique; the lemmas
//! relate those notions across `push` and `update`, the only two ways the
//! store ever changes a table.

use vstd::prelude::*;

verus! {

/// Some row of `s` has key `id`.
pub open spec fn has_key<T>(s: Seq<T>, key: spec_fn(T) -> Seq<char>, id: Seq<char>) -> bool {
    exists|i: int| 0 <= i < s.len() && key(#[trigger] s[i]) == id
}

/// An index of a row of `s` whose key is `id` (meaningful when `has_key`).
pub open spec fn key_index<T>(s: Seq<T>, key: spec_fn(T) -> Seq<char>, id: Seq<char>) -> int {
    choose|i: int| 0 <= i < s.len() && key(#[trigger] s[i]) == id
}

/// The row of `s` whose key is `id` (meaningful when `has_key`).
pub open spec fn at_key<T>(s: Seq<T>, key: spec_fn(T) -> Seq<char>, id: Seq<char>) -> T {
    s[key_index(s, key, id)]
}

/// No two rows of `s` share a key.
pub open spec fn distinct_keys<T>(s: Seq<T>, key: spec_fn(T) -> Seq<char>) -> bool {
    forall|i: int, j: int|
        0 <= i < j < s.len() ==> key(#[trigger] s[i]) != key(#[trigger] s[j])
}

/// How many rows of `s` satisfy `p`.
pub open spec fn count_matching<T>(s: Seq<T>, p: spec_fn(T) -> bool) -> int
    decreases s.len(),
{
    if s.len() == 0 {
        0
    } else {
        count_matching(s.drop_last(), p) + if p(s.last()) {
            1int
        } else {
            0int
        }
    }
}

/// The sum of `f` over the rows of `s` that satisfy `p`.
pub open spec fn sum_matching<T>(s: Seq<T>, p: spec_fn(T) -> bool, f: spec_fn(T) -> int) -> int
    decreases s.len(),
{
    if s.len() == 0 {
        0
    } else {
        sum_matching(s.drop_last(), p, f) + if p(s.last()) {
            f(s.last())
        } else {
            0int
        }
    }
}

/// A present key names a row inside the table, and that row carries the key.
pub proof fn lemma_at_key_found<T>(s: Seq<T>, key: spec_fn(T) -> Seq<char>, id: Seq<char>)
    requires
        has_key(s, key, id),
    ensures
        0 <= key_index(s, key, id) < s.len(),
        key(at_key(s, key, id)) == id,
{
}

/// With distinct keys, the row at index `i` is exactly the row its key names.
pub proof fn lemma_at_key_of_index<T>(s: Seq<T>, key: spec_fn(T) -> Seq<char>, i: int)
    requires
        distinct_keys(s, key),
        0 <= i < s.len(),
    ensures
        has_key(s, key, key(s[i])),
        key_index(s, key, key(s[i])) == i,
        at_key(s, key, key(s[i])) == s[i],
{
    assert(has_key(s, key, key(s[i])));
    let j = key_index(s, key, key(s[i]));
    if j != i {
        if i < j {
            assert(key(s[i]) != key(s[j]));
        } else {
            assert(key(s[j]) != key(s[i]));
        }
    }
}

/// A key present before a `push` is present after it.
pub proof fn lemma_has_key_push_mono<T>(s: Seq<T>, key: spec_fn(T) -> Seq<char>, x: T, id: Seq<char>)
    requires
        has_key(s, key, id),
    ensures
        has_key(s.push(x), key, id),
{
    let i = key_index(s, key, id);
    assert(s.push(x)[i] == s[i]);
}

/// Pushing a row with a different key changes nothing about `id`.
pub proof fn lemma_push_frame<T>(s: Seq<T>, key: spec_fn(T) -> Seq<char>, x: T, id: Seq<char>)
    requires
        distinct_keys(s, key),
        id != key(x),
    ensures
        has_key(s.push(x), key, id) <==> has_key(s, key, id),
        has_key(s, key, id) ==> key_index(s.push(x), key, id) == key_index(s, key, id),
        has_key(s, key, id) ==> at_key(s.push(x), key, id) == at_key(s, key, id),
{
    let t = s.push(x);
    if has_key(t, key, id) {
        let j = key_index(t, key, id);
        assert(key(t[j]) == id);
        assert(j != s.len());
        assert(t[j] == s[j]);
        assert(has_key(s, key, id));
    }
    if has_key(s, key, id) {
        let i = key_index(s, key, id);
        assert(t[i] == s[i]);
        assert(has_key(t, key, id));
        let j = key_index(t, key, id);
        assert(j != s.len());
        assert(t[j] == s[j]);
        if i != j {
            if i < j {
                assert(key(s[i]) != key(s[j]));
            } else {
                assert(key(s[j]) != key(s[i]));
            }
        }
    }
}

/// Pushing a row with a fresh key makes that key name the new row, and keeps
/// the keys distinct.
pub proof fn lemma_push_new<T>(s: Seq<T>, key: spec_fn(T) -> Seq<char>, x: T)
    requires
        !has_key(s, key, key(x)),
    ensures
        has_key(s.push(x), key, key(x)),
        key_index(s.push(x), key, key(x)) == s.len(),
        at_key(s.push(x), key, key(x)) == x,
        distinct_keys(s, key) ==> distinct_keys(s.push(x), key),
{
    let t = s.push(x);
    assert(key(t[s.len() as int]) == key(x));
    assert(has_key(t, key, key(x)));
    let j = key_index(t, key, key(x));
    if j != s.len() {
        assert(t[j] == s[j]);
        assert(has_key(s, key, key(x)));
    }
    if distinct_keys(s, key) {
        assert forall|i: int, j2: int| 0 <= i < j2 < t.len() implies key(t[i]) != key(t[j2]) by {
            if j2 == s.len() {
                assert(t[i] == s[i]);
                if key(s[i]) == key(x) {
                    assert(has_key(s, key, key(x)));
                }
            } else {
                assert(t[i] == s[i]);
                assert(t[j2] == s[j2]);
            }
        }
    }
}

/// Replacing the row at `i` by one with the same key keeps every key present,
/// keeps keys distinct, names the new row by that key, and leaves every other
/// key's row unchanged.
pub proof fn lemma_update_frame<T>(
    s: Seq<T>,
    key: spec_fn(T) -> Seq<char>,
    i: int,
    x: T,
    id: Seq<char>,
)
    requires
        distinct_keys(s, key),
        0 <= i < s.len(),
        key(x) == key(s[i]),
    ensures
        distinct_keys(s.update(i, x), key),
        has_key(s.update(i, x), key, id) <==> has_key(s, key, id),
        has_key(s, key, id) ==> key_index(s.update(i, x), key, id) == key_index(s, key, id),
        id == key(x) ==> (has_key(s, key, id) ==> at_key(s.update(i, x), key, id) == x),
        id != key(x) && has_key(s, key, id) ==> at_key(s.update(i, x), key, id) == at_key(
            s,
            key,
            id,
        ),
{
    let t = s.update(i, x);
    assert forall|m: int, n: int| 0 <= m < n < t.len() implies key(t[m]) != key(t[n]) by {
        assert(key(t[m]) == key(s[m]));
        assert(key(t[n]) == key(s[n]));
    }
    if has_key(s, key, id) {
        let m = key_index(s, key, id);
        assert(key(t[m]) == key(s[m]));
        assert(has_key(t, key, id));
    }
    if has_key(t, key, id) {
        let m = key_index(t, key, id);
        assert(key(t[m]) == key(s[m]));
        assert(has_key(s, key, id));
        let n = key_index(s, key, id);
        if m != n {
            if m < n {
                assert(key(s[m]) != key(s[n]));
            } else {
                assert(key(s[n]) != key(s[m]));
            }
        }
        if id == key(x) {
            assert(key(t[i]) == key(x));
            if m != i {
                if m < i {
                    assert(key(s[m]) != key(s[i]));
                } else {
                    assert(key(s[i]) != key(s[m]));
                }
            }
            assert(at_key(t, key, id) == x);
        } else {
            assert(m != i);
            assert(t[m] == s[m]);
        }
    }
}

/// Counting after a `push`: the new row adds one when it matches.
pub proof fn lemma_count_push<T>(s: Seq<T>, p: spec_fn(T) -> bool, x: T)
    ensures
        count_matching(s.push(x), p) == count_matching(s, p) + if p(x) {
            1int
        } else {
            0int
        },
{
    assert(s.push(x).drop_last() =~= s);
    assert(s.push(x).last() == x);
}

/// Summing after a `push`: the new row adds its value when it matches.
pub proof fn lemma_sum_push<T>(s: Seq<T>, p: spec_fn(T) -> bool, f: spec_fn(T) -> int, x: T)
    ensures
        sum_matching(s.push(x), p, f) == sum_matching(s, p, f) + if p(x) {
            f(x)
        } else {
            0int
        },
{
    assert(s.push(x).drop_last() =~= s);
    assert(s.push(x).last() == x);
}

/// A table with no matching row counts zero.
pub proof fn lemma_count_zero<T>(s: Seq<T>, p: spec_fn(T) -> bool)
    requires
        forall|i: int| 0 <= i < s.len() ==> !p(#[trigger] s[i]),
    ensures
        count_matching(s, p) == 0,
    decreases s.len(),
{
    if s.len() > 0 {
        lemma_count_zero(s.drop_last(), p);
    }
}

/// A table with no matching row sums to zero.
pub proof fn lemma_sum_zero<T>(s: Seq<T>, p: spec_fn(T) -> bool, f: spec_fn(T) -> int)
    requires
        forall|i: int| 0 <= i < s.len() ==> !p(#[trigger] s[i]),
    ensures
        sum_matching(s, p, f) == 0,
    decreases s.len(),
{
    if s.len() > 0 {
        lemma_sum_zero(s.drop_last(), p, f);
    }
}

/// Counting is unchanged by an update that preserves whether the row matches.
pub proof fn lemma_count_update<T>(s: Seq<T>, p: spec_fn(T) -> bool, i: int, x: T)
    requires
        0 <= i < s.len(),
        p(x) == p(s[i]),
    ensures
        count_matching(s.update(i, x), p) == count_matching(s, p),
    decreases s.len(),
{
    let t = s.update(i, x);
    if i == s.len() - 1 {
        assert(t.drop_last() =~= s.drop_last());
        assert(t.last() == x);
    } else {
        assert(t.drop_last() =~= s.drop_last().update(i, x));
        assert(t.last() == s.last());
        lemma_count_update(s.drop_last(), p, i, x);
    }
}

} // verus!
