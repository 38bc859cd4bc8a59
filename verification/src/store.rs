//! Association-list maps from accounts to values.
//!
//! The persistent key-value store of the host is an external collaborator;
//! inside the core each keyed table (balances, positions, pending
//! winnings, statistics) is a vector of `(Address, value)` entries with
//! pairwise-distinct keys. `lookup` is the mathematical reading of such a
//! table and every contract in the crate speaks through it.

use vstd::prelude::*;

use crate::types::Address;

verus! {

use vstd::pervasive::VecAdditionalExecFns;

/// Value stored under key `a`: the first entry whose key is `a`.
pub open spec fn lookup<V>(s: Seq<(Address, V)>, a: Address) -> Option<V>
    decreases s.len(),
{
    if s.len() == 0 {
        None
    } else if s[0].0 == a {
        Some(s[0].1)
    } else {
        lookup(s.skip(1), a)
    }
}

/// Whether the table holds an entry for `a`.
pub open spec fn has_key<V>(s: Seq<(Address, V)>, a: Address) -> bool {
    lookup(s, a) is Some
}

/// Value stored under `a`, or `default` for an absent key.
pub open spec fn stored<V>(s: Seq<(Address, V)>, a: Address, default: V) -> V {
    match lookup(s, a) {
        Some(v) => v,
        None => default,
    }
}

/// No two entries share a key.
pub open spec fn distinct_keys<V>(s: Seq<(Address, V)>) -> bool {
    forall|i: int, j: int| 0 <= i < j < s.len() ==> s[i].0 != s[j].0
}

/// Every stored value is non-negative.
pub open spec fn all_nonneg(s: Seq<(Address, i128)>) -> bool {
    forall|i: int| 0 <= i < s.len() ==> #[trigger] s[i].1 >= 0
}

/// A lookup skips any prefix that does not mention the key.
proof fn lemma_lookup_skip_miss<V>(s: Seq<(Address, V)>, a: Address, n: int)
    requires
        0 <= n <= s.len(),
        forall|j: int| 0 <= j < n ==> s[j].0 != a,
    ensures
        lookup(s, a) == lookup(s.skip(n), a),
    decreases n,
{
    if n == 0 {
        assert(s.skip(0) =~= s);
    } else {
        lemma_lookup_skip_miss(s.skip(1), a, n - 1);
        assert(s.skip(1).skip(n - 1) =~= s.skip(n));
    }
}

/// The first entry for `a` determines the lookup.
pub proof fn lemma_lookup_found<V>(s: Seq<(Address, V)>, a: Address, i: int)
    requires
        0 <= i < s.len(),
        s[i].0 == a,
        forall|j: int| 0 <= j < i ==> s[j].0 != a,
    ensures
        lookup(s, a) == Some(s[i].1),
{
    lemma_lookup_skip_miss(s, a, i);
    assert(s.skip(i)[0] == s[i]);
}

/// A key mentioned by no entry is absent.
pub proof fn lemma_lookup_none<V>(s: Seq<(Address, V)>, a: Address)
    requires
        forall|j: int| 0 <= j < s.len() ==> s[j].0 != a,
    ensures
        lookup(s, a) is None,
{
    lemma_lookup_skip_miss(s, a, s.len() as int);
    assert(s.skip(s.len() as int) =~= Seq::<(Address, V)>::empty());
}

/// With distinct keys, any entry for `a` determines the lookup.
pub proof fn lemma_lookup_distinct<V>(s: Seq<(Address, V)>, a: Address, i: int)
    requires
        distinct_keys(s),
        0 <= i < s.len(),
        s[i].0 == a,
    ensures
        lookup(s, a) == Some(s[i].1),
{
    lemma_lookup_found(s, a, i);
}

/// A present key is held by some entry.
pub proof fn lemma_lookup_exists<V>(s: Seq<(Address, V)>, a: Address)
    requires
        has_key(s, a),
    ensures
        exists|i: int|
            0 <= i < s.len() && s[i].0 == a && lookup(s, a) == Some(#[trigger] s[i].1),
    decreases s.len(),
{
    if s.len() > 0 {
        if s[0].0 == a {
            assert(lookup(s, a) == Some(s[0].1));
        } else {
            lemma_lookup_exists(s.skip(1), a);
            let i = choose|i: int|
                0 <= i < s.skip(1).len() && s.skip(1)[i].0 == a && lookup(s.skip(1), a)
                    == Some(#[trigger] s.skip(1)[i].1);
            assert(s[i + 1] == s.skip(1)[i]);
        }
    }
}

/// An absent key is held by no entry.
pub proof fn lemma_no_key_no_entry<V>(s: Seq<(Address, V)>, a: Address)
    requires
        !has_key(s, a),
    ensures
        forall|i: int| 0 <= i < s.len() ==> s[i].0 != a,
{
    assert forall|i: int| 0 <= i < s.len() implies s[i].0 != a by {
        if s[i].0 == a {
            lemma_lookup_found_somewhere(s, a, i);
        }
    }
}

/// Any entry for `a` makes the key present (first occurrence or not).
proof fn lemma_lookup_found_somewhere<V>(s: Seq<(Address, V)>, a: Address, i: int)
    requires
        0 <= i < s.len(),
        s[i].0 == a,
    ensures
        has_key(s, a),
    decreases s.len(),
{
    if s[0].0 != a {
        lemma_lookup_found_somewhere(s.skip(1), a, i - 1);
    }
}

/// In a distinct-keys table a stored non-negative invariant carries to
/// every lookup.
pub proof fn lemma_lookup_nonneg(s: Seq<(Address, i128)>, a: Address)
    requires
        all_nonneg(s),
        has_key(s, a),
    ensures
        stored(s, a, 0) >= 0,
{
    lemma_lookup_exists(s, a);
}

/// Updating the entry at `i` (which holds key `a`) rewrites `a`'s value
/// and leaves every other key's lookup alone.
pub proof fn lemma_lookup_update<V>(s: Seq<(Address, V)>, i: int, a: Address, val: V)
    requires
        distinct_keys(s),
        0 <= i < s.len(),
        s[i].0 == a,
    ensures
        distinct_keys(s.update(i, (a, val))),
        lookup(s.update(i, (a, val)), a) == Some(val),
        forall|b: Address| b != a ==> lookup(s.update(i, (a, val)), b) == lookup(s, b),
{
    let t = s.update(i, (a, val));
    assert(forall|k: int| 0 <= k < s.len() ==> t[k].0 == s[k].0);
    lemma_lookup_distinct(t, a, i);
    assert forall|b: Address| b != a implies lookup(t, b) == lookup(s, b) by {
        if has_key(s, b) {
            lemma_lookup_exists(s, b);
            let j = choose|j: int|
                0 <= j < s.len() && s[j].0 == b && lookup(s, b) == Some(#[trigger] s[j].1);
            assert(t[j] == s[j]);
            lemma_lookup_distinct(t, b, j);
        } else {
            lemma_no_key_no_entry(s, b);
            lemma_lookup_none(t, b);
        }
    }
}

/// Appending a fresh key binds it and leaves every other key's lookup
/// alone.
pub proof fn lemma_lookup_push<V>(s: Seq<(Address, V)>, a: Address, val: V)
    requires
        distinct_keys(s),
        !has_key(s, a),
    ensures
        distinct_keys(s.push((a, val))),
        lookup(s.push((a, val)), a) == Some(val),
        forall|b: Address| b != a ==> lookup(s.push((a, val)), b) == lookup(s, b),
{
    let t = s.push((a, val));
    lemma_no_key_no_entry(s, a);
    lemma_lookup_found(t, a, s.len() as int);
    assert forall|b: Address| b != a implies lookup(t, b) == lookup(s, b) by {
        if has_key(s, b) {
            lemma_lookup_exists(s, b);
            let j = choose|j: int|
                0 <= j < s.len() && s[j].0 == b && lookup(s, b) == Some(#[trigger] s[j].1);
            assert(t[j] == s[j]);
            lemma_lookup_distinct(t, b, j);
        } else {
            lemma_no_key_no_entry(s, b);
            lemma_lookup_none(t, b);
        }
    }
}

/// Removing the entry at `i` (which holds key `a`) drops the key and
/// leaves every other key's lookup alone.
pub proof fn lemma_lookup_remove<V>(s: Seq<(Address, V)>, i: int, a: Address)
    requires
        distinct_keys(s),
        0 <= i < s.len(),
        s[i].0 == a,
    ensures
        distinct_keys(s.remove(i)),
        lookup(s.remove(i), a) is None,
        forall|b: Address| b != a ==> lookup(s.remove(i), b) == lookup(s, b),
{
    let t = s.remove(i);
    assert(forall|k: int| 0 <= k < i ==> t[k] == s[k]);
    assert(forall|k: int| i <= k < t.len() ==> t[k] == s[k + 1]);
    assert forall|k: int| 0 <= k < t.len() implies t[k].0 != a by {
        if k < i {
            assert(s[k].0 != s[i].0);
        } else {
            assert(s[k + 1].0 != s[i].0);
        }
    }
    lemma_lookup_none(t, a);
    assert forall|b: Address| b != a implies lookup(t, b) == lookup(s, b) by {
        if has_key(s, b) {
            lemma_lookup_exists(s, b);
            let j = choose|j: int|
                0 <= j < s.len() && s[j].0 == b && lookup(s, b) == Some(#[trigger] s[j].1);
            if j < i {
                lemma_lookup_distinct(t, b, j);
            } else {
                assert(t[j - 1] == s[j]);
                lemma_lookup_distinct(t, b, j - 1);
            }
        } else {
            lemma_no_key_no_entry(s, b);
            lemma_lookup_none(t, b);
        }
    }
}

/// Linear scan for the value stored under `a`.
pub fn map_get<V: Copy>(v: &Vec<(Address, V)>, a: Address) -> (r: Option<V>)
    ensures
        r == lookup(v@, a),
{
    let mut i: usize = 0;
    while i < v.len()
        invariant
            0 <= i <= v.len(),
            forall|j: int| 0 <= j < i ==> v@[j].0 != a,
        decreases v.len() - i,
    {
        if v[i].0 == a {
            proof {
                lemma_lookup_found(v@, a, i as int);
            }
            return Some(v[i].1);
        }
        i += 1;
    }
    proof {
        lemma_lookup_none(v@, a);
    }
    None
}

/// Index of the entry holding `a`, if any.
fn map_find<V: Copy>(v: &Vec<(Address, V)>, a: Address) -> (r: Option<usize>)
    ensures
        match r {
            Some(i) => i < v@.len() && v@[i as int].0 == a && forall|j: int|
                0 <= j < i ==> v@[j].0 != a,
            None => !has_key(v@, a),
        },
{
    let mut i: usize = 0;
    while i < v.len()
        invariant
            0 <= i <= v.len(),
            forall|j: int| 0 <= j < i ==> v@[j].0 != a,
        decreases v.len() - i,
    {
        if v[i].0 == a {
            return Some(i);
        }
        i += 1;
    }
    proof {
        lemma_lookup_none(v@, a);
    }
    None
}

/// Binds `a` to `val`: rewrites the existing entry or appends a new one.
pub fn map_set<V: Copy>(v: &mut Vec<(Address, V)>, a: Address, val: V)
    requires
        distinct_keys(old(v)@),
    ensures
        distinct_keys(final(v)@),
        lookup(final(v)@, a) == Some(val),
        forall|b: Address| b != a ==> lookup(final(v)@, b) == lookup(old(v)@, b),
        !has_key(old(v)@, a) ==> final(v)@ == old(v)@.push((a, val)),
        forall|i: int|
            #![trigger final(v)@[i]]
            0 <= i < final(v)@.len() ==> final(v)@[i] == (a, val) || (exists|j: int|
                0 <= j < old(v)@.len() && #[trigger] old(v)@[j] == final(v)@[i]),
{
    let ghost s0 = v@;
    match map_find(v, a) {
        Some(i) => {
            proof {
                lemma_lookup_update(v@, i as int, a, val);
                lemma_lookup_found_somewhere(v@, a, i as int);
            }
            v.set(i, (a, val));
            proof {
                assert forall|k: int|
                    #![trigger v@[k]]
                    0 <= k < v@.len() implies v@[k] == (a, val) || (exists|j: int|
                    0 <= j < s0.len() && #[trigger] s0[j] == v@[k]) by {
                    if k != i {
                        assert(s0[k] == v@[k]);
                    }
                }
            }
        },
        None => {
            proof {
                lemma_lookup_push(v@, a, val);
            }
            v.push((a, val));
            proof {
                assert forall|k: int|
                    #![trigger v@[k]]
                    0 <= k < v@.len() implies v@[k] == (a, val) || (exists|j: int|
                    0 <= j < s0.len() && #[trigger] s0[j] == v@[k]) by {
                    if k < s0.len() {
                        assert(s0[k] == v@[k]);
                    }
                }
            }
        },
    }
}

/// Drops the entry for `a`, if any.
pub fn map_remove<V: Copy>(v: &mut Vec<(Address, V)>, a: Address)
    requires
        distinct_keys(old(v)@),
    ensures
        distinct_keys(final(v)@),
        lookup(final(v)@, a) is None,
        forall|b: Address| b != a ==> lookup(final(v)@, b) == lookup(old(v)@, b),
        forall|i: int|
            #![trigger final(v)@[i]]
            0 <= i < final(v)@.len() ==> exists|j: int|
                0 <= j < old(v)@.len() && #[trigger] old(v)@[j] == final(v)@[i],
{
    let ghost s0 = v@;
    match map_find(v, a) {
        Some(i) => {
            proof {
                lemma_lookup_remove(v@, i as int, a);
            }
            v.remove(i);
            proof {
                assert forall|k: int|
                    #![trigger v@[k]]
                    0 <= k < v@.len() implies exists|j: int|
                    0 <= j < s0.len() && #[trigger] s0[j] == v@[k] by {
                    if k < i {
                        assert(s0[k] == v@[k]);
                    } else {
                        assert(s0[k + 1] == v@[k]);
                    }
                }
            }
        },
        None => {
            proof {
                assert forall|k: int|
                    #![trigger v@[k]]
                    0 <= k < v@.len() implies exists|j: int|
                    0 <= j < s0.len() && #[trigger] s0[j] == v@[k] by {
                    assert(s0[k] == v@[k]);
                }
            }
        },
    }
}

/// Rebinding one key to a non-negative value keeps a non-negative table
/// non-negative. The premise mirrors what `map_set` ensures.
pub proof fn lemma_values_carry_nonneg(
    s0: Seq<(Address, i128)>,
    s1: Seq<(Address, i128)>,
    a: Address,
    val: i128,
)
    requires
        all_nonneg(s0),
        val >= 0,
        forall|i: int|
            #![trigger s1[i]]
            0 <= i < s1.len() ==> s1[i] == (a, val) || (exists|j: int|
                0 <= j < s0.len() && #[trigger] s0[j] == s1[i]),
    ensures
        all_nonneg(s1),
{
    assert forall|i: int| 0 <= i < s1.len() implies s1[i].1 >= 0 by {
        if s1[i] != (a, val) {
            let j = choose|j: int| 0 <= j < s0.len() && #[trigger] s0[j] == s1[i];
            assert(s0[j].1 >= 0);
        }
    }
}

/// A table whose entries all come from a non-negative table is
/// non-negative. The premise mirrors what `map_remove` ensures.
pub proof fn lemma_values_kept_nonneg(s0: Seq<(Address, i128)>, s1: Seq<(Address, i128)>)
    requires
        all_nonneg(s0),
        forall|i: int|
            #![trigger s1[i]]
            0 <= i < s1.len() ==> exists|j: int| 0 <= j < s0.len() && #[trigger] s0[j] == s1[i],
    ensures
        all_nonneg(s1),
{
    assert forall|i: int| 0 <= i < s1.len() implies s1[i].1 >= 0 by {
        let j = choose|j: int| 0 <= j < s0.len() && #[trigger] s0[j] == s1[i];
        assert(s0[j].1 >= 0);
    }
}

/// A fresh vector with the same entries.
pub fn vec_dup<T: Copy>(v: &Vec<T>) -> (r: Vec<T>)
    ensures
        r@ == v@,
{
    let mut r: Vec<T> = Vec::new();
    let mut i: usize = 0;
    while i < v.len()
        invariant
            0 <= i <= v.len(),
            r@ == v@.subrange(0, i as int),
        decreases v.len() - i,
    {
        r.push(v[i]);
        proof {
            assert(r@ =~= v@.subrange(0, i as int + 1));
        }
        i += 1;
    }
    proof {
        assert(r@ =~= v@);
    }
    r
}

} // verus!
