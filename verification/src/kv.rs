//! Specification vocabulary for string-keyed association sequences.
//!
//! Request headers, registered health conditions and error details are all
//! modelled as sequences of `(key, value)` pairs. This module defines what it
//! means to look a key up, to collect every value under a key, and to insert
//! with overwrite, together with the lemmas the executable code needs.

use vstd::prelude::*;

verus! {

/// No key occurs twice.
pub open spec fn unique_keys<V>(s: Seq<(Seq<char>, V)>) -> bool {
    forall|i: int, j: int| 0 <= i < j < s.len() ==> s[i].0 != s[j].0
}

/// The value under the first occurrence of `k`, if any.
pub open spec fn first_value<V>(s: Seq<(Seq<char>, V)>, k: Seq<char>) -> Option<V>
    decreases s.len(),
{
    if s.len() == 0 {
        None
    } else {
        match first_value(s.drop_last(), k) {
            Some(v) => Some(v),
            None => if s.last().0 == k {
                Some(s.last().1)
            } else {
                None
            },
        }
    }
}

/// Every value under `k`, in order of occurrence.
pub open spec fn all_values<V>(s: Seq<(Seq<char>, V)>, k: Seq<char>) -> Seq<V>
    decreases s.len(),
{
    if s.len() == 0 {
        Seq::empty()
    } else {
        let rest = all_values(s.drop_last(), k);
        if s.last().0 == k {
            rest.push(s.last().1)
        } else {
            rest
        }
    }
}

/// Insert with overwrite: the first occurrence of `k` is replaced in place;
/// an absent key is appended at the end.
pub open spec fn spec_insert<V>(s: Seq<(Seq<char>, V)>, k: Seq<char>, v: V) -> Seq<(Seq<char>, V)>
    decreases s.len(),
{
    if s.len() == 0 {
        seq![(k, v)]
    } else if s.first().0 == k {
        seq![(k, v)] + s.drop_first()
    } else {
        seq![s.first()] + spec_insert(s.drop_first(), k, v)
    }
}

/// The position of the first occurrence of `k`.
pub proof fn first_key_index<V>(s: Seq<(Seq<char>, V)>, k: Seq<char>) -> (i: int)
    requires
        exists|j: int| 0 <= j < s.len() && s[j].0 == k,
    ensures
        0 <= i < s.len(),
        s[i].0 == k,
        forall|j: int| 0 <= j < i ==> s[j].0 != k,
    decreases s.len(),
{
    if s[0].0 == k {
        0
    } else {
        let j = choose|j: int| 0 <= j < s.len() && s[j].0 == k;
        assert(s.drop_first()[j - 1].0 == k);
        let r = first_key_index(s.drop_first(), k);
        assert forall|j2: int| 0 <= j2 < r + 1 implies s[j2].0 != k by {
            if j2 > 0 {
                assert(s.drop_first()[j2 - 1] == s[j2]);
            }
        }
        r + 1
    }
}

/// Inserting a key that first occurs at `i` overwrites that entry in place.
pub proof fn lemma_insert_found<V>(s: Seq<(Seq<char>, V)>, k: Seq<char>, v: V, i: int)
    requires
        0 <= i < s.len(),
        s[i].0 == k,
        forall|j: int| 0 <= j < i ==> s[j].0 != k,
    ensures
        spec_insert(s, k, v) =~= s.update(i, (k, v)),
    decreases i,
{
    if i == 0 {
        assert(s.first().0 == k);
    } else {
        assert(s.first().0 != k);
        assert forall|j: int| 0 <= j < i - 1 implies s.drop_first()[j].0 != k by {
            assert(s.drop_first()[j] == s[j + 1]);
        }
        assert(s.drop_first()[i - 1].0 == k);
        lemma_insert_found(s.drop_first(), k, v, i - 1);
    }
}

/// Inserting an absent key appends it.
pub proof fn lemma_insert_absent<V>(s: Seq<(Seq<char>, V)>, k: Seq<char>, v: V)
    requires
        forall|j: int| 0 <= j < s.len() ==> s[j].0 != k,
    ensures
        spec_insert(s, k, v) =~= s.push((k, v)),
    decreases s.len(),
{
    if s.len() > 0 {
        assert forall|j: int| 0 <= j < s.drop_first().len() implies s.drop_first()[j].0 != k by {
            assert(s.drop_first()[j] == s[j + 1]);
        }
        lemma_insert_absent(s.drop_first(), k, v);
    }
}

/// Insertion keeps keys unique.
pub proof fn lemma_insert_unique_keys<V>(s: Seq<(Seq<char>, V)>, k: Seq<char>, v: V)
    requires
        unique_keys(s),
    ensures
        unique_keys(spec_insert(s, k, v)),
{
    if exists|j: int| 0 <= j < s.len() && s[j].0 == k {
        let i = first_key_index(s, k);
        lemma_insert_found(s, k, v, i);
        assert(forall|j: int| 0 <= j < s.len() ==> s.update(i, (k, v))[j].0 == s[j].0);
    } else {
        lemma_insert_absent(s, k, v);
    }
}

} // verus!
