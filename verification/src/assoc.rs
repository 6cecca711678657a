//! Verified association lists: vectors of `(String, T)` pairs looked up by
//! key, scanning left to right. The schema maps of the store are kept in
//! this form so that every lookup and update has an exact meaning as a
//! sequence.

use vstd::prelude::*;

use crate::strutil::str_eq;

verus! {

/// The value bound to key `k`, scanning left to right.
pub open spec fn lookup<T>(s: Seq<(String, T)>, k: Seq<char>) -> Option<T>
    decreases s.len(),
{
    if s.len() == 0 {
        None
    } else if s.first().0@ == k {
        Some(s.first().1)
    } else {
        lookup(s.drop_first(), k)
    }
}

/// Whether some pair binds key `k`.
pub open spec fn has_key<T>(s: Seq<(String, T)>, k: Seq<char>) -> bool {
    lookup(s, k) is Some
}

/// The keys are pairwise distinct.
pub open spec fn keys_distinct<T>(s: Seq<(String, T)>) -> bool {
    forall|i: int, j: int| 0 <= i < j < s.len() ==> s[i].0@ != s[j].0@
}

/// Looking up a key that no pair before position `i` binds is the same as
/// looking it up from position `i` on.
pub proof fn lemma_lookup_skip<T>(s: Seq<(String, T)>, k: Seq<char>, i: int)
    requires
        0 <= i <= s.len(),
        forall|j: int| 0 <= j < i ==> s[j].0@ != k,
    ensures
        lookup(s, k) == lookup(s.skip(i), k),
    decreases i,
{
    if i == 0 {
        assert(s.skip(0) =~= s);
    } else {
        assert(s.first().0@ != k);
        lemma_lookup_skip(s.drop_first(), k, i - 1);
        assert(s.drop_first().skip(i - 1) =~= s.skip(i));
    }
}

/// A key is bound exactly when some pair carries it.
pub proof fn lemma_lookup_exists<T>(s: Seq<(String, T)>, k: Seq<char>)
    ensures
        has_key(s, k) <==> exists|i: int| 0 <= i < s.len() && s[i].0@ == k,
    decreases s.len(),
{
    if s.len() > 0 {
        lemma_lookup_exists(s.drop_first(), k);
        if s.first().0@ == k {
            assert(s[0].0@ == k);
        } else {
            if has_key(s.drop_first(), k) {
                let i = choose|i: int| 0 <= i < s.drop_first().len() && s.drop_first()[i].0@ == k;
                assert(s[i + 1].0@ == k);
            }
            if exists|i: int| 0 <= i < s.len() && s[i].0@ == k {
                let i = choose|i: int| 0 <= i < s.len() && s[i].0@ == k;
                assert(s.drop_first()[i - 1].0@ == k);
            }
        }
    }
}

/// What a lookup sees after one more pair is pushed on the end.
pub proof fn lemma_lookup_push<T>(s: Seq<(String, T)>, p: (String, T), k: Seq<char>)
    ensures
        lookup(s.push(p), k) == if has_key(s, k) {
            lookup(s, k)
        } else if p.0@ == k {
            Some(p.1)
        } else {
            None::<T>
        },
    decreases s.len(),
{
    if s.len() == 0 {
        assert(s.push(p).first() == p);
        assert(!has_key(s, k));
        if p.0@ == k {
            assert(lookup(s.push(p), k) == Some(p.1));
        } else {
            assert(s.push(p).drop_first() =~= Seq::<(String, T)>::empty());
            assert(lookup(s.push(p), k) == lookup(s.push(p).drop_first(), k));
            assert(lookup(s.push(p), k) is None);
        }
    } else {
        assert(s.push(p).first() == s.first());
        assert(s.push(p).drop_first() =~= s.drop_first().push(p));
        lemma_lookup_push(s.drop_first(), p, k);
        if s.first().0@ == k {
            assert(lookup(s, k) == Some(s.first().1));
            assert(lookup(s.push(p), k) == Some(s.push(p).first().1));
        } else {
            assert(lookup(s, k) == lookup(s.drop_first(), k));
            assert(lookup(s.push(p), k) == lookup(s.drop_first().push(p), k));
        }
    }
}

/// What a lookup sees after the pair at position `i`, the first with its
/// key, is replaced by another pair with the same key.
pub proof fn lemma_lookup_update<T>(s: Seq<(String, T)>, i: int, v: T, k: Seq<char>)
    requires
        0 <= i < s.len(),
        forall|j: int| 0 <= j < i ==> s[j].0@ != s[i].0@,
    ensures
        lookup(s.update(i, (s[i].0, v)), k) == if k == s[i].0@ {
            Some(v)
        } else {
            lookup(s, k)
        },
    decreases s.len(),
{
    let t = s.update(i, (s[i].0, v));
    if i == 0 {
        assert(t.first() == (s[i].0, v));
        assert(t.first().0@ == s[i].0@);
        if k != s[i].0@ {
            assert(t.drop_first() =~= s.drop_first());
        }
    } else {
        assert(t.first() == s.first());
        assert(s.first().0@ != s[i].0@);
        assert(t.drop_first() =~= s.drop_first().update(i - 1, (s.drop_first()[i - 1].0, v)));
        lemma_lookup_update(s.drop_first(), i - 1, v, k);
        if t.first().0@ == k {
            assert(lookup(t, k) == lookup(s, k));
        }
    }
}

/// Every pair of an association list with distinct keys is what looking its
/// key up finds.
pub proof fn lemma_lookup_index<T>(s: Seq<(String, T)>, j: int)
    requires
        keys_distinct(s),
        0 <= j < s.len(),
    ensures
        lookup(s, s[j].0@) == Some(s[j].1),
    decreases j,
{
    if j == 0 {
        assert(lookup(s, s[0].0@) == Some(s.first().1));
    } else {
        assert(s.first().0@ != s[j].0@);
        assert(keys_distinct(s.drop_first())) by {
            assert(forall|a: int, b: int|
                0 <= a < b < s.drop_first().len() ==> (#[trigger] s.drop_first()[a]).0@ != (
                #[trigger] s.drop_first()[b]).0@) by {
                assert(forall|a: int|
                    0 <= a < s.drop_first().len() ==> (#[trigger] s.drop_first()[a]) == s[a + 1]);
            }
        }
        lemma_lookup_index(s.drop_first(), j - 1);
        assert(s.drop_first()[j - 1] == s[j]);
    }
}

/// A successful lookup is witnessed by some pair carrying the key and the
/// found value.
pub proof fn lemma_lookup_some_index<T>(s: Seq<(String, T)>, k: Seq<char>)
    requires
        lookup(s, k) is Some,
    ensures
        exists|i: int|
            0 <= i < s.len() && (#[trigger] s[i]).0@ == k && s[i].1 == lookup(s, k).unwrap(),
    decreases s.len(),
{
    if s.first().0@ == k {
        assert(s[0].0@ == k && s[0].1 == lookup(s, k).unwrap());
    } else {
        lemma_lookup_some_index(s.drop_first(), k);
        let i = choose|i: int|
            0 <= i < s.drop_first().len() && (#[trigger] s.drop_first()[i]).0@ == k
                && s.drop_first()[i].1 == lookup(s.drop_first(), k).unwrap();
        assert(s[i + 1].0@ == k && s[i + 1].1 == lookup(s, k).unwrap());
    }
}

/// Two association lists with the same keys in the same order bind the same
/// key sets.
pub proof fn lemma_has_key_pointwise<T, U>(a: Seq<(String, T)>, b: Seq<(String, U)>, k: Seq<char>)
    requires
        a.len() == b.len(),
        forall|j: int| 0 <= j < a.len() ==> (#[trigger] a[j]).0@ == b[j].0@,
    ensures
        has_key(a, k) == has_key(b, k),
{
    lemma_lookup_exists(a, k);
    lemma_lookup_exists(b, k);
    if has_key(a, k) {
        let j = choose|j: int| 0 <= j < a.len() && a[j].0@ == k;
        assert(b[j].0@ == k);
    }
    if has_key(b, k) {
        let j = choose|j: int| 0 <= j < b.len() && b[j].0@ == k;
        assert(a[j].0@ == k);
    }
}

/// Find the value bound to `k`, if any.
pub fn assoc_get<'a, T>(v: &'a Vec<(String, T)>, k: &str) -> (r: Option<&'a T>)
    ensures
        match r {
            Some(t) => lookup(v@, k@) == Some(*t),
            None => lookup(v@, k@) is None,
        },
{
    let mut i: usize = 0;
    while i < v.len()
        invariant
            0 <= i <= v@.len(),
            forall|j: int| 0 <= j < i ==> v@[j].0@ != k@,
        decreases v@.len() - i,
    {
        if str_eq(v[i].0.as_str(), k) {
            proof {
                lemma_lookup_skip(v@, k@, i as int);
                assert(v@.skip(i as int).first() == v@[i as int]);
            }
            return Some(&v[i].1);
        }
        i = i + 1;
    }
    proof {
        lemma_lookup_skip(v@, k@, v@.len() as int);
        assert(v@.skip(v@.len() as int) =~= Seq::<(String, T)>::empty());
    }
    None
}

/// Whether any pair binds `k`.
pub fn assoc_has<T>(v: &Vec<(String, T)>, k: &str) -> (r: bool)
    ensures
        r == has_key(v@, k@),
{
    let got = assoc_get(v, k);
    got.is_some()
}

/// Find the position of the first pair binding `k`, if any.
pub fn assoc_index<T>(v: &Vec<(String, T)>, k: &str) -> (r: Option<usize>)
    ensures
        match r {
            Some(i) => i < v@.len() && v@[i as int].0@ == k@ && (forall|j: int|
                0 <= j < i ==> v@[j].0@ != k@),
            None => !has_key(v@, k@),
        },
{
    let mut i: usize = 0;
    while i < v.len()
        invariant
            0 <= i <= v@.len(),
            forall|j: int| 0 <= j < i ==> v@[j].0@ != k@,
        decreases v@.len() - i,
    {
        if str_eq(v[i].0.as_str(), k) {
            return Some(i);
        }
        i = i + 1;
    }
    proof {
        lemma_lookup_skip(v@, k@, v@.len() as int);
        assert(v@.skip(v@.len() as int) =~= Seq::<(String, T)>::empty());
    }
    None
}

} // verus!
