use vstd::prelude::*;

verus! {

use crate::strutil::str_eq;

// Ordered association tables keyed by strings, shared by the definition
// tables and some accumulators.

/// Index of the first entry whose key reads `k`, or -1.
pub open spec fn skey_index_of<T>(s: Seq<(String, T)>, k: Seq<char>) -> int
    decreases s,
{
    if s.len() == 0 {
        -1
    } else if s[0].0@ == k {
        0
    } else {
        let r = skey_index_of(s.drop_first(), k);
        if r < 0 {
            -1
        } else {
            r + 1
        }
    }
}

pub open spec fn skey_contains<T>(s: Seq<(String, T)>, k: Seq<char>) -> bool {
    skey_index_of(s, k) >= 0
}

/// The value of the first entry whose key reads `k`; meaningful only when
/// such an entry exists.
pub open spec fn skey_get<T>(s: Seq<(String, T)>, k: Seq<char>) -> T {
    s[skey_index_of(s, k)].1
}

pub proof fn lemma_skey_index_of<T>(s: Seq<(String, T)>, k: Seq<char>)
    ensures
        skey_index_of(s, k) == -1 ==> forall|j: int| 0 <= j < s.len() ==> s[j].0@ != k,
        skey_index_of(s, k) >= 0 ==> 0 <= skey_index_of(s, k) < s.len() && s[skey_index_of(
            s,
            k,
        )].0@ == k && forall|j: int| 0 <= j < skey_index_of(s, k) ==> s[j].0@ != k,
    decreases s,
{
    if s.len() > 0 && s[0].0@ != k {
        lemma_skey_index_of(s.drop_first(), k);
        assert forall|j: int| 1 <= j < s.len() implies s.drop_first()[j - 1] == s[j] by {}
    }
}

pub proof fn lemma_skey_index_of_is<T>(s: Seq<(String, T)>, k: Seq<char>, i: int)
    requires
        0 <= i < s.len(),
        s[i].0@ == k,
        forall|j: int| 0 <= j < i ==> s[j].0@ != k,
    ensures
        skey_index_of(s, k) == i,
    decreases s,
{
    if i > 0 {
        lemma_skey_index_of_is(s.drop_first(), k, i - 1);
        assert forall|j: int| 1 <= j < s.len() implies s.drop_first()[j - 1] == s[j] by {}
    }
}

pub fn assoc_index_of<T>(v: &Vec<(String, T)>, k: &str) -> (r: Option<usize>)
    ensures
        match r {
            Some(i) => skey_index_of(v@, k@) == i && i < v@.len() && v@[i as int].0@ == k@,
            None => skey_index_of(v@, k@) == -1 && !skey_contains(v@, k@),
        },
{
    proof {
        lemma_skey_index_of(v@, k@);
    }
    let mut i: usize = 0;
    while i < v.len()
        invariant
            i <= v@.len(),
            forall|j: int| 0 <= j < i ==> v@[j].0@ != k@,
        decreases v@.len() - i,
    {
        if str_eq(v[i].0.as_str(), k) {
            proof {
                lemma_skey_index_of_is(v@, k@, i as int);
            }
            return Some(i);
        }
        i = i + 1;
    }
    None
}

pub fn assoc_get<'a, T>(v: &'a Vec<(String, T)>, k: &str) -> (r: Option<&'a T>)
    ensures
        match r {
            Some(t) => skey_contains(v@, k@) && *t == skey_get(v@, k@),
            None => !skey_contains(v@, k@),
        },
{
    match assoc_index_of(v, k) {
        Some(i) => Some(&v[i].1),
        None => None,
    }
}

pub fn assoc_contains<T>(v: &Vec<(String, T)>, k: &str) -> (r: bool)
    ensures
        r == skey_contains(v@, k@),
{
    match assoc_index_of(v, k) {
        Some(_) => true,
        None => false,
    }
}

/// Whether one of the strings reads `k`.
pub open spec fn sset_contains(s: Seq<String>, k: Seq<char>) -> bool {
    exists|i: int| 0 <= i < s.len() && #[trigger] s[i]@ == k
}

pub fn names_contain(v: &Vec<String>, k: &str) -> (r: bool)
    ensures
        r == sset_contains(v@, k@),
{
    let mut i: usize = 0;
    while i < v.len()
        invariant
            i <= v@.len(),
            forall|j: int| 0 <= j < i ==> v@[j]@ != k@,
        decreases v@.len() - i,
    {
        if str_eq(v[i].as_str(), k) {
            return true;
        }
        i = i + 1;
    }
    false
}

/// The views of a list of strings, in order.
pub open spec fn strs_view(s: Seq<String>) -> Seq<Seq<char>>
    decreases s,
{
    if s.len() == 0 {
        Seq::empty()
    } else {
        strs_view(s.drop_last()).push(s.last()@)
    }
}

pub broadcast proof fn lemma_strs_view_len(s: Seq<String>)
    ensures
        #[trigger] strs_view(s).len() == s.len(),
    decreases s,
{
    if s.len() > 0 {
        lemma_strs_view_len(s.drop_last());
    }
}

pub broadcast proof fn lemma_strs_view_index(s: Seq<String>, i: int)
    requires
        0 <= i < s.len(),
    ensures
        #[trigger] strs_view(s)[i] == s[i]@,
    decreases s,
{
    lemma_strs_view_len(s);
    if s.len() > 0 && i < s.len() - 1 {
        lemma_strs_view_index(s.drop_last(), i);
    }
}

/// The views of a list of named string lists, in order.
pub open spec fn pairs_view(s: Seq<(String, Vec<String>)>) -> Seq<(Seq<char>, Seq<Seq<char>>)>
    decreases s,
{
    if s.len() == 0 {
        Seq::empty()
    } else {
        pairs_view(s.drop_last()).push((s.last().0@, strs_view(s.last().1@)))
    }
}

pub broadcast proof fn lemma_pairs_view_len(s: Seq<(String, Vec<String>)>)
    ensures
        #[trigger] pairs_view(s).len() == s.len(),
    decreases s,
{
    if s.len() > 0 {
        lemma_pairs_view_len(s.drop_last());
    }
}

pub broadcast proof fn lemma_pairs_view_index(s: Seq<(String, Vec<String>)>, i: int)
    requires
        0 <= i < s.len(),
    ensures
        #[trigger] pairs_view(s)[i] == (s[i].0@, strs_view(s[i].1@)),
    decreases s,
{
    lemma_pairs_view_len(s);
    if s.len() > 0 && i < s.len() - 1 {
        lemma_pairs_view_index(s.drop_last(), i);
    }
}

pub broadcast group group_views {
    lemma_strs_view_len,
    lemma_strs_view_index,
    lemma_pairs_view_len,
    lemma_pairs_view_index,
    lemma_kvs_view_len,
    lemma_kvs_view_index,
}

/// The views of a list of string pairs, in order.
pub open spec fn kvs_view(s: Seq<(String, String)>) -> Seq<(Seq<char>, Seq<char>)>
    decreases s,
{
    if s.len() == 0 {
        Seq::empty()
    } else {
        kvs_view(s.drop_last()).push((s.last().0@, s.last().1@))
    }
}

pub broadcast proof fn lemma_kvs_view_len(s: Seq<(String, String)>)
    ensures
        #[trigger] kvs_view(s).len() == s.len(),
    decreases s,
{
    if s.len() > 0 {
        lemma_kvs_view_len(s.drop_last());
    }
}

pub broadcast proof fn lemma_kvs_view_index(s: Seq<(String, String)>, i: int)
    requires
        0 <= i < s.len(),
    ensures
        #[trigger] kvs_view(s)[i] == (s[i].0@, s[i].1@),
    decreases s,
{
    lemma_kvs_view_len(s);
    if s.len() > 0 && i < s.len() - 1 {
        lemma_kvs_view_index(s.drop_last(), i);
    }
}

pub proof fn lemma_pairs_view_concat(x: Seq<(String, Vec<String>)>, y: Seq<(String, Vec<String>)>)
    ensures
        pairs_view(x + y) =~= pairs_view(x) + pairs_view(y),
    decreases y,
{
    broadcast use group_views;

    if y.len() == 0 {
        assert(x + y =~= x);
    } else {
        lemma_pairs_view_concat(x, y.drop_last());
        assert((x + y).drop_last() =~= x + y.drop_last());
        assert((x + y).last() == y.last());
        assert(pairs_view(x + y) =~= pairs_view(x + y.drop_last()).push(
            ((x + y).last().0@, strs_view((x + y).last().1@)),
        ));
        assert(pairs_view(x) + pairs_view(y) =~= (pairs_view(x) + pairs_view(y.drop_last())).push(
            (y.last().0@, strs_view(y.last().1@)),
        ));
    }
}

} // verus!
