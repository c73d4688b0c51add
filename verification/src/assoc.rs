//! Small association lists keyed by `String`: the library's stand-in for a
//! string-keyed hash map. The first entry with a key is the one that counts.
use vstd::prelude::*;

verus! {

/// The map an association list stands for: each key maps to the value of its
/// first entry.
pub open spec fn assoc_view<V>(s: Seq<(String, V)>) -> Map<Seq<char>, V>
    decreases s.len(),
{
    if s.len() == 0 {
        Map::empty()
    } else {
        let m = assoc_view(s.drop_last());
        let k = s.last().0@;
        if m.dom().contains(k) {
            m
        } else {
            m.insert(k, s.last().1)
        }
    }
}

/// The list without any entry for `k`, order kept.
pub open spec fn drop_key<V>(s: Seq<(String, V)>, k: Seq<char>) -> Seq<(String, V)>
    decreases s.len(),
{
    if s.len() == 0 {
        s
    } else {
        let rest = drop_key(s.drop_last(), k);
        if s.last().0@ == k {
            rest
        } else {
            rest.push(s.last())
        }
    }
}

/// `i` is the first entry of `s` whose key is `k`.
pub open spec fn first_key_at<V>(s: Seq<(String, V)>, k: Seq<char>, i: int) -> bool {
    &&& 0 <= i < s.len()
    &&& s[i].0@ == k
    &&& forall|j: int| 0 <= j < i ==> s[j].0@ != k
}

pub open spec fn no_key<V>(s: Seq<(String, V)>, k: Seq<char>) -> bool {
    forall|j: int| 0 <= j < s.len() ==> s[j].0@ != k
}

/// What `map.get(k).copied().unwrap_or(d)` gives.
pub open spec fn lookup_or<V>(m: Map<Seq<char>, V>, k: Seq<char>, d: V) -> V {
    if m.dom().contains(k) {
        m[k]
    } else {
        d
    }
}

pub proof fn lemma_no_key<V>(s: Seq<(String, V)>, k: Seq<char>)
    requires
        no_key(s, k),
    ensures
        !assoc_view(s).dom().contains(k),
    decreases s.len(),
{
    if s.len() > 0 {
        lemma_no_key(s.drop_last(), k);
    }
}

pub proof fn lemma_first_key<V>(s: Seq<(String, V)>, k: Seq<char>, i: int)
    requires
        first_key_at(s, k, i),
    ensures
        assoc_view(s).dom().contains(k),
        assoc_view(s)[k] == s[i].1,
    decreases s.len(),
{
    if i == s.len() - 1 {
        assert(no_key(s.drop_last(), k));
        lemma_no_key(s.drop_last(), k);
    } else {
        lemma_first_key(s.drop_last(), k, i);
    }
}

/// Replacing the value of the first entry for a key updates that key only.
pub proof fn lemma_update_first<V>(s: Seq<(String, V)>, k: Seq<char>, i: int, v: V)
    requires
        first_key_at(s, k, i),
    ensures
        assoc_view(s.update(i, (s[i].0, v))) == assoc_view(s).insert(k, v),
    decreases s.len(),
{
    let t = s.update(i, (s[i].0, v));
    if i == s.len() - 1 {
        assert(t.drop_last() =~= s.drop_last());
        assert(no_key(s.drop_last(), k));
        lemma_no_key(s.drop_last(), k);
        assert(assoc_view(t) =~= assoc_view(s).insert(k, v));
    } else {
        assert(t.drop_last() =~= s.drop_last().update(i, (s[i].0, v)));
        lemma_update_first(s.drop_last(), k, i, v);
        lemma_first_key(s.drop_last(), k, i);
        assert(assoc_view(t) =~= assoc_view(s).insert(k, v));
    }
}

/// Appending an entry for an absent key adds that key.
pub proof fn lemma_push_absent<V>(s: Seq<(String, V)>, e: (String, V))
    requires
        !assoc_view(s).dom().contains(e.0@),
    ensures
        assoc_view(s.push(e)) == assoc_view(s).insert(e.0@, e.1),
{
    assert(s.push(e).drop_last() =~= s);
}

/// Dropping every entry for a key removes that key and keeps the rest.
pub proof fn lemma_drop_key<V>(s: Seq<(String, V)>, k: Seq<char>)
    ensures
        assoc_view(drop_key(s, k)) == assoc_view(s).remove(k),
        no_key(drop_key(s, k), k),
    decreases s.len(),
{
    if s.len() == 0 {
        assert(assoc_view(s).remove(k) =~= Map::empty());
    } else {
        lemma_drop_key(s.drop_last(), k);
        let rest = drop_key(s.drop_last(), k);
        if s.last().0@ != k {
            assert(rest.push(s.last()).drop_last() =~= rest);
        }
        assert(assoc_view(drop_key(s, k)) =~= assoc_view(s).remove(k));
    }
}

pub proof fn lemma_drop_key_step<V>(s: Seq<(String, V)>, k: Seq<char>, i: int)
    requires
        0 <= i < s.len(),
    ensures
        drop_key(s.subrange(0, i + 1), k) == (if s[i].0@ == k {
            drop_key(s.subrange(0, i), k)
        } else {
            drop_key(s.subrange(0, i), k).push(s[i])
        }),
{
    assert(s.subrange(0, i + 1).drop_last() =~= s.subrange(0, i));
}

/// Index of the first entry whose key is `k`.
pub fn assoc_find<V>(v: &Vec<(String, V)>, k: &String) -> (r: Option<usize>)
    ensures
        match r {
            Some(i) => first_key_at(v@, k@, i as int),
            None => no_key(v@, k@),
        },
{
    let mut i: usize = 0;
    while i < v.len()
        invariant
            i <= v.len(),
            forall|j: int| 0 <= j < i ==> v@[j].0@ != k@,
        decreases v.len() - i,
    {
        if v[i].0 == *k {
            return Some(i);
        }
        i = i + 1;
    }
    None
}

/// The value stored for `k`, if any.
pub fn assoc_get<V: Copy>(v: &Vec<(String, V)>, k: &String) -> (r: Option<V>)
    ensures
        r == (if assoc_view(v@).dom().contains(k@) {
            Some(assoc_view(v@)[k@])
        } else {
            None::<V>
        }),
{
    match assoc_find(v, k) {
        Some(i) => {
            proof {
                lemma_first_key(v@, k@, i as int);
            }
            Some(v[i].1)
        },
        None => {
            proof {
                lemma_no_key(v@, k@);
            }
            None
        },
    }
}

/// Sets the value for `k`, adding an entry at the end when it has none.
pub fn assoc_set<V: Copy>(v: &mut Vec<(String, V)>, k: &String, val: V)
    ensures
        assoc_view(final(v)@) == assoc_view(old(v)@).insert(k@, val),
{
    match assoc_find(v, k) {
        Some(i) => {
            let key = v[i].0.clone();
            proof {
                lemma_update_first(old(v)@, k@, i as int, val);
            }
            v.set(i, (key, val));
        },
        None => {
            proof {
                lemma_no_key(v@, k@);
                lemma_push_absent(v@, (*k, val));
            }
            v.push((k.clone(), val));
        },
    }
}

/// Removes every entry for `k`.
pub fn assoc_remove<V: Copy>(v: &mut Vec<(String, V)>, k: &String)
    ensures
        assoc_view(final(v)@) == assoc_view(old(v)@).remove(k@),
        no_key(final(v)@, k@),
{
    let mut out: Vec<(String, V)> = Vec::new();
    let mut i: usize = 0;
    while i < v.len()
        invariant
            i <= v.len(),
            out@ == drop_key(v@.subrange(0, i as int), k@),
        decreases v.len() - i,
    {
        proof {
            lemma_drop_key_step(v@, k@, i as int);
        }
        if v[i].0 != *k {
            let e = (v[i].0.clone(), v[i].1);
            assert(e == v@[i as int]);
            out.push(e);
        }
        i = i + 1;
    }
    proof {
        assert(v@.subrange(0, v.len() as int) =~= v@);
        lemma_drop_key(v@, k@);
    }
    *v = out;
}

} // verus!
