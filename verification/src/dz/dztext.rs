//! Char-level text operations of the DZ card grammar, stated over
//! `Seq<char>` and implemented on `Vec<char>`.
use vstd::prelude::*;
use crate::text::{has_prefix, has_suffix, is_digit, occurs_at, matches_at, slice_vec};

verus! {

/// `s` with every trailing `c` removed (`trim_end_matches(c)`).
pub open spec fn trim_end_char(s: Seq<char>, c: char) -> Seq<char>
    decreases s.len(),
{
    if s.len() > 0 && s.last() == c {
        trim_end_char(s.drop_last(), c)
    } else {
        s
    }
}

pub fn trim_end_char_exec(v: &Vec<char>, c: char) -> (r: Vec<char>)
    ensures
        r@ == trim_end_char(v@, c),
{
    let mut n = v.len();
    assert(v@.subrange(0, n as int) =~= v@);
    while n > 0 && v[n - 1] == c
        invariant
            n <= v@.len(),
            trim_end_char(v@.subrange(0, n as int), c) == trim_end_char(v@, c),
        decreases n,
    {
        assert(v@.subrange(0, n as int).drop_last() =~= v@.subrange(0, n - 1));
        n = n - 1;
    }
    slice_vec(v, 0, n)
}

/// First index of `c` in `s` at or after `i` (the length when there is none).
pub open spec fn index_from(s: Seq<char>, c: char, i: int) -> int
    decreases s.len() - i,
{
    if i < 0 {
        index_from(s, c, 0)
    } else if i >= s.len() {
        s.len() as int
    } else if s[i] == c {
        i
    } else {
        index_from(s, c, i + 1)
    }
}

pub proof fn lemma_index_from(s: Seq<char>, c: char, i: int)
    requires
        0 <= i <= s.len(),
    ensures
        i <= index_from(s, c, i) <= s.len(),
        index_from(s, c, i) < s.len() ==> s[index_from(s, c, i)] == c,
        forall|k: int| i <= k < index_from(s, c, i) ==> s[k] != c,
    decreases s.len() - i,
{
    if i < s.len() && s[i] != c {
        lemma_index_from(s, c, i + 1);
    }
}

pub fn index_from_exec(v: &Vec<char>, c: char, i: usize) -> (r: usize)
    requires
        i <= v@.len(),
    ensures
        r == index_from(v@, c, i as int),
        i <= r <= v@.len(),
{
    let mut k = i;
    while k < v.len() && v[k] != c
        invariant
            i <= k <= v@.len(),
            index_from(v@, c, k as int) == index_from(v@, c, i as int),
        decreases v@.len() - k,
    {
        k = k + 1;
    }
    k
}

/// Last index of `c` in the first `n` chars of `s` (-1 when there is none).
pub open spec fn last_index(s: Seq<char>, c: char, n: int) -> int
    decreases n,
{
    if n <= 0 {
        -1
    } else if s[n - 1] == c {
        n - 1
    } else {
        last_index(s, c, n - 1)
    }
}

pub proof fn lemma_last_index(s: Seq<char>, c: char, n: int)
    requires
        0 <= n <= s.len(),
    ensures
        -1 <= last_index(s, c, n) < n,
        last_index(s, c, n) >= 0 ==> s[last_index(s, c, n)] == c,
    decreases n,
{
    if n > 0 && s[n - 1] != c {
        lemma_last_index(s, c, n - 1);
    }
}

/// Last index of `c` in `v`, if any.
pub fn last_index_exec(v: &Vec<char>, c: char) -> (r: Option<usize>)
    ensures
        match r {
            Some(k) => last_index(v@, c, v@.len() as int) == k,
            None => last_index(v@, c, v@.len() as int) == -1,
        },
{
    let mut n = v.len();
    while n > 0 && v[n - 1] != c
        invariant
            n <= v@.len(),
            last_index(v@, c, n as int) == last_index(v@, c, v@.len() as int),
        decreases n,
    {
        n = n - 1;
    }
    if n == 0 {
        None
    } else {
        Some(n - 1)
    }
}

/// `s` without its first `c` (`replacen(c, "", 1)`).
pub open spec fn drop_first_char(s: Seq<char>, c: char) -> Seq<char> {
    let k = index_from(s, c, 0);
    if k < s.len() {
        s.subrange(0, k) + s.subrange(k + 1, s.len() as int)
    } else {
        s
    }
}

pub fn drop_first_char_exec(v: &Vec<char>, c: char) -> (r: Vec<char>)
    ensures
        r@ == drop_first_char(v@, c),
{
    let k = index_from_exec(v, c, 0);
    if k < v.len() {
        let mut a = slice_vec(v, 0, k);
        let b = slice_vec(v, k + 1, v.len());
        let ghost a0 = a@;
        let mut q: usize = 0;
        while q < b.len()
            invariant
                q <= b@.len(),
                a@ == a0 + b@.subrange(0, q as int),
            decreases b@.len() - q,
        {
            a.push(b[q]);
            q = q + 1;
            assert(a@ =~= a0 + b@.subrange(0, q as int));
        }
        assert(b@.subrange(0, b@.len() as int) =~= b@);
        a
    } else {
        slice_vec(v, 0, v.len())
    }
}

/// `s` with every occurrence of the nonempty `p` removed, left to right
/// (`replace(p, "")`).
pub open spec fn remove_all(s: Seq<char>, p: Seq<char>, i: int) -> Seq<char>
    decreases s.len() - i,
{
    if p.len() == 0 || i < 0 || i >= s.len() {
        s.subrange(if 0 <= i <= s.len() { i } else { s.len() as int }, s.len() as int)
    } else if occurs_at(s, p, i) {
        remove_all(s, p, i + p.len())
    } else {
        seq![s[i]] + remove_all(s, p, i + 1)
    }
}

pub fn remove_all_exec(v: &Vec<char>, p: &Vec<char>) -> (r: Vec<char>)
    requires
        p@.len() > 0,
    ensures
        r@ == remove_all(v@, p@, 0),
{
    let mut out: Vec<char> = Vec::new();
    let mut i: usize = 0;
    while i < v.len()
        invariant
            i <= v@.len(),
            p@.len() > 0,
            out@ + remove_all(v@, p@, i as int) == remove_all(v@, p@, 0),
        decreases v@.len() - i,
    {
        if matches_at(v, p, i) {
            let ghost j = i + p@.len();
            assert(j <= v@.len());
            i = i + p.len();
        } else {
            let ghost o0 = out@;
            out.push(v[i]);
            assert(out@ + remove_all(v@, p@, i + 1) =~= o0 + remove_all(v@, p@, i as int));
            i = i + 1;
        }
    }
    assert(remove_all(v@, p@, i as int) =~= Seq::<char>::empty());
    assert(out@ =~= out@ + Seq::<char>::empty());
    out
}

/// Index of the first ASCII digit of `s` when it is not the first char
/// (the split `find_digit_split` finds), or -1.
pub open spec fn digit_split(s: Seq<char>) -> int {
    let k = first_digit(s, 0);
    if 0 < k < s.len() {
        k
    } else {
        -1
    }
}

/// First index at or after `i` holding an ASCII digit (the length when none does).
pub open spec fn first_digit(s: Seq<char>, i: int) -> int
    decreases s.len() - i,
{
    if i < 0 || i >= s.len() {
        s.len() as int
    } else if is_digit(s[i]) {
        i
    } else {
        first_digit(s, i + 1)
    }
}

pub fn digit_split_exec(v: &Vec<char>) -> (r: Option<usize>)
    ensures
        match r {
            Some(k) => digit_split(v@) == k && 0 < k < v@.len(),
            None => digit_split(v@) == -1,
        },
{
    let mut k: usize = 0;
    while k < v.len() && !('0' <= v[k] && v[k] <= '9')
        invariant
            k <= v@.len(),
            first_digit(v@, k as int) == first_digit(v@, 0),
        decreases v@.len() - k,
    {
        k = k + 1;
    }
    if 0 < k && k < v.len() {
        Some(k)
    } else {
        None
    }
}

pub fn starts_with_char(v: &Vec<char>, c: char) -> (r: bool)
    ensures
        r == (v@.len() > 0 && v@[0] == c),
{
    v.len() > 0 && v[0] == c
}

pub fn ends_with_char(v: &Vec<char>, c: char) -> (r: bool)
    ensures
        r == (v@.len() > 0 && v@.last() == c),
{
    v.len() > 0 && v[v.len() - 1] == c
}

} // verus!
