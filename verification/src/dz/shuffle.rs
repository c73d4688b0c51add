//! Random reordering of a list, as rand's `SliceRandom::shuffle` does it.
use vstd::prelude::*;
use rand::seq::SliceRandom;

verus! {

/// `p` lists each index below `n` once.
pub open spec fn is_perm(p: Seq<int>, n: int) -> bool {
    &&& p.len() == n
    &&& forall|i: int| 0 <= i < n ==> 0 <= #[trigger] p[i] < n
    &&& forall|i: int, j: int| 0 <= i < j < n ==> p[i] != p[j]
}

/// `a` holds the items of `b`, each once, in some order.
pub open spec fn permutes<T>(a: Seq<T>, b: Seq<T>) -> bool {
    &&& a.len() == b.len()
    &&& exists|p: Seq<int>| is_perm(p, a.len() as int) && forall|i: int| 0 <= i < a.len() ==> a[i] == b[#[trigger] p[i]]
}

/// Reorders `v` at random with the thread-local generator
/// (`SliceRandom::shuffle` over `rand::thread_rng()`): every item stays,
/// once each. Which order comes out is left open.
#[verifier::external_body]
pub(crate) fn shuffle<T>(v: &mut Vec<T>)
    ensures
        permutes(final(v)@, old(v)@),
{
    let mut rng = rand::thread_rng();
    v.as_mut_slice().shuffle(&mut rng);
}

/// A reordering carries over to any view of the items.
pub proof fn lemma_permutes_map<T, U>(a: Seq<T>, b: Seq<T>, f: spec_fn(T) -> U)
    requires
        permutes(a, b),
    ensures
        permutes(a.map_values(f), b.map_values(f)),
{
    let p = choose|p: Seq<int>| is_perm(p, a.len() as int) && forall|i: int| 0 <= i < a.len() ==> a[i] == b[#[trigger] p[i]];
    assert forall|i: int| 0 <= i < a.len() implies a.map_values(f)[i] == b.map_values(f)[#[trigger] p[i]] by {
        assert(a[i] == b[p[i]]);
    }
}

} // verus!
