//! The byte cache of loaded assets: at most `limit` bytes in all, least
//! recently used entries evicted first, one entry per key.
use vstd::prelude::*;
use crate::dz::ports::StaticCardId;
use crate::text::{append_str, chars_of, copy_string, has_prefix, owned, starts_with_lit};

verus! {

/// A cached entry as plain values.
pub type EntryV = (Seq<char>, Seq<u8>);

/// Bytes held by `s`.
pub open spec fn sizes(s: Seq<EntryV>) -> nat
    decreases s.len(),
{
    if s.len() == 0 {
        0
    } else {
        sizes(s.drop_last()) + s.last().1.len()
    }
}

/// Every key occurs once.
pub open spec fn unique_keys(s: Seq<EntryV>) -> bool {
    forall|i: int, j: int| 0 <= i < j < s.len() ==> s[i].0 != s[j].0
}

/// Whether some entry has key `k`.
pub open spec fn has_key(s: Seq<EntryV>, k: Seq<char>) -> bool {
    exists|i: int| 0 <= i < s.len() && s[i].0 == k
}

/// Index of the entry with key `k` (the length when there is none).
pub open spec fn key_pos(s: Seq<EntryV>, k: Seq<char>) -> int
    decreases s.len(),
{
    if s.len() == 0 {
        0
    } else if s.last().0 == k && !has_key(s.drop_last(), k) {
        s.len() - 1
    } else if has_key(s.drop_last(), k) {
        key_pos(s.drop_last(), k)
    } else {
        s.len() as int
    }
}

/// `s` without its entry at `i`.
pub open spec fn remove_at(s: Seq<EntryV>, i: int) -> Seq<EntryV> {
    s.subrange(0, i) + s.subrange(i + 1, s.len() as int)
}

/// `s` with the entry of key `k` moved to the back (most recently used).
pub open spec fn touch(s: Seq<EntryV>, k: Seq<char>) -> Seq<EntryV> {
    let p = key_pos(s, k);
    if 0 <= p < s.len() {
        remove_at(s, p).push(s[p])
    } else {
        s
    }
}

/// `s` without the entry of key `k`.
pub open spec fn drop_key(s: Seq<EntryV>, k: Seq<char>) -> Seq<EntryV> {
    let p = key_pos(s, k);
    if 0 <= p < s.len() {
        remove_at(s, p)
    } else {
        s
    }
}

/// Entries evicted from the front until `extra` more bytes fit in `limit`.
pub open spec fn evict_front(s: Seq<EntryV>, extra: nat, limit: nat) -> Seq<EntryV>
    decreases s.len(),
{
    if s.len() > 0 && sizes(s) + extra > limit {
        evict_front(s.drop_first(), extra, limit)
    } else {
        s
    }
}

/// The entries after `data` is stored under `k`; data larger than the whole
/// cache is not stored.
pub open spec fn inserted(s: Seq<EntryV>, k: Seq<char>, data: Seq<u8>, limit: nat) -> Seq<EntryV> {
    if data.len() > limit {
        s
    } else {
        evict_front(drop_key(s, k), data.len(), limit).push((k, data))
    }
}

/// The entries whose key does not start with `p`, in order.
pub open spec fn keep_unprefixed(s: Seq<EntryV>, p: Seq<char>) -> Seq<EntryV>
    decreases s.len(),
{
    if s.len() == 0 {
        Seq::empty()
    } else {
        let r = keep_unprefixed(s.drop_last(), p);
        if has_prefix(s.last().0, p) {
            r
        } else {
            r.push(s.last())
        }
    }
}

// ---------------------------------------------------------------------------
// Facts about the model
// ---------------------------------------------------------------------------

pub proof fn lemma_key_pos(s: Seq<EntryV>, k: Seq<char>)
    requires
        unique_keys(s),
    ensures
        0 <= key_pos(s, k) <= s.len(),
        key_pos(s, k) < s.len() <==> has_key(s, k),
        key_pos(s, k) < s.len() ==> s[key_pos(s, k)].0 == k,
        forall|i: int| 0 <= i < s.len() && s[i].0 == k ==> i == key_pos(s, k),
    decreases s.len(),
{
    if s.len() > 0 {
        let t = s.drop_last();
        assert(unique_keys(t));
        lemma_key_pos(t, k);
        if has_key(t, k) {
            let j = choose|j: int| 0 <= j < t.len() && t[j].0 == k;
            assert(s[j].0 == k);
        }
        if s.last().0 == k {
            assert(s[s.len() - 1].0 == k);
        }
        assert forall|i: int| 0 <= i < s.len() && s[i].0 == k implies i == key_pos(s, k) by {
            if i < s.len() - 1 {
                assert(t[i].0 == k);
            }
        }
        if has_key(s, k) {
            let j = choose|j: int| 0 <= j < s.len() && s[j].0 == k;
            if j < s.len() - 1 {
                assert(t[j].0 == k);
            }
        }
    }
}

pub proof fn lemma_sizes_push(s: Seq<EntryV>, e: EntryV)
    ensures
        sizes(s.push(e)) == sizes(s) + e.1.len(),
{
    assert(s.push(e).drop_last() =~= s);
}

pub proof fn lemma_sizes_add(a: Seq<EntryV>, b: Seq<EntryV>)
    ensures
        sizes(a + b) == sizes(a) + sizes(b),
    decreases b.len(),
{
    if b.len() == 0 {
        assert(a + b =~= a);
    } else {
        assert((a + b).drop_last() =~= a + b.drop_last());
        lemma_sizes_add(a, b.drop_last());
    }
}

pub proof fn lemma_sizes_remove_at(s: Seq<EntryV>, i: int)
    requires
        0 <= i < s.len(),
    ensures
        sizes(remove_at(s, i)) + s[i].1.len() == sizes(s),
{
    lemma_sizes_add(s.subrange(0, i), s.subrange(i + 1, s.len() as int));
    lemma_sizes_add(s.subrange(0, i), s.subrange(i, s.len() as int));
    let rest = s.subrange(i, s.len() as int);
    assert(rest =~= seq![s[i]] + s.subrange(i + 1, s.len() as int));
    lemma_sizes_add(seq![s[i]], s.subrange(i + 1, s.len() as int));
    assert(seq![s[i]].drop_last() =~= Seq::<EntryV>::empty());
    assert(sizes(Seq::<EntryV>::empty()) == 0);
    assert(sizes(seq![s[i]]) == s[i].1.len());
    assert(s.subrange(0, i) + rest =~= s);
}

pub proof fn lemma_sizes_drop_first(s: Seq<EntryV>)
    requires
        s.len() > 0,
    ensures
        sizes(s.drop_first()) + s[0].1.len() == sizes(s),
{
    lemma_sizes_remove_at(s, 0);
    assert(remove_at(s, 0) =~= s.drop_first());
}

proof fn lemma_unique_remove_at(s: Seq<EntryV>, i: int)
    requires
        unique_keys(s),
        0 <= i < s.len(),
    ensures
        unique_keys(remove_at(s, i)),
        !has_key(remove_at(s, i), s[i].0),
        forall|k: Seq<char>| k != s[i].0 ==> (has_key(remove_at(s, i), k) <==> has_key(s, k)),
{
    let r = remove_at(s, i);
    assert forall|a: int| 0 <= a < r.len() implies r[a] == (if a < i { s[a] } else { s[a + 1] }) by {}
    assert forall|a: int, b: int| 0 <= a < b < r.len() implies r[a].0 != r[b].0 by {
        let sa = if a < i { a } else { a + 1 };
        let sb = if b < i { b } else { b + 1 };
        assert(r[a] == s[sa] && r[b] == s[sb]);
    }
    if has_key(r, s[i].0) {
        let a = choose|a: int| 0 <= a < r.len() && r[a].0 == s[i].0;
        let sa = if a < i { a } else { a + 1 };
        assert(r[a] == s[sa]);
    }
    assert forall|k: Seq<char>| k != s[i].0 implies (has_key(r, k) <==> has_key(s, k)) by {
        if has_key(r, k) {
            let a = choose|a: int| 0 <= a < r.len() && r[a].0 == k;
            let sa = if a < i { a } else { a + 1 };
            assert(r[a] == s[sa]);
        }
        if has_key(s, k) {
            let b = choose|b: int| 0 <= b < s.len() && s[b].0 == k;
            let rb = if b < i { b } else { b - 1 };
            assert(r[rb] == s[b]);
        }
    }
}

proof fn lemma_evict_front(s: Seq<EntryV>, extra: nat, limit: nat)
    requires
        unique_keys(s),
        extra <= limit,
    ensures
        unique_keys(evict_front(s, extra, limit)),
        sizes(evict_front(s, extra, limit)) + extra <= limit,
        forall|k: Seq<char>| has_key(evict_front(s, extra, limit), k) ==> has_key(s, k),
    decreases s.len(),
{
    if s.len() > 0 && sizes(s) + extra > limit {
        let t = s.drop_first();
        assert forall|a: int, b: int| 0 <= a < b < t.len() implies t[a].0 != t[b].0 by {
            assert(t[a] == s[a + 1] && t[b] == s[b + 1]);
        }
        lemma_evict_front(t, extra, limit);
        assert forall|k: Seq<char>| has_key(t, k) implies has_key(s, k) by {
            let a = choose|a: int| 0 <= a < t.len() && t[a].0 == k;
            assert(s[a + 1] == t[a]);
        }
    } else if s.len() == 0 {
        assert(sizes(s) == 0);
    }
}

proof fn lemma_keep_unprefixed(s: Seq<EntryV>, p: Seq<char>)
    requires
        unique_keys(s),
    ensures
        unique_keys(keep_unprefixed(s, p)),
        sizes(keep_unprefixed(s, p)) <= sizes(s),
        forall|k: Seq<char>| has_key(keep_unprefixed(s, p), k) ==> has_key(s, k) && !has_prefix(k, p),
    decreases s.len(),
{
    if s.len() > 0 {
        let t = s.drop_last();
        assert(unique_keys(t));
        lemma_keep_unprefixed(t, p);
        let r = keep_unprefixed(t, p);
        assert forall|k: Seq<char>| has_key(t, k) implies has_key(s, k) by {
            let a = choose|a: int| 0 <= a < t.len() && t[a].0 == k;
            assert(s[a] == t[a]);
        }
        if !has_prefix(s.last().0, p) {
            lemma_sizes_push(r, s.last());
            assert(!has_key(r, s.last().0)) by {
                if has_key(r, s.last().0) {
                    assert(has_key(t, s.last().0));
                    let a = choose|a: int| 0 <= a < t.len() && t[a].0 == s.last().0;
                    assert(s[a].0 == s[s.len() - 1].0);
                }
            }
            let r2 = r.push(s.last());
            assert forall|a: int, b: int| 0 <= a < b < r2.len() implies r2[a].0 != r2[b].0 by {
                if b == r2.len() - 1 {
                    assert(r2[a] == r[a]);
                }
            }
            assert forall|k: Seq<char>| has_key(r2, k) implies has_key(s, k) && !has_prefix(k, p) by {
                let a = choose|a: int| 0 <= a < r2.len() && r2[a].0 == k;
                if a < r.len() {
                    assert(r[a] == r2[a]);
                } else {
                    assert(s[s.len() - 1] == r2[a]);
                }
            }
        }
    }
}

// ---------------------------------------------------------------------------
// The cache
// ---------------------------------------------------------------------------

pub struct AssetCache {
    limit: usize,
    entries: Vec<(String, Vec<u8>)>,
    total: usize,
}

pub open spec fn entry_views(v: Seq<(String, Vec<u8>)>) -> Seq<EntryV> {
    v.map_values(|e: (String, Vec<u8>)| (e.0@, e.1@))
}

impl AssetCache {
    /// The entries, least recently used first.
    pub closed spec fn entries(&self) -> Seq<EntryV> {
        entry_views(self.entries@)
    }

    pub closed spec fn limit_bytes(&self) -> nat {
        self.limit as nat
    }

    /// Keys are unique and the running total is the bytes held.
    pub closed spec fn wf(&self) -> bool {
        &&& unique_keys(self.entries())
        &&& self.total as nat == sizes(self.entries())
    }

    pub fn new(limit: usize) -> (r: AssetCache)
        ensures
            r.wf(),
            r.entries() == Seq::<EntryV>::empty(),
            r.limit_bytes() == limit,
    {
        let r = AssetCache { limit, entries: Vec::new(), total: 0 };
        assert(r.entries() =~= Seq::<EntryV>::empty());
        r
    }

    /// The same entries under a new byte limit, which later stores keep to.
    pub fn with_limit(self, limit: usize) -> (r: AssetCache)
        requires
            self.wf(),
        ensures
            r.wf(),
            r.entries() == self.entries(),
            r.limit_bytes() == limit,
    {
        AssetCache { limit, entries: self.entries, total: self.total }
    }

    /// The byte limit.
    pub fn limit(&self) -> (r: usize)
        ensures
            r == self.limit_bytes(),
    {
        self.limit
    }

    /// Bytes held.
    pub fn total_size(&self) -> (r: usize)
        requires
            self.wf(),
        ensures
            r == sizes(self.entries()),
    {
        self.total
    }

    fn find(&self, key: &str) -> (r: usize)
        requires
            self.wf(),
        ensures
            r == key_pos(self.entries(), key@),
    {
        proof {
            lemma_key_pos(self.entries(), key@);
        }
        let kc = chars_of(key);
        let mut i: usize = 0;
        while i < self.entries.len()
            invariant
                i <= self.entries@.len(),
                kc@ == key@,
                self.wf(),
                forall|q: int| 0 <= q < i ==> self.entries()[q].0 != key@,
            decreases self.entries@.len() - i,
        {
            let name = chars_of(self.entries[i].0.as_str());
            assert(self.entries()[i as int].0 == self.entries@[i as int].0@);
            if crate::text::seq_eq(&name, &kc) {
                proof {
                    lemma_key_pos(self.entries(), key@);
                    assert(self.entries()[i as int].0 == key@);
                }
                return i;
            }
            i = i + 1;
        }
        proof {
            if has_key(self.entries(), key@) {
                let j = choose|j: int| 0 <= j < self.entries().len() && self.entries()[j].0 == key@;
            }
        }
        i
    }

    fn take_at(&mut self, i: usize) -> (r: (String, Vec<u8>))
        requires
            i < old(self).entries().len(),
        ensures
            final(self).entries() == remove_at(old(self).entries(), i as int),
            (r.0@, r.1@) == old(self).entries()[i as int],
            final(self).limit == old(self).limit,
            final(self).total == old(self).total,
    {
        let ghost before = self.entries@;
        let e = self.entries.remove(i);
        proof {
            assert(entry_views(self.entries@) =~= remove_at(entry_views(before), i as int));
        }
        e
    }

    /// The data stored under `key`, if any; the entry becomes the most
    /// recently used.
    pub fn get(&mut self, key: &str) -> (r: Option<Vec<u8>>)
        requires
            old(self).wf(),
        ensures
            final(self).wf(),
            final(self).limit_bytes() == old(self).limit_bytes(),
            final(self).entries() == touch(old(self).entries(), key@),
            match r {
                Some(d) => has_key(old(self).entries(), key@) && d@ == old(self).entries()[key_pos(
                    old(self).entries(),
                    key@,
                )].1,
                None => !has_key(old(self).entries(), key@),
            },
    {
        proof {
            lemma_key_pos(self.entries(), key@);
        }
        let ghost s0 = self.entries();
        let p = self.find(key);
        if p < self.entries.len() {
            let e = self.take_at(p);
            let data = crate::dz::asset_cache::copy_bytes(&e.1);
            let ghost ev = (e.0@, e.1@);
            let ghost mid = self.entries();
            self.entries.push(e);
            proof {
                assert(self.entries() =~= mid.push(ev));
                lemma_unique_remove_at(s0, p as int);
                lemma_sizes_remove_at(s0, p as int);
                lemma_sizes_push(mid, ev);
                let t = self.entries();
                assert forall|a: int, b: int| 0 <= a < b < t.len() implies t[a].0 != t[b].0 by {
                    if b == t.len() - 1 {
                        assert(t[a] == mid[a]);
                        if t[a].0 == ev.0 {
                            assert(has_key(mid, ev.0));
                        }
                    }
                }
            }
            Some(data)
        } else {
            None
        }
    }

    /// Stores `data` under `key`, replacing an entry of that key and evicting
    /// least recently used entries until it fits; data larger than the whole
    /// cache is not stored.
    pub fn insert(&mut self, key: &str, data: Vec<u8>)
        requires
            old(self).wf(),
        ensures
            final(self).wf(),
            final(self).limit_bytes() == old(self).limit_bytes(),
            final(self).entries() == inserted(old(self).entries(), key@, data@, old(self).limit_bytes()),
    {
        let ghost s0 = self.entries();
        let ghost lim = self.limit as nat;
        let size = data.len();
        if size > self.limit {
            return;
        }
        proof {
            lemma_key_pos(s0, key@);
        }
        let p = self.find(key);
        if p < self.entries.len() {
            let old_entry = self.take_at(p);
            proof {
                lemma_sizes_remove_at(s0, p as int);
                lemma_unique_remove_at(s0, p as int);
            }
            self.total = self.total - old_entry.1.len();
        }
        let ghost s1 = self.entries();
        assert(s1 == drop_key(s0, key@));
        assert(!has_key(s1, key@));
        assert(unique_keys(s1));
        // Evict from the front while the new data does not fit.
        while self.entries.len() > 0 && self.total > self.limit - size
            invariant
                size <= self.limit,
                lim == self.limit as nat,
                unique_keys(self.entries()),
                self.total as nat == sizes(self.entries()),
                evict_front(self.entries(), size as nat, lim) == evict_front(s1, size as nat, lim),
                forall|k: Seq<char>| has_key(self.entries(), k) ==> has_key(s1, k),
            decreases self.entries@.len(),
        {
            let ghost cur = self.entries();
            proof {
                lemma_sizes_drop_first(cur);
                lemma_unique_remove_at(cur, 0);
                assert(remove_at(cur, 0) =~= cur.drop_first());
            }
            let gone = self.take_at(0);
            self.total = self.total - gone.1.len();
            proof {
                assert forall|k: Seq<char>| has_key(self.entries(), k) implies has_key(s1, k) by {
                    let a = choose|a: int| 0 <= a < self.entries().len() && self.entries()[a].0 == k;
                    assert(cur[a + 1] == self.entries()[a]);
                }
            }
        }
        let ghost s2 = self.entries();
        assert(s2 == evict_front(s1, size as nat, lim));
        proof {
            lemma_evict_front(s1, size as nat, lim);
            lemma_sizes_push(s2, (key@, data@));
        }
        let k = owned(key);
        let ghost dv = data@;
        self.entries.push((k, data));
        self.total = self.total + size;
        proof {
            assert(self.entries() =~= s2.push((key@, dv)));
            let t = self.entries();
            assert forall|a: int, b: int| 0 <= a < b < t.len() implies t[a].0 != t[b].0 by {
                if b == t.len() - 1 {
                    assert(t[a] == s2[a]);
                    if t[a].0 == key@ {
                        assert(has_key(s2, key@));
                    }
                }
            }
        }
    }

    /// Drops every entry whose key starts with `prefix`.
    pub fn evict_prefix(&mut self, prefix: &str)
        requires
            old(self).wf(),
        ensures
            final(self).wf(),
            final(self).limit_bytes() == old(self).limit_bytes(),
            final(self).entries() == keep_unprefixed(old(self).entries(), prefix@),
    {
        let ghost s0 = self.entries();
        let pc = chars_of(prefix);
        let mut kept: Vec<(String, Vec<u8>)> = Vec::new();
        let mut total: usize = 0;
        let mut i: usize = 0;
        proof {
            lemma_keep_unprefixed(s0, prefix@);
            assert(s0.subrange(0, 0) =~= Seq::<EntryV>::empty());
        }
        while i < self.entries.len()
            invariant
                i <= self.entries@.len(),
                s0 == self.entries(),
                pc@ == prefix@,
                unique_keys(s0),
                self.total as nat == sizes(s0),
                entry_views(kept@) == keep_unprefixed(s0.subrange(0, i as int), prefix@),
                total as nat == sizes(entry_views(kept@)),
            decreases self.entries@.len() - i,
        {
            let ghost pre = s0.subrange(0, i as int);
            assert(s0.subrange(0, i + 1).drop_last() =~= pre);
            assert(s0.subrange(0, i + 1).last() == s0[i as int]);
            proof {
                lemma_sizes_add(pre, s0.subrange(i as int, s0.len() as int));
                assert(pre + s0.subrange(i as int, s0.len() as int) =~= s0);
                lemma_keep_unprefixed(pre, prefix@);
                assert(unique_keys(pre));
            }
            let name = chars_of(self.entries[i].0.as_str());
            assert(s0[i as int].0 == self.entries@[i as int].0@);
            if !crate::text::matches_at(&name, &pc, 0) {
                let e = (copy_string(&self.entries[i].0), copy_bytes(&self.entries[i].1));
                let ghost before = entry_views(kept@);
                proof {
                    lemma_sizes_push(before, (e.0@, e.1@));
                    lemma_sizes_push(pre, s0[i as int]);
                    assert(pre.push(s0[i as int]) =~= s0.subrange(0, i + 1));
                    lemma_sizes_add(s0.subrange(0, i + 1), s0.subrange(i + 1, s0.len() as int));
                    assert(s0.subrange(0, i + 1) + s0.subrange(i + 1, s0.len() as int) =~= s0);
                }
                total = total + self.entries[i].1.len();
                kept.push(e);
                assert(entry_views(kept@) =~= before.push(s0[i as int]));
            }
            i = i + 1;
        }
        assert(s0.subrange(0, self.entries@.len() as int) =~= s0);
        self.entries = kept;
        self.total = total;
    }
}

/// A copy of a byte buffer.
pub fn copy_bytes(v: &Vec<u8>) -> (r: Vec<u8>)
    ensures
        r@ == v@,
{
    let mut out: Vec<u8> = Vec::new();
    let mut i: usize = 0;
    while i < v.len()
        invariant
            i <= v@.len(),
            out@ == v@.subrange(0, i as int),
        decreases v@.len() - i,
    {
        out.push(v[i]);
        assert(out@ =~= v@.subrange(0, i + 1));
        i = i + 1;
    }
    assert(v@.subrange(0, v@.len() as int) =~= v@);
    out
}

/// The cache key of a shared asset.
pub fn shared_key(keyword: &str) -> (r: String)
    ensures
        r@ == "shared:"@ + keyword@,
{
    let mut s = owned("shared:");
    append_str(&mut s, keyword);
    s
}

/// The cache key of a card's asset.
pub fn card_key(card_id: &str, asset_name: &str) -> (r: String)
    ensures
        r@ == "card:"@ + card_id@ + ":"@ + asset_name@,
{
    let mut s = owned("card:");
    append_str(&mut s, card_id);
    append_str(&mut s, ":");
    append_str(&mut s, asset_name);
    s
}

/// The key prefix of all of a card's assets.
pub fn card_prefix(card_id: &str) -> (r: String)
    ensures
        r@ == "card:"@ + card_id@ + ":"@,
{
    let mut s = owned("card:");
    append_str(&mut s, card_id);
    append_str(&mut s, ":");
    s
}

/// A read after a store gives back what was stored, unless the data is
/// larger than the whole cache.
pub proof fn lemma_get_after_insert(s: Seq<EntryV>, k: Seq<char>, data: Seq<u8>, limit: nat)
    requires
        unique_keys(s),
        sizes(s) <= limit,
        data.len() <= limit,
    ensures
        has_key(inserted(s, k, data, limit), k),
        inserted(s, k, data, limit)[key_pos(inserted(s, k, data, limit), k)].1 == data,
{
    let t = inserted(s, k, data, limit);
    lemma_key_pos(s, k);
    let s1 = drop_key(s, k);
    if 0 <= key_pos(s, k) < s.len() {
        lemma_unique_remove_at(s, key_pos(s, k));
    } else {
        assert(!has_key(s, k));
    }
    assert(!has_key(s1, k));
    assert(unique_keys(s1));
    lemma_evict_front(s1, data.len(), limit);
    let s2 = evict_front(s1, data.len(), limit);
    assert(!has_key(s2, k));
    assert forall|a: int, b: int| 0 <= a < b < t.len() implies t[a].0 != t[b].0 by {
        if b == t.len() - 1 {
            assert(t[a] == s2[a]);
            if t[a].0 == k {
                assert(has_key(s2, k));
            }
        }
    }
    assert(t[t.len() - 1].0 == k);
    lemma_key_pos(t, k);
}

/// A stored entry never makes the cache exceed its limit.
pub proof fn lemma_insert_fits(s: Seq<EntryV>, k: Seq<char>, data: Seq<u8>, limit: nat)
    requires
        unique_keys(s),
        sizes(s) <= limit,
    ensures
        sizes(inserted(s, k, data, limit)) <= limit,
        unique_keys(inserted(s, k, data, limit)),
{
    if data.len() <= limit {
        lemma_key_pos(s, k);
        let s1 = drop_key(s, k);
        if 0 <= key_pos(s, k) < s.len() {
            lemma_unique_remove_at(s, key_pos(s, k));
        } else {
            assert(!has_key(s, k));
        }
        lemma_evict_front(s1, data.len(), limit);
        let s2 = evict_front(s1, data.len(), limit);
        lemma_sizes_push(s2, (k, data));
        let t = s2.push((k, data));
        assert forall|a: int, b: int| 0 <= a < b < t.len() implies t[a].0 != t[b].0 by {
            if b == t.len() - 1 {
                assert(t[a] == s2[a]);
                if t[a].0 == k {
                    assert(has_key(s2, k));
                    assert(has_key(s1, k));
                }
            }
        }
    }
}

proof fn lemma_evict_front_suffix(s: Seq<EntryV>, extra: nat, limit: nat) -> (j: int)
    ensures
        0 <= j <= s.len(),
        evict_front(s, extra, limit) == s.subrange(j, s.len() as int),
        forall|i: int| 0 <= i < j ==> #[trigger] sizes(s.subrange(i, s.len() as int)) + extra > limit,
        j == s.len() || sizes(s.subrange(j, s.len() as int)) + extra <= limit,
    decreases s.len(),
{
    if s.len() > 0 && sizes(s) + extra > limit {
        let j1 = lemma_evict_front_suffix(s.drop_first(), extra, limit);
        assert forall|i: int| 0 <= i < j1 + 1 implies #[trigger] sizes(s.subrange(i, s.len() as int)) + extra
            > limit by {
            if i == 0 {
                assert(s.subrange(0, s.len() as int) =~= s);
            } else {
                assert(s.drop_first().subrange(i - 1, s.drop_first().len() as int) =~= s.subrange(
                    i,
                    s.len() as int,
                ));
            }
        }
        assert(s.drop_first().subrange(j1, s.drop_first().len() as int) =~= s.subrange(j1 + 1, s.len() as int));
        j1 + 1
    } else {
        assert(s.subrange(0, s.len() as int) =~= s);
        0
    }
}

/// A store evicts only the least recently used entries: the entries kept
/// are the old ones (without the key stored) from some point on, each entry
/// before that point was dropped only while the new data did not yet fit,
/// and eviction stops as soon as it fits. The stored entry comes last.
pub proof fn lemma_insert_evicts_oldest(s: Seq<EntryV>, k: Seq<char>, data: Seq<u8>, limit: nat) -> (j: int)
    requires
        data.len() <= limit,
    ensures
        0 <= j <= drop_key(s, k).len(),
        inserted(s, k, data, limit) == drop_key(s, k).subrange(j, drop_key(s, k).len() as int).push((k, data)),
        forall|i: int|
            0 <= i < j ==> #[trigger] sizes(drop_key(s, k).subrange(i, drop_key(s, k).len() as int)) + data.len()
                > limit,
        j == drop_key(s, k).len() || sizes(drop_key(s, k).subrange(j, drop_key(s, k).len() as int))
            + data.len() <= limit,
{
    lemma_evict_front_suffix(drop_key(s, k), data.len(), limit)
}

/// Loads shared and per-card assets from folders, through a byte cache.
/// Reading the files is left to the caller; this keeps the folders, the
/// cache and its keys.
pub struct FsAssetLoader {
    pub cards_dir: String,
    pub assets_dir: String,
    pub cache: AssetCache,
}

impl FsAssetLoader {
    /// A loader with an empty cache of 32 MiB.
    pub fn new(cards_dir: &str, assets_dir: &str) -> (r: FsAssetLoader)
        ensures
            r.cards_dir@ == cards_dir@,
            r.assets_dir@ == assets_dir@,
            r.cache.wf(),
            r.cache.entries() == Seq::<EntryV>::empty(),
            r.cache.limit_bytes() == 32 * 1024 * 1024,
    {
        FsAssetLoader { cards_dir: owned(cards_dir), assets_dir: owned(assets_dir), cache: AssetCache::new(33554432) }
    }

    /// The same loader with another cache limit.
    pub fn with_cache_limit(self, limit_bytes: usize) -> (r: FsAssetLoader)
        requires
            self.cache.wf(),
        ensures
            r.cards_dir == self.cards_dir,
            r.assets_dir == self.assets_dir,
            r.cache.wf(),
            r.cache.entries() == self.cache.entries(),
            r.cache.limit_bytes() == limit_bytes,
    {
        FsAssetLoader { cards_dir: self.cards_dir, assets_dir: self.assets_dir, cache: self.cache.with_limit(limit_bytes) }
    }

    /// Forgets every cached asset of a card.
    pub fn evict_card_cache(&mut self, card_id: &StaticCardId)
        requires
            old(self).cache.wf(),
        ensures
            final(self).cache.wf(),
            final(self).cache.entries() == keep_unprefixed(old(self).cache.entries(), "card:"@ + card_id@ + ":"@),
            final(self).cache.limit_bytes() == old(self).cache.limit_bytes(),
            final(self).cards_dir == old(self).cards_dir,
            final(self).assets_dir == old(self).assets_dir,
    {
        let p = card_prefix(card_id.0.as_str());
        self.cache.evict_prefix(p.as_str());
    }
}

} // verus!
