//! The built-in mark registry: the nine marks of the base set and how each
//! behaves.
use vstd::prelude::*;
use crate::dz::ports::{MarkId, MarkRegistryPort};
use crate::text::{chars_of, copy_string, owned, seq_eq};

verus! {

/// Marks of the base set, each with its kind.
pub open spec fn mark_table() -> Seq<(Seq<char>, Seq<char>)> {
    seq![
        ("仁心"@, "累计消耗型"@),
        ("自然"@, "累计消耗型"@),
        ("法令"@, "累计阈值型"@),
        ("坚守"@, "层数阈值型"@),
        ("谋略"@, "累计消耗型"@),
        ("零件"@, "累计消耗型"@),
        ("蓄力"@, "存储释放型"@),
        ("材料"@, "回合获取型"@),
        ("噬魂"@, "叠加引爆型"@),
    ]
}

/// Index of mark `id` in `t` (the length when it is not there).
pub open spec fn mark_index(t: Seq<(Seq<char>, Seq<char>)>, id: Seq<char>) -> int
    decreases t.len(),
{
    if t.len() == 0 {
        0
    } else if t[0].0 == id {
        0
    } else {
        1 + mark_index(t.drop_first(), id)
    }
}

pub proof fn lemma_mark_index(t: Seq<(Seq<char>, Seq<char>)>, id: Seq<char>)
    ensures
        0 <= mark_index(t, id) <= t.len(),
        mark_index(t, id) < t.len() ==> t[mark_index(t, id)].0 == id,
        mark_index(t, id) == t.len() ==> forall|k: int| 0 <= k < t.len() ==> t[k].0 != id,
    decreases t.len(),
{
    if t.len() > 0 && t[0].0 != id {
        lemma_mark_index(t.drop_first(), id);
        assert forall|k: int| 0 <= k < t.len() && mark_index(t, id) == t.len() implies t[k].0 != id by {
            if k > 0 {
                assert(t[k] == t.drop_first()[k - 1]);
            }
        }
    }
}

/// The registry of the nine built-in marks.
pub struct BundledMarkRegistry {
    marks: Vec<(String, String)>,
}

pub open spec fn pair_views(v: Seq<(String, String)>) -> Seq<(Seq<char>, Seq<char>)> {
    v.map_values(|e: (String, String)| (e.0@, e.1@))
}

impl BundledMarkRegistry {
    pub closed spec fn table(&self) -> Seq<(Seq<char>, Seq<char>)> {
        pair_views(self.marks@)
    }

    pub fn new() -> (r: BundledMarkRegistry)
        ensures
            r.table() == mark_table(),
    {
        let mut marks: Vec<(String, String)> = Vec::new();
        marks.push((owned("仁心"), owned("累计消耗型")));
        marks.push((owned("自然"), owned("累计消耗型")));
        marks.push((owned("法令"), owned("累计阈值型")));
        marks.push((owned("坚守"), owned("层数阈值型")));
        marks.push((owned("谋略"), owned("累计消耗型")));
        marks.push((owned("零件"), owned("累计消耗型")));
        marks.push((owned("蓄力"), owned("存储释放型")));
        marks.push((owned("材料"), owned("回合获取型")));
        marks.push((owned("噬魂"), owned("叠加引爆型")));
        let r = BundledMarkRegistry { marks };
        assert(pair_views(r.marks@) =~= mark_table());
        r
    }

    fn find(&self, id: &MarkId) -> (r: usize)
        ensures
            r == mark_index(self.table(), id@),
    {
        proof {
            lemma_mark_index(self.table(), id@);
        }
        let key = chars_of(id.0.as_str());
        let mut i: usize = 0;
        while i < self.marks.len()
            invariant
                i <= self.marks@.len(),
                key@ == id@,
                self.table() == pair_views(self.marks@),
                0 <= mark_index(self.table(), id@) <= self.table().len(),
                mark_index(self.table(), id@) < self.table().len() ==> self.table()[mark_index(self.table(), id@)].0 == id@,
                mark_index(self.table(), id@) == self.table().len() ==> forall|k: int| 0 <= k < self.table().len() ==> self.table()[k].0 != id@,
                forall|k: int| 0 <= k < i ==> self.table()[k].0 != id@,
            decreases self.marks@.len() - i,
        {
            let c = chars_of(self.marks[i].0.as_str());
            if seq_eq(&c, &key) {
                proof {
                    lemma_first_is_index(self.table(), id@, i as int);
                }
                return i;
            }
            i = i + 1;
        }
        proof {
            if mark_index(self.table(), id@) < self.table().len() {
                assert(self.table()[mark_index(self.table(), id@)].0 == id@);
            }
        }
        i
    }
}

pub proof fn lemma_first_is_index(t: Seq<(Seq<char>, Seq<char>)>, id: Seq<char>, i: int)
    requires
        0 <= i < t.len(),
        t[i].0 == id,
        forall|k: int| 0 <= k < i ==> t[k].0 != id,
    ensures
        mark_index(t, id) == i,
    decreases i,
{
    if i > 0 {
        assert forall|k: int| 0 <= k < i - 1 implies t.drop_first()[k].0 != id by {
            assert(t.drop_first()[k] == t[k + 1]);
        }
        lemma_first_is_index(t.drop_first(), id, i - 1);
    }
}

impl MarkRegistryPort for BundledMarkRegistry {
    open spec fn known(&self, id: Seq<char>) -> bool {
        mark_index(self.table(), id) < self.table().len()
    }

    /// Every registered mark, in registry order.
    fn list_all(&self) -> (r: Vec<MarkId>)
        ensures
            r@.map_values(|m: MarkId| m@) == self.table().map_values(|e: (Seq<char>, Seq<char>)| e.0),
    {
        let mut out: Vec<MarkId> = Vec::new();
        let mut i: usize = 0;
        while i < self.marks.len()
            invariant
                i <= self.marks@.len(),
                self.table() == pair_views(self.marks@),
                out@.map_values(|m: MarkId| m@) == self.table().subrange(0, i as int).map_values(
                    |e: (Seq<char>, Seq<char>)| e.0,
                ),
            decreases self.marks@.len() - i,
        {
            let ghost before = out@;
            let m = MarkId(copy_string(&self.marks[i].0));
            out.push(m);
            assert(self.table()[i as int].0 == self.marks@[i as int].0@);
            assert(out@.map_values(|m: MarkId| m@) =~= before.map_values(|m: MarkId| m@).push(m@));
            assert(self.table().subrange(0, i + 1).map_values(|e: (Seq<char>, Seq<char>)| e.0) =~= self.table().subrange(0, i as int).map_values(|e: (Seq<char>, Seq<char>)| e.0).push(self.table()[i as int].0));
            assert(out@.map_values(|m: MarkId| m@) =~= self.table().subrange(0, i + 1).map_values(
                |e: (Seq<char>, Seq<char>)| e.0,
            ));
            i = i + 1;
        }
        assert(self.table().subrange(0, self.marks@.len() as int) =~= self.table());
        out
    }

    /// The kind of a registered mark.
    fn get_type(&self, id: &MarkId) -> (r: Option<String>)
        ensures
            ({
                let k = mark_index(self.table(), id@);
                &&& k < self.table().len() ==> (r matches Some(t) && t@ == self.table()[k].1)
                &&& k == self.table().len() ==> r is None
            }),
    {
        let k = self.find(id);
        if k < self.marks.len() {
            Some(copy_string(&self.marks[k].1))
        } else {
            None
        }
    }

    /// Whether the mark is registered.
    fn is_valid(&self, id: &MarkId) -> (r: bool)
        ensures
            r == (mark_index(self.table(), id@) < self.table().len()),
    {
        let k = self.find(id);
        k < self.marks.len()
    }
}

} // verus!
