//! Syntax checks for parsed cards: complete rows, known subjects and
//! predicates, known tags in definition blocks and references.
use vstd::prelude::*;
use crate::base::FiveStageEntry;
use crate::parser::card_data::Card;
use crate::parser::card_text::{entries_view, entry_view, strings_view, tag_defs_view, EntryView, TagDefView};
use crate::text::{
    append_chars, append_int, append_str, chars_of, contains_lit, has_sub, owned, string_of, trim,
    trim_vec,
};

verus! {

/// One error found in a card.
#[derive(Debug, Clone)]
pub struct ValidationError {
    pub card_name: String,
    pub line: usize,
    pub description: String,
}

/// What checking one card found.
#[derive(Debug, Clone)]
pub struct CardValidation {
    pub card_name: String,
    pub has_ast: bool,
    pub entry_count: usize,
    pub tag_def_count: usize,
    pub errors: Vec<ValidationError>,
    pub warnings: Vec<String>,
}

/// Subjects the rules name.
pub open spec fn valid_subjects() -> Seq<Seq<char>> {
    seq![
        "自身"@,
        "目标"@,
        "攻击者"@,
        "敌方"@,
        "友方"@,
        "所有玩家"@,
        "伤害来源"@,
        "当前回合玩家"@,
        "下一位玩家"@,
        "上一位玩家"@,
        "该紫卡效果"@,
        "该「御守」"@,
        "攻击者"@,
    ]
}

/// Predicates the rules name.
pub open spec fn valid_predicates() -> Seq<Seq<char>> {
    seq![
        "造成"@,
        "恢复"@,
        "获得"@,
        "消耗"@,
        "执行"@,
        "抽取"@,
        "弃置"@,
        "弃置或交给其他玩家"@,
        "增加"@,
        "降低"@,
        "扣除"@,
        "赋予"@,
        "转化"@,
        "限制"@,
        "免疫"@,
        "封锁"@,
        "强制目标弃置"@,
        "令目标出示"@,
        "翻牌堆顶"@,
        "重排"@,
        "使"@,
        "使目标进入"@,
        "复制"@,
        "移除"@,
        "重置"@,
        "锁定"@,
        "补充"@,
        "存储"@,
        "更换为"@,
        "进行"@,
        "附加"@,
        "传递"@,
        "转换为"@,
        "额外获得"@,
        "额外抽取"@,
        "将对目标"@,
        "可将本卡叠放至"@,
        "可将蓝卡当作"@,
        "当作"@,
        "视为"@,
        "抵消"@,
        "使无效"@,
        "无效化"@,
        "无效"@,
        "淘汰"@,
        "放置"@,
        "放回"@,
        "选择保留"@,
        "宣言"@,
        "明示所有蓝卡"@,
        "强制使"@,
        "再抽取"@,
        "获取"@,
        "再获取"@,
        "抽取并公示目标"@,
        "抽取并立即使用"@,
        "强制目标在自身回合开始时"@,
        "额外附加"@,
        "额外扣除"@,
        "对伤害来源使用"@,
    ]
}

/// The fifteen duel tags.
pub open spec fn valid_tags() -> Seq<Seq<char>> {
    seq![
        "韬光养晦"@,
        "一槌定音"@,
        "谋定后动"@,
        "点石成金"@,
        "定向搜寻"@,
        "藏锋蓄锐"@,
        "传檄征召"@,
        "以形摹意"@,
        "追影逐风"@,
        "牵脉连心"@,
        "洞幽察微"@,
        "弃旧图新"@,
        "崩山裂石"@,
        "先损后利"@,
        "荆棘反刺"@,
    ]
}

fn valid_subjects_exec() -> (r: Vec<String>)
    ensures
        r@.map_values(|s: String| s@) == valid_subjects(),
{
    let mut v: Vec<String> = Vec::new();
    v.push(owned("自身"));
    v.push(owned("目标"));
    v.push(owned("攻击者"));
    v.push(owned("敌方"));
    v.push(owned("友方"));
    v.push(owned("所有玩家"));
    v.push(owned("伤害来源"));
    v.push(owned("当前回合玩家"));
    v.push(owned("下一位玩家"));
    v.push(owned("上一位玩家"));
    v.push(owned("该紫卡效果"));
    v.push(owned("该「御守」"));
    v.push(owned("攻击者"));
    assert(v@.map_values(|s: String| s@) =~= valid_subjects());
    v
}

fn valid_predicates_exec() -> (r: Vec<String>)
    ensures
        r@.map_values(|s: String| s@) == valid_predicates(),
{
    let mut v: Vec<String> = Vec::new();
    v.push(owned("造成"));
    v.push(owned("恢复"));
    v.push(owned("获得"));
    v.push(owned("消耗"));
    v.push(owned("执行"));
    v.push(owned("抽取"));
    v.push(owned("弃置"));
    v.push(owned("弃置或交给其他玩家"));
    v.push(owned("增加"));
    v.push(owned("降低"));
    v.push(owned("扣除"));
    v.push(owned("赋予"));
    v.push(owned("转化"));
    v.push(owned("限制"));
    v.push(owned("免疫"));
    v.push(owned("封锁"));
    v.push(owned("强制目标弃置"));
    v.push(owned("令目标出示"));
    v.push(owned("翻牌堆顶"));
    v.push(owned("重排"));
    v.push(owned("使"));
    v.push(owned("使目标进入"));
    v.push(owned("复制"));
    v.push(owned("移除"));
    v.push(owned("重置"));
    v.push(owned("锁定"));
    v.push(owned("补充"));
    v.push(owned("存储"));
    v.push(owned("更换为"));
    v.push(owned("进行"));
    v.push(owned("附加"));
    v.push(owned("传递"));
    v.push(owned("转换为"));
    v.push(owned("额外获得"));
    v.push(owned("额外抽取"));
    v.push(owned("将对目标"));
    v.push(owned("可将本卡叠放至"));
    v.push(owned("可将蓝卡当作"));
    v.push(owned("当作"));
    v.push(owned("视为"));
    v.push(owned("抵消"));
    v.push(owned("使无效"));
    v.push(owned("无效化"));
    v.push(owned("无效"));
    v.push(owned("淘汰"));
    v.push(owned("放置"));
    v.push(owned("放回"));
    v.push(owned("选择保留"));
    v.push(owned("宣言"));
    v.push(owned("明示所有蓝卡"));
    v.push(owned("强制使"));
    v.push(owned("再抽取"));
    v.push(owned("获取"));
    v.push(owned("再获取"));
    v.push(owned("抽取并公示目标"));
    v.push(owned("抽取并立即使用"));
    v.push(owned("强制目标在自身回合开始时"));
    v.push(owned("额外附加"));
    v.push(owned("额外扣除"));
    v.push(owned("对伤害来源使用"));
    assert(v@.map_values(|s: String| s@) =~= valid_predicates());
    v
}

fn valid_tag_names_exec() -> (r: Vec<String>)
    ensures
        r@.map_values(|s: String| s@) == valid_tags(),
{
    let mut v: Vec<String> = Vec::new();
    v.push(owned("韬光养晦"));
    v.push(owned("一槌定音"));
    v.push(owned("谋定后动"));
    v.push(owned("点石成金"));
    v.push(owned("定向搜寻"));
    v.push(owned("藏锋蓄锐"));
    v.push(owned("传檄征召"));
    v.push(owned("以形摹意"));
    v.push(owned("追影逐风"));
    v.push(owned("牵脉连心"));
    v.push(owned("洞幽察微"));
    v.push(owned("弃旧图新"));
    v.push(owned("崩山裂石"));
    v.push(owned("先损后利"));
    v.push(owned("荆棘反刺"));
    assert(v@.map_values(|s: String| s@) =~= valid_tags());
    v
}


pub open spec fn any_in(s: Seq<char>, list: Seq<Seq<char>>) -> bool {
    exists|i: int| 0 <= i < list.len() && has_sub(s, #[trigger] list[i])
}

fn any_in_exec(s: &Vec<char>, list: &Vec<String>) -> (r: bool)
    ensures
        r == any_in(s@, list@.map_values(|x: String| x@)),
{
    let ghost lv = list@.map_values(|x: String| x@);
    let mut i: usize = 0;
    while i < list.len()
        invariant
            i <= list@.len(),
            lv == list@.map_values(|x: String| x@),
            forall|k: int| 0 <= k < i ==> !has_sub(s@, #[trigger] lv[k]),
        decreases list@.len() - i,
    {
        let p = chars_of(list[i].as_str());
        if crate::text::find_vec(s, &p).is_some() {
            assert(has_sub(s@, lv[i as int]));
            return true;
        }
        i = i + 1;
    }
    false
}

pub open spec fn is_book_corner(c: char) -> bool {
    c == '「' || c == '」'
}

pub open spec fn strip_start_corners(s: Seq<char>) -> Seq<char>
    decreases s.len(),
{
    if s.len() > 0 && is_book_corner(s[0]) {
        strip_start_corners(s.drop_first())
    } else {
        s
    }
}

pub open spec fn strip_end_corners(s: Seq<char>) -> Seq<char>
    decreases s.len(),
{
    if s.len() > 0 && is_book_corner(s.last()) {
        strip_end_corners(s.drop_last())
    } else {
        s
    }
}

/// `s` without 「 and 」 at either end.
pub open spec fn strip_corners(s: Seq<char>) -> Seq<char> {
    strip_end_corners(strip_start_corners(s))
}

fn strip_corners_exec(s: &Vec<char>) -> (r: Vec<char>)
    ensures
        r@ == strip_corners(s@),
{
    let mut a: usize = 0;
    assert(s@.subrange(0, s@.len() as int) =~= s@);
    while a < s.len() && (s[a] == '「' || s[a] == '」')
        invariant
            a <= s.len(),
            strip_start_corners(s@.subrange(a as int, s@.len() as int)) == strip_start_corners(s@),
        decreases s.len() - a,
    {
        assert(s@.subrange(a as int, s@.len() as int).drop_first() =~= s@.subrange(a + 1, s@.len() as int));
        a = a + 1;
    }
    assert(s@.subrange(0, s@.len() as int) =~= s@);
    let t = crate::text::slice_vec(s, a, s.len());
    let mut b: usize = t.len();
    assert(t@.subrange(0, t@.len() as int) =~= t@);
    while b > 0 && (t[b - 1] == '「' || t[b - 1] == '」')
        invariant
            b <= t@.len(),
            strip_end_corners(t@.subrange(0, b as int)) == strip_end_corners(t@),
        decreases b,
    {
        assert(t@.subrange(0, b as int).drop_last() =~= t@.subrange(0, b - 1));
        b = b - 1;
    }
    assert(t@.subrange(0, t@.len() as int) =~= t@);
    proof {
        if a == s.len() {
        }
    }
    assert(strip_start_corners(s@) == t@) by {
        if t@.len() > 0 {
            assert(t@[0] == s@[a as int]);
        }
    }
    let r = crate::text::slice_vec(&t, 0, b);
    assert(strip_end_corners(r@) == r@) by {
        if r@.len() > 0 {
            assert(r@.last() == t@[b - 1]);
        }
    }
    r
}

/// Warning about a predicate outside the dictionary.
pub open spec fn predicate_warning(e: EntryView) -> Seq<Seq<char>> {
    if e.predicate.len() == 0 {
        Seq::empty()
    } else {
        let pc = strip_corners(trim(e.predicate));
        if any_in(pc, valid_predicates()) {
            Seq::empty()
        } else {
            seq!["条目 '"@ + e.id + "' 谓语 '"@ + pc + "' 可能不在标准谓语库中"@]
        }
    }
}

/// Warning about a subject outside the dictionary.
pub open spec fn subject_warning(e: EntryView) -> Seq<Seq<char>> {
    if e.subject.len() == 0 {
        Seq::empty()
    } else {
        let s = trim(e.subject);
        if s.len() == 0 || any_in(s, valid_subjects()) || has_sub(s, "自身"@) || has_sub(s, "目标"@)
            || has_sub(s, "该"@) {
            Seq::empty()
        } else {
            seq!["条目 '"@ + e.id + "' 主语 '"@ + s + "' 可能不在标准主语库中"@]
        }
    }
}

/// Index of the first `]` at or after `i`, or the length.
pub open spec fn close_at(s: Seq<char>, i: int) -> int
    decreases s.len() - i,
{
    if 0 <= i < s.len() && s[i] != ']' {
        close_at(s, i + 1)
    } else {
        i
    }
}

/// The `[Tag]` references in `s` from index `i` on: closed, not empty, and
/// holding no `|` or `：`.
pub open spec fn tag_refs_from(s: Seq<char>, i: int) -> Seq<Seq<char>>
    decreases s.len() - i,
{
    if i < 0 || i >= s.len() {
        Seq::empty()
    } else if s[i] == '[' {
        let j = close_at(s, i + 1);
        if j < s.len() && i < j {
            let tag = s.subrange(i + 1, j);
            (if tag.len() > 0 && !tag.contains('|') && !tag.contains('：') {
                seq![tag]
            } else {
                Seq::empty()
            }) + tag_refs_from(s, j + 1)
        } else {
            Seq::empty()
        }
    } else {
        tag_refs_from(s, i + 1)
    }
}

pub proof fn lemma_close_at(s: Seq<char>, i: int)
    requires
        0 <= i <= s.len(),
    ensures
        i <= close_at(s, i) <= s.len(),
        close_at(s, i) < s.len() ==> s[close_at(s, i)] == ']',
        forall|k: int| i <= k < close_at(s, i) ==> s[k] != ']',
    decreases s.len() - i,
{
    if i < s.len() && s[i] != ']' {
        lemma_close_at(s, i + 1);
    }
}

/// The tag references in a text, `None` when there are none.
pub fn extract_tag_refs(text: &str) -> (r: Option<Vec<String>>)
    ensures
        match r {
            Some(v) => v@.len() > 0 && strings_view(v@) == tag_refs_from(text@, 0),
            None => tag_refs_from(text@, 0).len() == 0,
        },
{
    let s = chars_of(text);
    let mut out: Vec<String> = Vec::new();
    let mut i: usize = 0;
    while i < s.len()
        invariant
            i <= s@.len(),
            s@ == text@,
            strings_view(out@) + tag_refs_from(s@, i as int) == tag_refs_from(s@, 0),
        decreases s@.len() - i,
    {
        if s[i] == '[' {
            let mut j = i + 1;
            while j < s.len() && s[j] != ']'
                invariant
                    i < j <= s@.len(),
                    close_at(s@, j as int) == close_at(s@, i + 1),
                decreases s@.len() - j,
            {
                j = j + 1;
            }
            proof {
                lemma_close_at(s@, i + 1);
            }
            if j >= s.len() {
                assert(tag_refs_from(s@, i as int) =~= Seq::<Seq<char>>::empty());
                assert(tag_refs_from(s@, s@.len() as int) =~= Seq::<Seq<char>>::empty());
                assert(strings_view(out@) + tag_refs_from(s@, s@.len() as int) =~= tag_refs_from(s@, 0));
                i = s.len();
            } else {
                let tag = crate::text::slice_vec(&s, i + 1, j);
                let ghost o0 = strings_view(out@);
                if tag.len() > 0 && !crate::text::contains_char(&tag, '|') && !crate::text::contains_char(
                    &tag,
                    '：',
                ) {
                    out.push(string_of(&tag));
                    assert(strings_view(out@) =~= o0.push(tag@));
                }
                assert(strings_view(out@) + tag_refs_from(s@, j + 1) =~= tag_refs_from(s@, 0));
                i = j + 1;
            }
        } else {
            i = i + 1;
        }
    }
    proof {
        if i >= s@.len() {
            assert(tag_refs_from(s@, i as int) =~= Seq::<Seq<char>>::empty());
        }
    }
    assert(strings_view(out@) =~= tag_refs_from(s@, 0));
    if out.len() == 0 {
        None
    } else {
        Some(out)
    }
}

// ---------------------------------------------------------------------------
// Checking a card
// ---------------------------------------------------------------------------

pub open spec fn def_errors(defs: Seq<TagDefView>) -> Seq<Seq<char>>
    decreases defs.len(),
{
    if defs.len() == 0 {
        Seq::empty()
    } else {
        def_errors(defs.drop_last()) + if valid_tags().contains(defs.last().tag_name) {
            Seq::empty()
        } else {
            seq!["标签定义块 '"@ + defs.last().tag_name + "' 不在已知15标签中"@]
        }
    }
}

pub open spec fn def_warnings(defs: Seq<TagDefView>) -> Seq<Seq<char>>
    decreases defs.len(),
{
    if defs.len() == 0 {
        Seq::empty()
    } else {
        def_warnings(defs.drop_last()) + if defs.last().entries.len() == 0 {
            seq!["标签定义块 '"@ + defs.last().tag_name + "' 没有子条目"@]
        } else {
            Seq::empty()
        }
    }
}

pub open spec fn empty_count(e: EntryView) -> int {
    (if e.condition.len() == 0 { 1int } else { 0 }) + (if e.subject.len() == 0 { 1int } else { 0 }) + (
    if e.predicate.len() == 0 { 1int } else { 0 }) + (if e.object.len() == 0 { 1int } else { 0 })
}

/// Errors for nearly empty rows, with their 1-based line.
pub open spec fn entry_errors(es: Seq<EntryView>) -> Seq<(int, Seq<char>)>
    decreases es.len(),
{
    if es.len() == 0 {
        Seq::empty()
    } else {
        entry_errors(es.drop_last()) + if empty_count(es.last()) >= 4 {
            seq![(es.len() as int, "条目 '"@ + es.last().id + "' 五段式几乎全空，至少需要主语+谓语"@)]
        } else {
            Seq::empty()
        }
    }
}

pub open spec fn entry_warnings(es: Seq<EntryView>) -> Seq<Seq<char>>
    decreases es.len(),
{
    if es.len() == 0 {
        Seq::empty()
    } else {
        entry_warnings(es.drop_last()) + predicate_warning(es.last()) + subject_warning(es.last())
    }
}

/// Warnings for references to unknown tags in one text.
pub open spec fn unknown_refs(id: Seq<char>, refs: Seq<Seq<char>>) -> Seq<Seq<char>>
    decreases refs.len(),
{
    if refs.len() == 0 {
        Seq::empty()
    } else {
        unknown_refs(id, refs.drop_last()) + if valid_tags().contains(refs.last()) {
            Seq::empty()
        } else {
            seq!["条目 '"@ + id + "' 中引用的标签 '["@ + refs.last() + "]' 不在已知15标签中"@]
        }
    }
}

pub open spec fn entry_ref_warnings(e: EntryView) -> Seq<Seq<char>> {
    unknown_refs(e.id, tag_refs_from(e.condition, 0)) + unknown_refs(e.id, tag_refs_from(e.subject, 0))
        + unknown_refs(e.id, tag_refs_from(e.predicate, 0)) + unknown_refs(
        e.id,
        tag_refs_from(e.object, 0),
    ) + unknown_refs(e.id, tag_refs_from(e.note, 0))
}

pub open spec fn ref_warnings(es: Seq<EntryView>) -> Seq<Seq<char>>
    decreases es.len(),
{
    if es.len() == 0 {
        Seq::empty()
    } else {
        ref_warnings(es.drop_last()) + entry_ref_warnings(es.last())
    }
}

pub open spec fn error_view(v: ValidationError) -> (int, Seq<char>) {
    (v.line as int, v.description@)
}

pub open spec fn errors_view(v: Seq<ValidationError>) -> Seq<(int, Seq<char>)> {
    v.map_values(|e: ValidationError| error_view(e))
}

fn is_valid_tag(tags: &Vec<String>, name: &String) -> (r: bool)
    requires
        strings_view(tags@) == valid_tags(),
    ensures
        r == valid_tags().contains(name@),
{
    let mut i: usize = 0;
    while i < tags.len()
        invariant
            i <= tags@.len(),
            strings_view(tags@) == valid_tags(),
            forall|k: int| 0 <= k < i ==> valid_tags()[k] != name@,
        decreases tags@.len() - i,
    {
        if tags[i] == *name {
            assert(valid_tags()[i as int] == name@);
            return true;
        }
        i = i + 1;
    }
    false
}

fn push_error(errors: &mut Vec<ValidationError>, card_name: &String, line: usize, d: String)
    ensures
        errors_view(final(errors)@) == errors_view(old(errors)@).push((line as int, d@)),
        final(errors)@.len() == old(errors)@.len() + 1,
        forall|k: int| 0 <= k < old(errors)@.len() ==> final(errors)@[k] == old(errors)@[k],
        final(errors)@.last().card_name@ == card_name@,
{
    let ghost e0 = errors_view(errors@);
    errors.push(ValidationError { card_name: card_name.clone(), line, description: d });
    assert(errors_view(errors@) =~= e0.push((line as int, d@)));
}

fn push_warning(warnings: &mut Vec<String>, d: String)
    ensures
        strings_view(final(warnings)@) == strings_view(old(warnings)@).push(d@),
{
    let ghost w0 = strings_view(warnings@);
    warnings.push(d);
    assert(strings_view(warnings@) =~= w0.push(d@));
}

fn def_checks(
    tags: &Vec<String>,
    card_name: &String,
    defs: &Vec<crate::parser::card_text::TagDef>,
    errors: &mut Vec<ValidationError>,
    warnings: &mut Vec<String>,
)
    requires
        strings_view(tags@) == valid_tags(),
    ensures
        errors_view(final(errors)@) == errors_view(old(errors)@) + def_errors(tag_defs_view(defs@)).map_values(
            |d: Seq<char>| (0int, d),
        ),
        strings_view(final(warnings)@) == strings_view(old(warnings)@) + def_warnings(
            tag_defs_view(defs@),
        ),
        forall|k: int| 0 <= k < old(errors)@.len() ==> final(errors)@[k] == old(errors)@[k],
        forall|k: int|
            old(errors)@.len() <= k < final(errors)@.len() ==> (#[trigger] final(errors)@[k]).card_name@
                == card_name@,
{
    let ghost e0 = errors_view(errors@);
    let ghost w0 = strings_view(warnings@);
    let ghost olde = errors@;
    let mut i: usize = 0;
    while i < defs.len()
        invariant
            i <= defs@.len(),
            strings_view(tags@) == valid_tags(),
            errors_view(errors@) == e0 + def_errors(tag_defs_view(defs@.subrange(0, i as int))).map_values(
                |d: Seq<char>| (0int, d),
            ),
            strings_view(warnings@) == w0 + def_warnings(tag_defs_view(defs@.subrange(0, i as int))),
            errors@.len() >= olde.len(),
            forall|k: int| 0 <= k < olde.len() ==> errors@[k] == olde[k],
            forall|k: int|
                olde.len() <= k < errors@.len() ==> (#[trigger] errors@[k]).card_name@ == card_name@,
        decreases defs@.len() - i,
    {
        let ghost pre = tag_defs_view(defs@.subrange(0, i as int));
        assert(tag_defs_view(defs@.subrange(0, i + 1)).drop_last() =~= pre);
        assert(tag_defs_view(defs@.subrange(0, i + 1)).last() == crate::parser::card_text::tag_def_view(
            defs@[i as int],
        ));
        let td = &defs[i];
        let ghost ebefore = errors_view(errors@);
        if !is_valid_tag(tags, &td.tag_name) {
            let mut d = owned("标签定义块 '");
            append_str(&mut d, td.tag_name.as_str());
            append_str(&mut d, "' 不在已知15标签中");
            push_error(errors, card_name, 0, d);
        }
        assert(errors_view(errors@) =~= e0 + def_errors(tag_defs_view(defs@.subrange(0, i + 1))).map_values(
            |d: Seq<char>| (0int, d),
        ));
        if td.entries.len() == 0 {
            let mut d = owned("标签定义块 '");
            append_str(&mut d, td.tag_name.as_str());
            append_str(&mut d, "' 没有子条目");
            push_warning(warnings, d);
        }
        assert(strings_view(warnings@) =~= w0 + def_warnings(tag_defs_view(defs@.subrange(0, i + 1))));
        i = i + 1;
    }
    assert(defs@.subrange(0, defs@.len() as int) =~= defs@);
}

fn is_empty_string(s: &String) -> (r: bool)
    ensures
        r == (s@.len() == 0),
{
    s.as_str().is_empty()
}

fn entry_checks(
    preds: &Vec<String>,
    subjs: &Vec<String>,
    card_name: &String,
    entries: &Vec<FiveStageEntry>,
    errors: &mut Vec<ValidationError>,
    warnings: &mut Vec<String>,
)
    requires
        strings_view(preds@) == valid_predicates(),
        strings_view(subjs@) == valid_subjects(),
    ensures
        errors_view(final(errors)@) == errors_view(old(errors)@) + entry_errors(entries_view(entries@)),
        strings_view(final(warnings)@) == strings_view(old(warnings)@) + entry_warnings(
            entries_view(entries@),
        ),
        forall|k: int| 0 <= k < old(errors)@.len() ==> final(errors)@[k] == old(errors)@[k],
        forall|k: int|
            old(errors)@.len() <= k < final(errors)@.len() ==> (#[trigger] final(errors)@[k]).card_name@
                == card_name@,
{
    let ghost e0 = errors_view(errors@);
    let ghost w0 = strings_view(warnings@);
    let ghost olde = errors@;
    let mut i: usize = 0;
    while i < entries.len()
        invariant
            i <= entries@.len(),
            strings_view(preds@) == valid_predicates(),
            strings_view(subjs@) == valid_subjects(),
            errors_view(errors@) == e0 + entry_errors(entries_view(entries@.subrange(0, i as int))),
            strings_view(warnings@) == w0 + entry_warnings(entries_view(entries@.subrange(0, i as int))),
            errors@.len() >= olde.len(),
            forall|k: int| 0 <= k < olde.len() ==> errors@[k] == olde[k],
            forall|k: int|
                olde.len() <= k < errors@.len() ==> (#[trigger] errors@[k]).card_name@ == card_name@,
        decreases entries@.len() - i,
    {
        let ghost pre = entries_view(entries@.subrange(0, i as int));
        let ghost cur = entries_view(entries@.subrange(0, i + 1));
        assert(cur.drop_last() =~= pre);
        assert(cur.last() == entry_view(entries@[i as int]));
        assert(cur.len() == i + 1);
        let e = &entries[i];
        let n_empty: usize = (if is_empty_string(&e.condition) { 1 } else { 0 }) + (if is_empty_string(
            &e.subject,
        ) {
            1
        } else {
            0
        }) + (if is_empty_string(&e.predicate) { 1 } else { 0 }) + (if is_empty_string(&e.object) {
            1
        } else {
            0
        });
        if n_empty >= 4 {
            let mut d = owned("条目 '");
            append_str(&mut d, e.id.as_str());
            append_str(&mut d, "' 五段式几乎全空，至少需要主语+谓语");
            push_error(errors, card_name, i + 1, d);
        }
        assert(errors_view(errors@) =~= e0 + entry_errors(cur));
        let ghost wa = strings_view(warnings@);
        if !is_empty_string(&e.predicate) {
            let p = chars_of(e.predicate.as_str());
            let pt = trim_vec(&p);
            let pc = strip_corners_exec(&pt);
            if !any_in_exec(&pc, preds) {
                let mut d = owned("条目 '");
                append_str(&mut d, e.id.as_str());
                append_str(&mut d, "' 谓语 '");
                append_chars(&mut d, &pc);
                append_str(&mut d, "' 可能不在标准谓语库中");
                push_warning(warnings, d);
            }
        }
        assert(strings_view(warnings@) =~= wa + predicate_warning(entry_view(*e)));
        let ghost wb = strings_view(warnings@);
        if !is_empty_string(&e.subject) {
            let sv = chars_of(e.subject.as_str());
            let st = trim_vec(&sv);
            if st.len() > 0 && !any_in_exec(&st, subjs) && !contains_lit(&st, "自身") && !contains_lit(
                &st,
                "目标",
            ) && !contains_lit(&st, "该") {
                let mut d = owned("条目 '");
                append_str(&mut d, e.id.as_str());
                append_str(&mut d, "' 主语 '");
                append_chars(&mut d, &st);
                append_str(&mut d, "' 可能不在标准主语库中");
                push_warning(warnings, d);
            }
        }
        assert(strings_view(warnings@) =~= wb + subject_warning(entry_view(*e)));
        assert(strings_view(warnings@) =~= w0 + entry_warnings(cur));
        i = i + 1;
    }
    assert(entries@.subrange(0, entries@.len() as int) =~= entries@);
}

fn ref_checks_text(tags: &Vec<String>, id: &String, text: &String, warnings: &mut Vec<String>)
    requires
        strings_view(tags@) == valid_tags(),
    ensures
        strings_view(final(warnings)@) == strings_view(old(warnings)@) + unknown_refs(
            id@,
            tag_refs_from(text@, 0),
        ),
{
    let ghost w0 = strings_view(warnings@);
    match extract_tag_refs(text.as_str()) {
        Some(refs) => {
            let ghost rv = strings_view(refs@);
            let mut i: usize = 0;
            while i < refs.len()
                invariant
                    i <= refs@.len(),
                    rv == strings_view(refs@),
                    strings_view(tags@) == valid_tags(),
                    strings_view(warnings@) == w0 + unknown_refs(id@, rv.subrange(0, i as int)),
                decreases refs@.len() - i,
            {
                assert(rv.subrange(0, i + 1).drop_last() =~= rv.subrange(0, i as int));
                assert(rv.subrange(0, i + 1).last() == refs@[i as int]@);
                let ghost wa = strings_view(warnings@);
                if !is_valid_tag(tags, &refs[i]) {
                    let mut d = owned("条目 '");
                    append_str(&mut d, id.as_str());
                    append_str(&mut d, "' 中引用的标签 '[");
                    append_str(&mut d, refs[i].as_str());
                    append_str(&mut d, "]' 不在已知15标签中");
                    push_warning(warnings, d);
                }
                assert(strings_view(warnings@) =~= w0 + unknown_refs(id@, rv.subrange(0, i + 1)));
                i = i + 1;
            }
            assert(rv.subrange(0, rv.len() as int) =~= rv);
        },
        None => {
            assert(unknown_refs(id@, tag_refs_from(text@, 0)) =~= Seq::<Seq<char>>::empty());
            assert(strings_view(warnings@) =~= w0 + unknown_refs(id@, tag_refs_from(text@, 0)));
        },
    }
}

fn ref_checks(tags: &Vec<String>, entries: &Vec<FiveStageEntry>, warnings: &mut Vec<String>)
    requires
        strings_view(tags@) == valid_tags(),
    ensures
        strings_view(final(warnings)@) == strings_view(old(warnings)@) + ref_warnings(
            entries_view(entries@),
        ),
{
    let ghost w0 = strings_view(warnings@);
    let mut i: usize = 0;
    while i < entries.len()
        invariant
            i <= entries@.len(),
            strings_view(tags@) == valid_tags(),
            strings_view(warnings@) == w0 + ref_warnings(entries_view(entries@.subrange(0, i as int))),
        decreases entries@.len() - i,
    {
        let ghost cur = entries_view(entries@.subrange(0, i + 1));
        assert(cur.drop_last() =~= entries_view(entries@.subrange(0, i as int)));
        assert(cur.last() == entry_view(entries@[i as int]));
        let e = &entries[i];
        let ghost wa = strings_view(warnings@);
        ref_checks_text(tags, &e.id, &e.condition, warnings);
        ref_checks_text(tags, &e.id, &e.subject, warnings);
        ref_checks_text(tags, &e.id, &e.predicate, warnings);
        ref_checks_text(tags, &e.id, &e.object, warnings);
        ref_checks_text(tags, &e.id, &e.note, warnings);
        assert(strings_view(warnings@) =~= wa + entry_ref_warnings(entry_view(*e)));
        assert(strings_view(warnings@) =~= w0 + ref_warnings(cur));
        i = i + 1;
    }
    assert(entries@.subrange(0, entries@.len() as int) =~= entries@);
}

/// `v` is what checking `card` finds.
pub open spec fn validation_of(card: Card, v: CardValidation) -> bool {
    &&& v.card_name@ == card.name@
    &&& forall|k: int| 0 <= k < v.errors@.len() ==> (#[trigger] v.errors@[k]).card_name@ == card.name@
    &&& match card.ast {
        None => {
            &&& !v.has_ast && v.entry_count == 0 && v.tag_def_count == 0
            &&& errors_view(v.errors@) == strings_view(card.errors@).map_values(
                |d: Seq<char>| (0int, d),
            )
            &&& strings_view(v.warnings@) == seq!["卡牌解析失败，无法进行深度语法校验"@]
        },
        Some(ast) => {
            let es = entries_view(ast.entries@);
            let defs = tag_defs_view(ast.tag_defs@);
            &&& v.has_ast
            &&& v.entry_count == ast.entries@.len()
            &&& v.tag_def_count == ast.tag_defs@.len()
            &&& errors_view(v.errors@) == def_errors(defs).map_values(|d: Seq<char>| (0int, d))
                + entry_errors(es)
            &&& strings_view(v.warnings@) == def_warnings(defs) + entry_warnings(es) + ref_warnings(es)
        },
    }
}

/// Checks one card: tag blocks must name known tags and have rows, rows must
/// not be nearly empty; unknown predicates, subjects and tag references are
/// warned about. A card that did not parse keeps its parse errors.
pub fn validate_card(card: &Card) -> (r: CardValidation)
    ensures
        validation_of(*card, r),
{
    let mut errors: Vec<ValidationError> = Vec::new();
    let mut warnings: Vec<String> = Vec::new();
    match &card.ast {
        None => {
            let mut i: usize = 0;
            while i < card.errors.len()
                invariant
                    i <= card.errors@.len(),
                    errors_view(errors@) == strings_view(card.errors@).subrange(0, i as int).map_values(
                        |d: Seq<char>| (0int, d),
                    ),
                    forall|k: int|
                        0 <= k < errors@.len() ==> (#[trigger] errors@[k]).card_name@ == card.name@,
                decreases card.errors@.len() - i,
            {
                push_error(&mut errors, &card.name, 0, card.errors[i].clone());
                assert(strings_view(card.errors@).subrange(0, i + 1) =~= strings_view(card.errors@).subrange(
                    0,
                    i as int,
                ).push(card.errors@[i as int]@));
                assert(errors_view(errors@) =~= strings_view(card.errors@).subrange(0, i + 1).map_values(
                    |d: Seq<char>| (0int, d),
                ));
                i = i + 1;
            }
            assert(strings_view(card.errors@).subrange(0, card.errors@.len() as int) =~= strings_view(
                card.errors@,
            ));
            push_warning(&mut warnings, owned("卡牌解析失败，无法进行深度语法校验"));
            assert(strings_view(warnings@) =~= seq!["卡牌解析失败，无法进行深度语法校验"@]);
            CardValidation {
                card_name: card.name.clone(),
                has_ast: false,
                entry_count: 0,
                tag_def_count: 0,
                errors,
                warnings,
            }
        },
        Some(ast) => {
            let tags = valid_tag_names_exec();
            let preds = valid_predicates_exec();
            let subjs = valid_subjects_exec();
            assert(errors_view(errors@) =~= Seq::<(int, Seq<char>)>::empty());
            assert(strings_view(warnings@) =~= Seq::<Seq<char>>::empty());
            def_checks(&tags, &card.name, &ast.tag_defs, &mut errors, &mut warnings);
            entry_checks(&preds, &subjs, &card.name, &ast.entries, &mut errors, &mut warnings);
            ref_checks(&tags, &ast.entries, &mut warnings);
            CardValidation {
                card_name: card.name.clone(),
                has_ast: true,
                entry_count: ast.entries.len(),
                tag_def_count: ast.tag_defs.len(),
                errors,
                warnings,
            }
        },
    }
}

/// Checks every card, in order.
pub fn validate_all(cards: &[Card]) -> (r: Vec<CardValidation>)
    ensures
        r@.len() == cards@.len(),
        forall|i: int| 0 <= i < cards@.len() ==> validation_of(cards@[i], #[trigger] r@[i]),
{
    let mut out: Vec<CardValidation> = Vec::new();
    let mut i: usize = 0;
    while i < cards.len()
        invariant
            i <= cards@.len(),
            out@.len() == i,
            forall|k: int| 0 <= k < i ==> validation_of(cards@[k], #[trigger] out@[k]),
        decreases cards@.len() - i,
    {
        out.push(validate_card(&cards[i]));
        i = i + 1;
    }
    out
}

/// Number of checked cards with errors among `vs`.
pub open spec fn count_with_errors(vs: Seq<CardValidation>) -> nat
    decreases vs.len(),
{
    if vs.len() == 0 {
        0
    } else {
        count_with_errors(vs.drop_last()) + if vs.last().errors@.len() > 0 { 1nat } else { 0nat }
    }
}

pub proof fn lemma_count_with_errors_le(vs: Seq<CardValidation>)
    ensures
        count_with_errors(vs) <= vs.len(),
    decreases vs.len(),
{
    if vs.len() > 0 {
        lemma_count_with_errors_le(vs.drop_last());
    }
}

/// (total, without errors, with errors).
pub fn validation_stats(validations: &[CardValidation]) -> (r: (usize, usize, usize))
    ensures
        r.0 == validations@.len(),
        r.2 == count_with_errors(validations@),
        r.1 == r.0 - r.2,
{
    let mut with_errors: usize = 0;
    let mut i: usize = 0;
    while i < validations.len()
        invariant
            i <= validations@.len(),
            with_errors == count_with_errors(validations@.subrange(0, i as int)),
        decreases validations@.len() - i,
    {
        assert(validations@.subrange(0, i + 1).drop_last() =~= validations@.subrange(0, i as int));
        proof {
            lemma_count_with_errors_le(validations@.subrange(0, i as int));
        }
        if validations[i].errors.len() > 0 {
            with_errors = with_errors + 1;
        }
        i = i + 1;
    }
    assert(validations@.subrange(0, validations@.len() as int) =~= validations@);
    proof {
        lemma_count_with_errors_le(validations@);
    }
    (validations.len(), validations.len() - with_errors, with_errors)
}

} // verus!
