//! The tag system: the fifteen built-in tags and nine marks, and lookups on them.
use vstd::prelude::*;
use crate::text::owned;

verus! {

/// One skill entry of a tag (level A, B or C).
#[derive(Debug, Clone)]
pub struct SkillEntry {
    pub level: String,
    pub description: String,
}

/// A built-in tag.
#[derive(Debug, Clone)]
pub struct Tag {
    pub tag_id: String,
    pub name: String,
    pub skill_entries: Vec<SkillEntry>,
    pub first_appearance: String,
    pub design_intent: String,
}

/// A built-in mark.
#[derive(Debug, Clone)]
pub struct Mark {
    pub mark_id: String,
    pub name: String,
}

/// Tag ids, in order.
pub open spec fn tag_ids() -> Seq<Seq<char>> {
    seq![
        "tag_01"@,
        "tag_02"@,
        "tag_03"@,
        "tag_04"@,
        "tag_05"@,
        "tag_06"@,
        "tag_07"@,
        "tag_08"@,
        "tag_09"@,
        "tag_10"@,
        "tag_11"@,
        "tag_12"@,
        "tag_13"@,
        "tag_14"@,
        "tag_15"@,
    ]
}

/// Tag names.
pub open spec fn tag_names() -> Seq<Seq<char>> {
    seq![
        "韬光养晦"@,
        "一槌定音"@,
        "谋定后动"@,
        "点石成金"@,
        "定向搜寻"@,
        "藏锋蓄锐"@,
        "传檄征召"@,
        "以形摹意"@,
        "追影逐风"@,
        "牵脉连心"@,
        "洞幽察微"@,
        "弃旧图新"@,
        "崩山裂石"@,
        "先损后利"@,
        "荆棘反刺"@,
    ]
}

/// Level of each tag's one skill entry.
pub open spec fn tag_levels() -> Seq<Seq<char>> {
    seq![
        "A"@,
        "A"@,
        "A"@,
        "A"@,
        "A"@,
        "A"@,
        "A"@,
        "A"@,
        "A"@,
        "A"@,
        "A"@,
        "A"@,
        "A"@,
        "A"@,
        "A"@,
    ]
}

/// Text of each tag's one skill entry.
pub open spec fn tag_descriptions() -> Seq<Seq<char>> {
    seq![
        "消耗 X 张 Y 品质牌 → 免疫 Z 效果，成功规避后抽 1 牌"@,
        "翻牌堆顶 1 张判定牌 → 若满足条件 X 则执行 Y，否则执行 Z"@,
        "从 N 个互斥选项中择一执行"@,
        "积累标记（上限 X）→ 消耗标记 + 附加资源 → 产出 Y 效果（每种每回合限 1 次）"@,
        "从牌堆抽取指定类型牌 N 张 → 保留 M 张 → 其余弃置或放回"@,
        "将牌存为标记于指定位置（上限 X，每回合限 N 次）→ 条件 Y 触发 → 消耗标记产生效果 Z"@,
        "选择目标玩家 → 抽取公示其 1 张手牌 → 强制其下回合使用该牌"@,
        "复制本回合上一张非橙卡效果 → 若无可复制对象则兜底为 X 效果，使用后额外获 1 技力"@,
        "指定目标手牌数为基准 N → 持续抽牌至手牌数等于 N → 若 N=0 则改执行 Z"@,
        "锁定两个单位 → 下次对任一单位生效的效果同时作用于另一单位"@,
        "查看并重排牌堆顶 N 张牌 → 然后抽取 1 张"@,
        "弃置手牌 → 换取战略资源 X（每回合限 N 次）"@,
        "消耗某项资源当前值的一半（取整）→ 产生效果量与消耗量正相关"@,
        "消耗 X 点生命 → 换取效果 Y（伤害或资源）"@,
        "受伤害后 → 对伤害来源执行反制效果 X"@,
    ]
}

/// Card each tag first appears on.
pub open spec fn tag_first_appearances() -> Seq<Seq<char>> {
    seq![
        "浮光（构筑卡·武学）"@,
        "指虎（构筑卡·兵刃）"@,
        "蓄势（基本牌·蓝）"@,
        "药师（职业卡）"@,
        "整军（基本牌·蓝）"@,
        "光铸（构筑卡·甲胄）"@,
        "传令（基本牌·紫）"@,
        "仿技（基本牌·橙）"@,
        "掠影（构筑卡·武学）"@,
        "连脉术（构筑卡·术法）"@,
        "观微术（构筑卡·术法）"@,
        "兵家·权变（重铸子效果，阵营核心技能）"@,
        "崩山（构筑卡·武学）"@,
        "七伤（构筑卡·武学）"@,
        "荆棘（构筑卡·甲胄）"@,
    ]
}

/// Why each tag was designed.
pub open spec fn tag_design_intents() -> Seq<Seq<char>> {
    seq![
        "以手牌为替代支付代价换取伤害免疫，体现「弃卒保车」的资源置换策略"@,
        "引入随机性验证的条件分支，令攻防结算存在变数，增加博弈深度"@,
        "给予使用者一次性多选一决策权，覆盖伤害/治疗/护甲多维度，体现战术灵活性"@,
        "以通用标记为纽带的多输出转化链路，同一标记搭配不同成本产出不同效果，体现「有限选择」"@,
        "定向从牌堆检索特定类型卡牌并择优保留，提升关键卡上手率"@,
        "将手牌转化为延迟触发的待发标记，以「蓄而不发」换取时机优势"@,
        "跨回合强制调度对手手牌，打乱节奏同时暴露信息，兼具干扰与情报价值"@,
        "灵活的镜像效果，以已用卡牌为模板复制执行，并提供空场兜底确保永远可用"@,
        "以对手手牌数为参照的追赶式抽牌，追平信息差或空手时触发替代效果"@,
        "建立两单位命运链接，令下一次效果「一石二鸟」，链接用后即解除"@,
        "窥探牌堆顶信息并重新排序后再抽牌，兼顾当前抽牌质量与后续回合布局"@,
        "以牺牲手牌为代价换取可积累的战略资本，非直接规避伤害而是长线投资"@,
        "以资源当前值的半数为动态成本，资源越充沛效果越强，形成自平衡"@,
        "以生命为直接交易成本的高风险高回报转换，体现「伤人先伤己」的狠厉"@,
        "以受伤为触发的被动反击，不阻止伤害但结算后惩罚攻击者，形成「以牙还牙」威慑"@,
    ]
}

/// Mark ids, in order.
pub open spec fn mark_ids() -> Seq<Seq<char>> {
    seq![
        "mark_01"@,
        "mark_02"@,
        "mark_03"@,
        "mark_04"@,
        "mark_05"@,
        "mark_06"@,
        "mark_07"@,
        "mark_08"@,
        "mark_09"@,
    ]
}

/// Mark names.
pub open spec fn mark_names() -> Seq<Seq<char>> {
    seq![
        "鸣金"@,
        "纳灵"@,
        "魂印"@,
        "罅隙"@,
        "铁甲"@,
        "聚变"@,
        "裂变"@,
        "蛰伏"@,
        "虚形"@,
    ]
}


/// `t` is the `i`-th built-in tag.
pub open spec fn tag_is(t: Tag, i: int) -> bool {
    &&& t.tag_id@ == tag_ids()[i]
    &&& t.name@ == tag_names()[i]
    &&& t.skill_entries@.len() == 1
    &&& t.skill_entries@[0].level@ == tag_levels()[i]
    &&& t.skill_entries@[0].description@ == tag_descriptions()[i]
    &&& t.first_appearance@ == tag_first_appearances()[i]
    &&& t.design_intent@ == tag_design_intents()[i]
}

/// `m` is the `i`-th built-in mark.
pub open spec fn mark_is(m: Mark, i: int) -> bool {
    m.mark_id@ == mark_ids()[i] && m.name@ == mark_names()[i]
}

fn make_tag(
    tag_id: &str,
    name: &str,
    level: &str,
    description: &str,
    first_appearance: &str,
    design_intent: &str,
) -> (r: Tag)
    ensures
        r.tag_id@ == tag_id@,
        r.name@ == name@,
        r.skill_entries@.len() == 1,
        r.skill_entries@[0].level@ == level@,
        r.skill_entries@[0].description@ == description@,
        r.first_appearance@ == first_appearance@,
        r.design_intent@ == design_intent@,
{
    let mut entries: Vec<SkillEntry> = Vec::new();
    entries.push(SkillEntry { level: owned(level), description: owned(description) });
    Tag {
        tag_id: owned(tag_id),
        name: owned(name),
        skill_entries: entries,
        first_appearance: owned(first_appearance),
        design_intent: owned(design_intent),
    }
}

/// The fifteen tags, in id order.
pub fn all_tags() -> (r: Vec<Tag>)
    ensures
        r@.len() == 15,
        forall|i: int| 0 <= i < 15 ==> tag_is(#[trigger] r@[i], i),
{
    let mut v: Vec<Tag> = Vec::new();
    v.push(make_tag("tag_01", "韬光养晦", "A", "消耗 X 张 Y 品质牌 → 免疫 Z 效果，成功规避后抽 1 牌", "浮光（构筑卡·武学）", "以手牌为替代支付代价换取伤害免疫，体现「弃卒保车」的资源置换策略"));
    assert(tag_is(v@[0], 0));
    v.push(make_tag("tag_02", "一槌定音", "A", "翻牌堆顶 1 张判定牌 → 若满足条件 X 则执行 Y，否则执行 Z", "指虎（构筑卡·兵刃）", "引入随机性验证的条件分支，令攻防结算存在变数，增加博弈深度"));
    assert(tag_is(v@[1], 1));
    v.push(make_tag("tag_03", "谋定后动", "A", "从 N 个互斥选项中择一执行", "蓄势（基本牌·蓝）", "给予使用者一次性多选一决策权，覆盖伤害/治疗/护甲多维度，体现战术灵活性"));
    assert(tag_is(v@[2], 2));
    v.push(make_tag("tag_04", "点石成金", "A", "积累标记（上限 X）→ 消耗标记 + 附加资源 → 产出 Y 效果（每种每回合限 1 次）", "药师（职业卡）", "以通用标记为纽带的多输出转化链路，同一标记搭配不同成本产出不同效果，体现「有限选择」"));
    assert(tag_is(v@[3], 3));
    v.push(make_tag("tag_05", "定向搜寻", "A", "从牌堆抽取指定类型牌 N 张 → 保留 M 张 → 其余弃置或放回", "整军（基本牌·蓝）", "定向从牌堆检索特定类型卡牌并择优保留，提升关键卡上手率"));
    assert(tag_is(v@[4], 4));
    v.push(make_tag("tag_06", "藏锋蓄锐", "A", "将牌存为标记于指定位置（上限 X，每回合限 N 次）→ 条件 Y 触发 → 消耗标记产生效果 Z", "光铸（构筑卡·甲胄）", "将手牌转化为延迟触发的待发标记，以「蓄而不发」换取时机优势"));
    assert(tag_is(v@[5], 5));
    v.push(make_tag("tag_07", "传檄征召", "A", "选择目标玩家 → 抽取公示其 1 张手牌 → 强制其下回合使用该牌", "传令（基本牌·紫）", "跨回合强制调度对手手牌，打乱节奏同时暴露信息，兼具干扰与情报价值"));
    assert(tag_is(v@[6], 6));
    v.push(make_tag("tag_08", "以形摹意", "A", "复制本回合上一张非橙卡效果 → 若无可复制对象则兜底为 X 效果，使用后额外获 1 技力", "仿技（基本牌·橙）", "灵活的镜像效果，以已用卡牌为模板复制执行，并提供空场兜底确保永远可用"));
    assert(tag_is(v@[7], 7));
    v.push(make_tag("tag_09", "追影逐风", "A", "指定目标手牌数为基准 N → 持续抽牌至手牌数等于 N → 若 N=0 则改执行 Z", "掠影（构筑卡·武学）", "以对手手牌数为参照的追赶式抽牌，追平信息差或空手时触发替代效果"));
    assert(tag_is(v@[8], 8));
    v.push(make_tag("tag_10", "牵脉连心", "A", "锁定两个单位 → 下次对任一单位生效的效果同时作用于另一单位", "连脉术（构筑卡·术法）", "建立两单位命运链接，令下一次效果「一石二鸟」，链接用后即解除"));
    assert(tag_is(v@[9], 9));
    v.push(make_tag("tag_11", "洞幽察微", "A", "查看并重排牌堆顶 N 张牌 → 然后抽取 1 张", "观微术（构筑卡·术法）", "窥探牌堆顶信息并重新排序后再抽牌，兼顾当前抽牌质量与后续回合布局"));
    assert(tag_is(v@[10], 10));
    v.push(make_tag("tag_12", "弃旧图新", "A", "弃置手牌 → 换取战略资源 X（每回合限 N 次）", "兵家·权变（重铸子效果，阵营核心技能）", "以牺牲手牌为代价换取可积累的战略资本，非直接规避伤害而是长线投资"));
    assert(tag_is(v@[11], 11));
    v.push(make_tag("tag_13", "崩山裂石", "A", "消耗某项资源当前值的一半（取整）→ 产生效果量与消耗量正相关", "崩山（构筑卡·武学）", "以资源当前值的半数为动态成本，资源越充沛效果越强，形成自平衡"));
    assert(tag_is(v@[12], 12));
    v.push(make_tag("tag_14", "先损后利", "A", "消耗 X 点生命 → 换取效果 Y（伤害或资源）", "七伤（构筑卡·武学）", "以生命为直接交易成本的高风险高回报转换，体现「伤人先伤己」的狠厉"));
    assert(tag_is(v@[13], 13));
    v.push(make_tag("tag_15", "荆棘反刺", "A", "受伤害后 → 对伤害来源执行反制效果 X", "荆棘（构筑卡·甲胄）", "以受伤为触发的被动反击，不阻止伤害但结算后惩罚攻击者，形成「以牙还牙」威慑"));
    assert(tag_is(v@[14], 14));
    v
}

/// The nine marks, in id order.
pub fn all_marks() -> (r: Vec<Mark>)
    ensures
        r@.len() == 9,
        forall|i: int| 0 <= i < 9 ==> mark_is(#[trigger] r@[i], i),
{
    let mut v: Vec<Mark> = Vec::new();
    v.push(Mark { mark_id: owned("mark_01"), name: owned("鸣金") });
    assert(mark_is(v@[0], 0));
    v.push(Mark { mark_id: owned("mark_02"), name: owned("纳灵") });
    assert(mark_is(v@[1], 1));
    v.push(Mark { mark_id: owned("mark_03"), name: owned("魂印") });
    assert(mark_is(v@[2], 2));
    v.push(Mark { mark_id: owned("mark_04"), name: owned("罅隙") });
    assert(mark_is(v@[3], 3));
    v.push(Mark { mark_id: owned("mark_05"), name: owned("铁甲") });
    assert(mark_is(v@[4], 4));
    v.push(Mark { mark_id: owned("mark_06"), name: owned("聚变") });
    assert(mark_is(v@[5], 5));
    v.push(Mark { mark_id: owned("mark_07"), name: owned("裂变") });
    assert(mark_is(v@[6], 6));
    v.push(Mark { mark_id: owned("mark_08"), name: owned("蛰伏") });
    assert(mark_is(v@[7], 7));
    v.push(Mark { mark_id: owned("mark_09"), name: owned("虚形") });
    assert(mark_is(v@[8], 8));
    v
}

pub open spec fn name_code(c: char) -> int {
    if c == '韬' { 0 }
    else if c == '一' { 1 }
    else if c == '谋' { 2 }
    else if c == '点' { 3 }
    else if c == '定' { 4 }
    else if c == '藏' { 5 }
    else if c == '传' { 6 }
    else if c == '以' { 7 }
    else if c == '追' { 8 }
    else if c == '牵' { 9 }
    else if c == '洞' { 10 }
    else if c == '弃' { 11 }
    else if c == '崩' { 12 }
    else if c == '先' { 13 }
    else if c == '荆' { 14 }
    else { -1 }
}
pub open spec fn mark_name_code(c: char) -> int {
    if c == '鸣' { 0 }
    else if c == '纳' { 1 }
    else if c == '魂' { 2 }
    else if c == '罅' { 3 }
    else if c == '铁' { 4 }
    else if c == '聚' { 5 }
    else if c == '裂' { 6 }
    else if c == '蛰' { 7 }
    else if c == '虚' { 8 }
    else { -1 }
}

/// No two built-in tags share an id or a name, and no two marks share an
/// id or a name.
pub proof fn lemma_tables_distinct()
    ensures
        tag_ids().len() == 15 && tag_names().len() == 15,
        forall|i: int, j: int| 0 <= i < j < 15 ==> tag_ids()[i] != tag_ids()[j],
        forall|i: int, j: int| 0 <= i < j < 15 ==> tag_names()[i] != tag_names()[j],
        mark_ids().len() == 9 && mark_names().len() == 9,
        forall|i: int, j: int| 0 <= i < j < 9 ==> mark_ids()[i] != mark_ids()[j],
        forall|i: int, j: int| 0 <= i < j < 9 ==> mark_names()[i] != mark_names()[j],
{
    reveal_strlit("tag_01");
    reveal_strlit("tag_02");
    reveal_strlit("tag_03");
    reveal_strlit("tag_04");
    reveal_strlit("tag_05");
    reveal_strlit("tag_06");
    reveal_strlit("tag_07");
    reveal_strlit("tag_08");
    reveal_strlit("tag_09");
    reveal_strlit("tag_10");
    reveal_strlit("tag_11");
    reveal_strlit("tag_12");
    reveal_strlit("tag_13");
    reveal_strlit("tag_14");
    reveal_strlit("tag_15");
    reveal_strlit("韬光养晦");
    reveal_strlit("一槌定音");
    reveal_strlit("谋定后动");
    reveal_strlit("点石成金");
    reveal_strlit("定向搜寻");
    reveal_strlit("藏锋蓄锐");
    reveal_strlit("传檄征召");
    reveal_strlit("以形摹意");
    reveal_strlit("追影逐风");
    reveal_strlit("牵脉连心");
    reveal_strlit("洞幽察微");
    reveal_strlit("弃旧图新");
    reveal_strlit("崩山裂石");
    reveal_strlit("先损后利");
    reveal_strlit("荆棘反刺");
    reveal_strlit("mark_01");
    reveal_strlit("mark_02");
    reveal_strlit("mark_03");
    reveal_strlit("mark_04");
    reveal_strlit("mark_05");
    reveal_strlit("mark_06");
    reveal_strlit("mark_07");
    reveal_strlit("mark_08");
    reveal_strlit("mark_09");
    reveal_strlit("鸣金");
    reveal_strlit("纳灵");
    reveal_strlit("魂印");
    reveal_strlit("罅隙");
    reveal_strlit("铁甲");
    reveal_strlit("聚变");
    reveal_strlit("裂变");
    reveal_strlit("蛰伏");
    reveal_strlit("虚形");
    assert forall|k: int| 0 <= k < 15 implies tag_ids()[k].len() == 6 && (tag_ids()[k][4] as int
        - '0' as int) * 10 + (tag_ids()[k][5] as int - '0' as int) == k + 1 && name_code(
        tag_names()[k][0],
    ) == k by {
        if k == 0 {
            assert(tag_ids()[0][5] == '1' && tag_ids()[0][4] == '0' && tag_names()[0][0] == '韬');
        } else if k == 1 {
            assert(tag_ids()[1][5] == '2' && tag_ids()[1][4] == '0' && tag_names()[1][0] == '一');
        } else if k == 2 {
            assert(tag_ids()[2][5] == '3' && tag_ids()[2][4] == '0' && tag_names()[2][0] == '谋');
        } else if k == 3 {
            assert(tag_ids()[3][5] == '4' && tag_ids()[3][4] == '0' && tag_names()[3][0] == '点');
        } else if k == 4 {
            assert(tag_ids()[4][5] == '5' && tag_ids()[4][4] == '0' && tag_names()[4][0] == '定');
        } else if k == 5 {
            assert(tag_ids()[5][5] == '6' && tag_ids()[5][4] == '0' && tag_names()[5][0] == '藏');
        } else if k == 6 {
            assert(tag_ids()[6][5] == '7' && tag_ids()[6][4] == '0' && tag_names()[6][0] == '传');
        } else if k == 7 {
            assert(tag_ids()[7][5] == '8' && tag_ids()[7][4] == '0' && tag_names()[7][0] == '以');
        } else if k == 8 {
            assert(tag_ids()[8][5] == '9' && tag_ids()[8][4] == '0' && tag_names()[8][0] == '追');
        } else if k == 9 {
            assert(tag_ids()[9][5] == '0' && tag_ids()[9][4] == '1' && tag_names()[9][0] == '牵');
        } else if k == 10 {
            assert(tag_ids()[10][5] == '1' && tag_ids()[10][4] == '1' && tag_names()[10][0] == '洞');
        } else if k == 11 {
            assert(tag_ids()[11][5] == '2' && tag_ids()[11][4] == '1' && tag_names()[11][0] == '弃');
        } else if k == 12 {
            assert(tag_ids()[12][5] == '3' && tag_ids()[12][4] == '1' && tag_names()[12][0] == '崩');
        } else if k == 13 {
            assert(tag_ids()[13][5] == '4' && tag_ids()[13][4] == '1' && tag_names()[13][0] == '先');
        } else if k == 14 {
            assert(tag_ids()[14][5] == '5' && tag_ids()[14][4] == '1' && tag_names()[14][0] == '荆');
        }
    }
    assert forall|i: int, j: int| 0 <= i < j < 15 implies tag_ids()[i] != tag_ids()[j] by {
        if tag_ids()[i] == tag_ids()[j] {
            assert(tag_ids()[i][4] == tag_ids()[j][4] && tag_ids()[i][5] == tag_ids()[j][5]);
        }
    }
    assert forall|i: int, j: int| 0 <= i < j < 15 implies tag_names()[i] != tag_names()[j] by {
        if tag_names()[i] == tag_names()[j] {
            assert(tag_names()[i][0] == tag_names()[j][0]);
        }
    }
    assert forall|k: int| 0 <= k < 9 implies mark_ids()[k].len() == 7 && mark_ids()[k][6] as int
        - '0' as int == k + 1 && mark_name_code(mark_names()[k][0]) == k by {
        if k == 0 {
            assert(mark_ids()[0][6] == '1' && mark_names()[0][0] == '鸣');
        } else if k == 1 {
            assert(mark_ids()[1][6] == '2' && mark_names()[1][0] == '纳');
        } else if k == 2 {
            assert(mark_ids()[2][6] == '3' && mark_names()[2][0] == '魂');
        } else if k == 3 {
            assert(mark_ids()[3][6] == '4' && mark_names()[3][0] == '罅');
        } else if k == 4 {
            assert(mark_ids()[4][6] == '5' && mark_names()[4][0] == '铁');
        } else if k == 5 {
            assert(mark_ids()[5][6] == '6' && mark_names()[5][0] == '聚');
        } else if k == 6 {
            assert(mark_ids()[6][6] == '7' && mark_names()[6][0] == '裂');
        } else if k == 7 {
            assert(mark_ids()[7][6] == '8' && mark_names()[7][0] == '蛰');
        } else if k == 8 {
            assert(mark_ids()[8][6] == '9' && mark_names()[8][0] == '虚');
        }
    }
    assert forall|i: int, j: int| 0 <= i < j < 9 implies mark_ids()[i] != mark_ids()[j] by {
        if mark_ids()[i] == mark_ids()[j] {
            assert(mark_ids()[i][6] == mark_ids()[j][6]);
        }
    }
    assert forall|i: int, j: int| 0 <= i < j < 9 implies mark_names()[i] != mark_names()[j] by {
        if mark_names()[i] == mark_names()[j] {
            assert(mark_names()[i][0] == mark_names()[j][0]);
        }
    }
}

/// The index of the tag named `name`.
pub open spec fn tag_index_by_name(name: Seq<char>) -> Option<int> {
    if exists|i: int| 0 <= i < 15 && tag_names()[i] == name {
        Some(choose|i: int| 0 <= i < 15 && tag_names()[i] == name)
    } else {
        None
    }
}

/// The index of the tag with id `id`.
pub open spec fn tag_index_by_id(id: Seq<char>) -> Option<int> {
    if exists|i: int| 0 <= i < 15 && tag_ids()[i] == id {
        Some(choose|i: int| 0 <= i < 15 && tag_ids()[i] == id)
    } else {
        None
    }
}

/// Looking a tag up by its own name or id finds that tag.
pub proof fn lemma_lookup_finds(i: int)
    requires
        0 <= i < 15,
    ensures
        tag_index_by_name(tag_names()[i]) == Some(i),
        tag_index_by_id(tag_ids()[i]) == Some(i),
{
    lemma_tables_distinct();
    let a = choose|k: int| 0 <= k < 15 && tag_names()[k] == tag_names()[i];
    if a != i {
        if a < i {
            assert(tag_names()[a] != tag_names()[i]);
        } else {
            assert(tag_names()[i] != tag_names()[a]);
        }
    }
    let b = choose|k: int| 0 <= k < 15 && tag_ids()[k] == tag_ids()[i];
    if b != i {
        if b < i {
            assert(tag_ids()[b] != tag_ids()[i]);
        } else {
            assert(tag_ids()[i] != tag_ids()[b]);
        }
    }
}

/// The tag called `name`, if any.
pub fn get_tag_by_name(name: String) -> (r: Option<Tag>)
    ensures
        match tag_index_by_name(name@) {
            Some(i) => r matches Some(t) && tag_is(t, i),
            None => r is None,
        },
{
    let mut v = all_tags();
    let mut i: usize = 0;
    while i < v.len()
        invariant
            i <= v@.len(),
            v@.len() == 15,
            forall|k: int| 0 <= k < 15 ==> tag_is(#[trigger] v@[k], k),
            forall|k: int| 0 <= k < i ==> tag_names()[k] != name@,
        decreases v@.len() - i,
    {
        if v[i].name == name {
            proof {
                lemma_lookup_finds(i as int);
            }
            let t = v.remove(i);
            return Some(t);
        }
        i = i + 1;
    }
    None
}

/// The tag with id `id`, if any.
pub fn get_tag_by_id(id: String) -> (r: Option<Tag>)
    ensures
        match tag_index_by_id(id@) {
            Some(i) => r matches Some(t) && tag_is(t, i),
            None => r is None,
        },
{
    let mut v = all_tags();
    let mut i: usize = 0;
    while i < v.len()
        invariant
            i <= v@.len(),
            v@.len() == 15,
            forall|k: int| 0 <= k < 15 ==> tag_is(#[trigger] v@[k], k),
            forall|k: int| 0 <= k < i ==> tag_ids()[k] != id@,
        decreases v@.len() - i,
    {
        if v[i].tag_id == id {
            proof {
                lemma_lookup_finds(i as int);
            }
            let t = v.remove(i);
            return Some(t);
        }
        i = i + 1;
    }
    None
}

/// All fifteen tags.
pub fn list_all_tags() -> (r: Vec<Tag>)
    ensures
        r@.len() == 15,
        forall|i: int| 0 <= i < 15 ==> tag_is(#[trigger] r@[i], i),
{
    all_tags()
}

/// All nine marks, in id order.
pub fn list_all_marks() -> (r: Vec<Mark>)
    ensures
        r@.len() == 9,
        forall|i: int| 0 <= i < 9 ==> mark_is(#[trigger] r@[i], i),
{
    all_marks()
}

} // verus!
