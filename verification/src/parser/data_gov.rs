//! Data governance: structural checks of a cards.json document, duplicate
//! detection, and the selection and merge steps of export and import.
use vstd::prelude::*;
use crate::json::{get_member, json_parse, member, parse_json, JsonValue};
use crate::parser::card_data::Card;
use crate::text::{append_int, append_str, chars_of, dec, has_prefix, owned, starts_with_lit};

verus! {

/// One structural error of a cards document.
#[derive(Debug, Clone)]
pub struct JsonValidationError {
    pub card_id: String,
    pub card_name: String,
    pub field: String,
    pub message: String,
}

/// Result of checking a cards document.
#[derive(Debug, Clone)]
pub struct JsonValidationResult {
    pub valid: bool,
    pub total_cards: usize,
    pub errors: Vec<JsonValidationError>,
}

/// An error as (card id, card name, field, message).
pub type ErrView = (Seq<char>, Seq<char>, Seq<char>, Seq<char>);

pub open spec fn err_view(e: JsonValidationError) -> ErrView {
    (e.card_id@, e.card_name@, e.field@, e.message@)
}

pub open spec fn errs_view(v: Seq<JsonValidationError>) -> Seq<ErrView> {
    v.map_values(|e: JsonValidationError| err_view(e))
}

pub open spec fn str_member(v: Option<JsonValue>) -> Option<Seq<char>> {
    match v {
        Some(JsonValue::Str(s)) => Some(s@),
        _ => None,
    }
}

pub open spec fn str_or_missing(v: Option<JsonValue>) -> Seq<char> {
    match str_member(v) {
        Some(s) => s,
        None => "(缺失)"@,
    }
}

pub open spec fn index_label(idx: int) -> Seq<char> {
    "索引["@ + dec(idx) + "]"@
}

/// Errors of the id field, and the ids seen after it.
pub open spec fn id_check(
    id_v: Option<JsonValue>,
    idx: int,
    card_name: Seq<char>,
    seen: Set<Seq<char>>,
) -> (Seq<ErrView>, Set<Seq<char>>) {
    match id_v {
        None => (seq![(index_label(idx), card_name, "id"@, "缺少必填字段 id"@)], seen),
        Some(JsonValue::Str(s)) => if s@.len() == 0 {
            (seq![(index_label(idx), card_name, "id"@, "id 字段不能为空字符串"@)], seen)
        } else if !has_prefix(s@, "card_"@) {
            (seq![(s@, card_name, "id"@, "id 格式不正确，应为 card_NNN，实际为 '"@ + s@ + "'"@)], seen)
        } else if seen.contains(s@) {
            (seq![(s@, card_name, "id"@, "id '"@ + s@ + "' 重复出现"@)], seen)
        } else {
            (Seq::empty(), seen.insert(s@))
        },
        Some(_) => (seq![(index_label(idx), card_name, "id"@, "id 字段必须是字符串"@)], seen),
    }
}

pub open spec fn name_check(name_v: Option<JsonValue>, card_id: Seq<char>, card_name: Seq<char>) -> Seq<
    ErrView,
> {
    match name_v {
        None => seq![(card_id, "(缺失)"@, "name"@, "缺少必填字段 name"@)],
        Some(JsonValue::Str(s)) => if s@.len() > 0 {
            Seq::empty()
        } else {
            seq![(card_id, card_name, "name"@, "name 字段不能为空"@)]
        },
        Some(_) => seq![(card_id, card_name, "name"@, "name 字段不能为空"@)],
    }
}

pub open spec fn text_check(v: Option<JsonValue>, card_id: Seq<char>, card_name: Seq<char>) -> Seq<
    ErrView,
> {
    match v {
        None => seq![(card_id, card_name, "text"@, "缺少必填字段 text"@)],
        Some(JsonValue::Str(s)) => if s@.len() > 0 {
            Seq::empty()
        } else {
            seq![(card_id, card_name, "text"@, "text 字段不能为空"@)]
        },
        Some(_) => seq![(card_id, card_name, "text"@, "text 字段必须是字符串"@)],
    }
}

/// Errors of a field that must be present and be a string.
pub open spec fn string_field_check(
    v: Option<JsonValue>,
    field: Seq<char>,
    card_id: Seq<char>,
    card_name: Seq<char>,
) -> Seq<ErrView> {
    match v {
        None => seq![(card_id, card_name, field, "缺少必填字段 "@ + field)],
        Some(JsonValue::Str(_)) => Seq::empty(),
        Some(_) => seq![(card_id, card_name, field, field + " 字段必须是字符串"@)],
    }
}

/// Errors of a field that must be present and be an array.
pub open spec fn array_field_check(
    v: Option<JsonValue>,
    field: Seq<char>,
    card_id: Seq<char>,
    card_name: Seq<char>,
) -> Seq<ErrView> {
    match v {
        None => seq![(card_id, card_name, field, "缺少必填字段 "@ + field)],
        Some(JsonValue::Array(_)) => Seq::empty(),
        Some(_) => seq![(card_id, card_name, field, field + " 字段必须是数组"@)],
    }
}

/// Errors of a card's fields other than its id.
pub open spec fn field_errs(kv: Seq<(String, JsonValue)>, card_id: Seq<char>, card_name: Seq<char>) -> Seq<
    ErrView,
> {
    name_check(member(kv, "name"@), card_id, card_name) + text_check(member(kv, "text"@), card_id, card_name)
        + array_field_check(member(kv, "list_tags"@), "list_tags"@, card_id, card_name)
        + array_field_check(member(kv, "pre_tag"@), "pre_tag"@, card_id, card_name)
        + array_field_check(member(kv, "duel_tags"@), "duel_tags"@, card_id, card_name)
        + string_field_check(member(kv, "created_at"@), "created_at"@, card_id, card_name)
        + string_field_check(member(kv, "modified_at"@), "modified_at"@, card_id, card_name)
}

/// Errors of the card at index `idx`, and the ids seen after it.
pub open spec fn item_check(item: JsonValue, idx: int, seen: Set<Seq<char>>) -> (Seq<ErrView>, Set<
    Seq<char>,
>) {
    match item {
        JsonValue::Object(kv) => {
            let id_v = member(kv@, "id"@);
            let name_v = member(kv@, "name"@);
            let card_id = str_or_missing(id_v);
            let card_name = str_or_missing(name_v);
            let (id_errs, seen2) = id_check(id_v, idx, card_name, seen);
            (id_errs + field_errs(kv@, card_id, card_name), seen2)
        },
        _ => (seq![(index_label(idx), "N/A"@, "entry"@, "卡牌条目必须是 JSON 对象"@)], seen),
    }
}

/// Errors of the cards in order, and the ids seen.
pub open spec fn items_check(items: Seq<JsonValue>) -> (Seq<ErrView>, Set<Seq<char>>)
    decreases items.len(),
{
    if items.len() == 0 {
        (Seq::empty(), Set::empty())
    } else {
        let (e, s) = items_check(items.drop_last());
        let (e2, s2) = item_check(items.last(), items.len() - 1, s);
        (e + e2, s2)
    }
}

/// The cards array of a document: the top-level array, or the `cards`
/// member of a top-level object; else the error that says why not.
pub open spec fn cards_array(v: JsonValue) -> Result<Seq<JsonValue>, ErrView> {
    match v {
        JsonValue::Object(kv) => match member(kv@, "cards"@) {
            Some(JsonValue::Array(a)) => Ok(a@),
            Some(_) => Err(("N/A"@, "N/A"@, "cards"@, "顶层 cards 字段必须是数组"@)),
            None => Err(
                ("N/A"@, "N/A"@, "root"@, "顶层类型必须为数组或包含 cards 键的对象，实际为: Object(无cards键)"@),
            ),
        },
        JsonValue::Array(a) => Ok(a@),
        _ => Err(("N/A"@, "N/A"@, "root"@, "顶层类型必须为数组或包含 cards 键的对象，实际为: 非数组/对象"@)),
    }
}

/// `r` is the result of checking document `v`.
pub open spec fn validation_of_value(v: JsonValue, r: JsonValidationResult) -> bool {
    match cards_array(v) {
        Err(e) => !r.valid && r.total_cards == 0 && errs_view(r.errors@) == seq![e],
        Ok(items) => {
            &&& errs_view(r.errors@) == items_check(items).0
            &&& r.valid == (r.errors@.len() == 0)
            &&& r.total_cards == items.len()
        },
    }
}

fn mk_err(card_id: &str, card_name: &str, field: &str, message: String) -> (r: JsonValidationError)
    ensures
        err_view(r) == (card_id@, card_name@, field@, message@),
{
    JsonValidationError { card_id: owned(card_id), card_name: owned(card_name), field: owned(field), message }
}

fn push_err(v: &mut Vec<JsonValidationError>, e: JsonValidationError)
    ensures
        errs_view(final(v)@) == errs_view(old(v)@).push(err_view(e)),
{
    let ghost v0 = errs_view(v@);
    v.push(e);
    assert(errs_view(v@) =~= v0.push(err_view(e)));
}

fn str_or_missing_exec(v: Option<&JsonValue>) -> (r: String)
    ensures
        r@ == str_or_missing(match v {
            Some(x) => Some(*x),
            None => None,
        }),
{
    match v {
        Some(JsonValue::Str(s)) => s.clone(),
        _ => owned("(缺失)"),
    }
}

fn index_label_exec(idx: usize) -> (r: String)
    ensures
        r@ == index_label(idx as int),
{
    let mut s = owned("索引[");
    let d = crate::text::wide_to_chars(idx as u128);
    crate::text::append_chars(&mut s, &d);
    append_str(&mut s, "]");
    assert(dec(idx as int) == crate::text::nat_dec(idx as nat));
    s
}

fn seen_contains(seen: &Vec<String>, s: &String) -> (r: bool)
    ensures
        r == seen@.map_values(|x: String| x@).contains(s@),
{
    let ghost sv = seen@.map_values(|x: String| x@);
    let mut i: usize = 0;
    while i < seen.len()
        invariant
            i <= seen@.len(),
            sv == seen@.map_values(|x: String| x@),
            forall|k: int| 0 <= k < i ==> sv[k] != s@,
        decreases seen@.len() - i,
    {
        if seen[i] == *s {
            assert(sv[i as int] == s@);
            return true;
        }
        i = i + 1;
    }
    false
}

pub open spec fn deref_opt(v: Option<&JsonValue>) -> Option<JsonValue> {
    match v {
        Some(x) => Some(*x),
        None => None,
    }
}

fn string_field_exec(
    errors: &mut Vec<JsonValidationError>,
    v: Option<&JsonValue>,
    field: &str,
    card_id: &String,
    card_name: &String,
)
    ensures
        errs_view(final(errors)@) == errs_view(old(errors)@) + string_field_check(
            deref_opt(v),
            field@,
            card_id@,
            card_name@,
        ),
{
    let ghost e0 = errs_view(errors@);
    match v {
        None => {
            let mut m = owned("缺少必填字段 ");
            append_str(&mut m, field);
            push_err(errors, mk_err(card_id.as_str(), card_name.as_str(), field, m));
        },
        Some(JsonValue::Str(_)) => {},
        Some(_) => {
            let mut m = owned(field);
            append_str(&mut m, " 字段必须是字符串");
            push_err(errors, mk_err(card_id.as_str(), card_name.as_str(), field, m));
        },
    }
    assert(errs_view(errors@) =~= e0 + string_field_check(deref_opt(v), field@, card_id@, card_name@));
}

fn array_field_exec(
    errors: &mut Vec<JsonValidationError>,
    v: Option<&JsonValue>,
    field: &str,
    card_id: &String,
    card_name: &String,
)
    ensures
        errs_view(final(errors)@) == errs_view(old(errors)@) + array_field_check(
            deref_opt(v),
            field@,
            card_id@,
            card_name@,
        ),
{
    let ghost e0 = errs_view(errors@);
    match v {
        None => {
            let mut m = owned("缺少必填字段 ");
            append_str(&mut m, field);
            push_err(errors, mk_err(card_id.as_str(), card_name.as_str(), field, m));
        },
        Some(JsonValue::Array(_)) => {},
        Some(_) => {
            let mut m = owned(field);
            append_str(&mut m, " 字段必须是数组");
            push_err(errors, mk_err(card_id.as_str(), card_name.as_str(), field, m));
        },
    }
    assert(errs_view(errors@) =~= e0 + array_field_check(deref_opt(v), field@, card_id@, card_name@));
}

pub open spec fn seen_set(seen: Seq<String>) -> Set<Seq<char>> {
    seen.map_values(|x: String| x@).to_set()
}

fn id_check_exec(
    errors: &mut Vec<JsonValidationError>,
    seen: &mut Vec<String>,
    id_v: Option<&JsonValue>,
    idx: usize,
    card_name: &String,
)
    ensures
        errs_view(final(errors)@) == errs_view(old(errors)@) + id_check(
            deref_opt(id_v),
            idx as int,
            card_name@,
            seen_set(old(seen)@),
        ).0,
        seen_set(final(seen)@) == id_check(deref_opt(id_v), idx as int, card_name@, seen_set(old(seen)@)).1,
{
    let ghost e0 = errs_view(errors@);
    match id_v {
        None => {
            let l = index_label_exec(idx);
            push_err(errors, mk_err(l.as_str(), card_name.as_str(), "id", owned("缺少必填字段 id")));
        },
        Some(JsonValue::Str(sv)) => {
            let cv = chars_of(sv.as_str());
            if sv.as_str().is_empty() {
                let l = index_label_exec(idx);
                push_err(errors, mk_err(l.as_str(), card_name.as_str(), "id", owned("id 字段不能为空字符串")));
            } else if !starts_with_lit(&cv, "card_") {
                let mut m = owned("id 格式不正确，应为 card_NNN，实际为 '");
                append_str(&mut m, sv.as_str());
                append_str(&mut m, "'");
                push_err(errors, mk_err(sv.as_str(), card_name.as_str(), "id", m));
            } else if seen_contains(seen, sv) {
                let mut m = owned("id '");
                append_str(&mut m, sv.as_str());
                append_str(&mut m, "' 重复出现");
                push_err(errors, mk_err(sv.as_str(), card_name.as_str(), "id", m));
            } else {
                let ghost before = seen@;
                seen.push(sv.clone());
                assert(seen@.map_values(|x: String| x@) =~= before.map_values(|x: String| x@).push(sv@));
                proof {
                    before.map_values(|x: String| x@).lemma_push_to_set_commute(sv@);
                }
            }
        },
        Some(_) => {
            let l = index_label_exec(idx);
            push_err(errors, mk_err(l.as_str(), card_name.as_str(), "id", owned("id 字段必须是字符串")));
        },
    }
    assert(errs_view(errors@) =~= e0 + id_check(deref_opt(id_v), idx as int, card_name@, seen_set(old(seen)@)).0);
}

fn name_check_exec(
    errors: &mut Vec<JsonValidationError>,
    name_v: Option<&JsonValue>,
    card_id: &String,
    card_name: &String,
)
    ensures
        errs_view(final(errors)@) == errs_view(old(errors)@) + name_check(
            deref_opt(name_v),
            card_id@,
            card_name@,
        ),
{
    let ghost e0 = errs_view(errors@);
    match name_v {
        None => {
            push_err(errors, mk_err(card_id.as_str(), "(缺失)", "name", owned("缺少必填字段 name")));
        },
        Some(JsonValue::Str(sv)) => {
            if sv.as_str().is_empty() {
                push_err(errors, mk_err(card_id.as_str(), card_name.as_str(), "name", owned("name 字段不能为空")));
            }
        },
        Some(_) => {
            push_err(errors, mk_err(card_id.as_str(), card_name.as_str(), "name", owned("name 字段不能为空")));
        },
    }
    assert(errs_view(errors@) =~= e0 + name_check(deref_opt(name_v), card_id@, card_name@));
}

fn text_check_exec(
    errors: &mut Vec<JsonValidationError>,
    v: Option<&JsonValue>,
    card_id: &String,
    card_name: &String,
)
    ensures
        errs_view(final(errors)@) == errs_view(old(errors)@) + text_check(deref_opt(v), card_id@, card_name@),
{
    let ghost e0 = errs_view(errors@);
    match v {
        None => {
            push_err(errors, mk_err(card_id.as_str(), card_name.as_str(), "text", owned("缺少必填字段 text")));
        },
        Some(JsonValue::Str(t)) => {
            if crate::text::chars_of(t.as_str()).len() == 0 {
                push_err(errors, mk_err(card_id.as_str(), card_name.as_str(), "text", owned("text 字段不能为空")));
            }
        },
        Some(_) => {
            push_err(errors, mk_err(card_id.as_str(), card_name.as_str(), "text", owned("text 字段必须是字符串")));
        },
    }
    assert(errs_view(errors@) =~= e0 + text_check(deref_opt(v), card_id@, card_name@));
}

fn field_errs_exec(kv: &Vec<(String, JsonValue)>, card_id: &String, card_name: &String) -> (r: Vec<
    JsonValidationError,
>)
    ensures
        errs_view(r@) == field_errs(kv@, card_id@, card_name@),
{
    let mut local: Vec<JsonValidationError> = Vec::new();
    name_check_exec(&mut local, get_member(kv, "name"), card_id, card_name);
    assert(errs_view(local@) =~= name_check(member(kv@, "name"@), card_id@, card_name@));
    text_check_exec(&mut local, get_member(kv, "text"), card_id, card_name);
    array_field_exec(&mut local, get_member(kv, "list_tags"), "list_tags", card_id, card_name);
    array_field_exec(&mut local, get_member(kv, "pre_tag"), "pre_tag", card_id, card_name);
    array_field_exec(&mut local, get_member(kv, "duel_tags"), "duel_tags", card_id, card_name);
    string_field_exec(&mut local, get_member(kv, "created_at"), "created_at", card_id, card_name);
    string_field_exec(&mut local, get_member(kv, "modified_at"), "modified_at", card_id, card_name);
    local
}

fn append_errs(errors: &mut Vec<JsonValidationError>, more: Vec<JsonValidationError>)
    ensures
        errs_view(final(errors)@) == errs_view(old(errors)@) + errs_view(more@),
{
    let mut more = more;
    let ghost e0 = errs_view(errors@);
    let ghost m0 = errs_view(more@);
    errors.append(&mut more);
    assert(errs_view(errors@) =~= e0 + m0);
}

fn item_check_exec(
    errors: &mut Vec<JsonValidationError>,
    seen: &mut Vec<String>,
    item: &JsonValue,
    idx: usize,
)
    ensures
        errs_view(final(errors)@) == errs_view(old(errors)@) + item_check(
            *item,
            idx as int,
            seen_set(old(seen)@),
        ).0,
        seen_set(final(seen)@) == item_check(*item, idx as int, seen_set(old(seen)@)).1,
{
    let ghost e0 = errs_view(errors@);
    let ghost s0 = seen_set(seen@);
    match item {
        JsonValue::Object(kv) => {
            let id_v = get_member(kv, "id");
            let name_v = get_member(kv, "name");
            let card_id = str_or_missing_exec(id_v);
            let card_name = str_or_missing_exec(name_v);
            let mut local: Vec<JsonValidationError> = Vec::new();
            id_check_exec(&mut local, seen, id_v, idx, &card_name);
            assert(errs_view(local@) =~= id_check(deref_opt(id_v), idx as int, card_name@, s0).0);
            let rest = field_errs_exec(kv, &card_id, &card_name);
            append_errs(&mut local, rest);
            append_errs(errors, local);
            assert(errs_view(errors@) =~= e0 + item_check(*item, idx as int, s0).0);
        },
        _ => {
            let l = index_label_exec(idx);
            push_err(errors, mk_err(l.as_str(), "N/A", "entry", owned("卡牌条目必须是 JSON 对象")));
            assert(errs_view(errors@) =~= e0 + item_check(*item, idx as int, s0).0);
        },
    }
}

fn root_error(field: &str, message: &str) -> (r: JsonValidationResult)
    ensures
        !r.valid && r.total_cards == 0,
        errs_view(r.errors@) == seq![("N/A"@, "N/A"@, field@, message@)],
{
    let mut errors: Vec<JsonValidationError> = Vec::new();
    push_err(&mut errors, mk_err("N/A", "N/A", field, owned(message)));
    assert(errs_view(errors@) =~= seq![("N/A"@, "N/A"@, field@, message@)]);
    JsonValidationResult { valid: false, total_cards: 0, errors }
}

fn check_items(items: &Vec<JsonValue>) -> (r: JsonValidationResult)
    ensures
        errs_view(r.errors@) == items_check(items@).0,
        r.valid == (r.errors@.len() == 0),
        r.total_cards == items@.len(),
{
    let mut errors: Vec<JsonValidationError> = Vec::new();
    let mut seen: Vec<String> = Vec::new();
    let mut i: usize = 0;
    assert(errs_view(errors@) =~= Seq::<ErrView>::empty());
    assert(seen_set(seen@) =~= Set::<Seq<char>>::empty());
    while i < items.len()
        invariant
            i <= items@.len(),
            errs_view(errors@) == items_check(items@.subrange(0, i as int)).0,
            seen_set(seen@) == items_check(items@.subrange(0, i as int)).1,
        decreases items@.len() - i,
    {
        assert(items@.subrange(0, i + 1).drop_last() =~= items@.subrange(0, i as int));
        item_check_exec(&mut errors, &mut seen, &items[i], i);
        i = i + 1;
    }
    assert(items@.subrange(0, items@.len() as int) =~= items@);
    let valid = errors.len() == 0;
    JsonValidationResult { valid, total_cards: items.len(), errors }
}

/// Checks a parsed cards document: the cards array must be found, each card
/// must be an object with a string id of the form card_… seen once, a non-empty
/// name, a string text, arrays list_tags, pre_tag, duel_tags and strings
/// created_at, modified_at.
pub fn validate_cards_value(parsed: &JsonValue) -> (r: JsonValidationResult)
    ensures
        validation_of_value(*parsed, r),
{
    match parsed {
        JsonValue::Object(kv) => match get_member(kv, "cards") {
            Some(JsonValue::Array(a)) => check_items(a),
            Some(_) => root_error("cards", "顶层 cards 字段必须是数组"),
            None => root_error("root", "顶层类型必须为数组或包含 cards 键的对象，实际为: Object(无cards键)"),
        },
        JsonValue::Array(a) => check_items(a),
        _ => root_error("root", "顶层类型必须为数组或包含 cards 键的对象，实际为: 非数组/对象"),
    }
}

/// Checks the text of a cards document; text that is not JSON gives one
/// root error carrying serde_json's message.
pub fn validate_cards_json(json_str: &str) -> (r: JsonValidationResult)
    ensures
        match json_parse(json_str@) {
            Ok(v) => validation_of_value(v, r),
            Err(e) => !r.valid && r.total_cards == 0 && errs_view(r.errors@) == seq![
                ("N/A"@, "N/A"@, "root"@, "JSON 解析失败: "@ + e),
            ],
        },
{
    match parse_json(json_str) {
        Ok(v) => validate_cards_value(&v),
        Err(e) => {
            let mut m = owned("JSON 解析失败: ");
            append_str(&mut m, e.as_str());
            let mut errors: Vec<JsonValidationError> = Vec::new();
            push_err(&mut errors, mk_err("N/A", "N/A", "root", m));
            assert(errs_view(errors@) =~= seq![("N/A"@, "N/A"@, "root"@, "JSON 解析失败: "@ + e@)]);
            JsonValidationResult { valid: false, total_cards: 0, errors }
        },
    }
}

// ---------------------------------------------------------------------------
// Duplicates
// ---------------------------------------------------------------------------

/// Two cards that look like duplicates.
#[derive(Debug, Clone)]
pub struct DuplicatePair {
    pub card_a_id: String,
    pub card_a_name: String,
    pub card_b_id: String,
    pub card_b_name: String,
    /// "name", "text_hash" or "both".
    pub reason: String,
}

pub open spec fn dup_reason(a: Card, b: Card) -> Option<Seq<char>> {
    let n = a.name@ == b.name@;
    let t = a.text@ == b.text@;
    if n && t {
        Some("both"@)
    } else if n {
        Some("name"@)
    } else if t {
        Some("text_hash"@)
    } else {
        None
    }
}

pub type PairView = (Seq<char>, Seq<char>, Seq<char>, Seq<char>, Seq<char>);

pub open spec fn pair_view(p: DuplicatePair) -> PairView {
    (p.card_a_id@, p.card_a_name@, p.card_b_id@, p.card_b_name@, p.reason@)
}

/// The pairs of `a` (at index `i`) with each later card of `cards` from `j` on.
pub open spec fn pairs_with(cards: Seq<Card>, i: int, j: int) -> Seq<PairView>
    decreases cards.len() - j,
{
    if j >= cards.len() || j < 0 {
        Seq::empty()
    } else {
        (match dup_reason(cards[i], cards[j]) {
            Some(r) => seq![(cards[i].id@, cards[i].name@, cards[j].id@, cards[j].name@, r)],
            None => Seq::empty(),
        }) + pairs_with(cards, i, j + 1)
    }
}

/// All duplicate pairs (i, j), i before j, in order of i then j.
pub open spec fn all_pairs(cards: Seq<Card>, i: int) -> Seq<PairView>
    decreases cards.len() - i,
{
    if i >= cards.len() || i < 0 {
        Seq::empty()
    } else {
        pairs_with(cards, i, i + 1) + all_pairs(cards, i + 1)
    }
}

/// Pairs of cards with the same name or the same text.
pub fn detect_duplicates(cards: &Vec<Card>) -> (r: Vec<DuplicatePair>)
    ensures
        r@.map_values(|p: DuplicatePair| pair_view(p)) == all_pairs(cards@, 0),
{
    let mut pairs: Vec<DuplicatePair> = Vec::new();
    let mut i: usize = 0;
    while i < cards.len()
        invariant
            i <= cards@.len(),
            pairs@.map_values(|p: DuplicatePair| pair_view(p)) + all_pairs(cards@, i as int) == all_pairs(
                cards@,
                0,
            ),
        decreases cards@.len() - i,
    {
        let mut j: usize = i + 1;
        let ghost base = pairs@.map_values(|p: DuplicatePair| pair_view(p));
        while j < cards.len()
            invariant
                i < cards@.len(),
                i + 1 <= j <= cards@.len(),
                pairs@.map_values(|p: DuplicatePair| pair_view(p)) + pairs_with(cards@, i as int, j as int)
                    == base + pairs_with(cards@, i as int, i + 1),
            decreases cards@.len() - j,
        {
            let a = &cards[i];
            let b = &cards[j];
            let name_match = a.name == b.name;
            let text_match = a.text == b.text;
            let ghost p0 = pairs@.map_values(|p: DuplicatePair| pair_view(p));
            if name_match || text_match {
                let reason = if name_match && text_match {
                    owned("both")
                } else if name_match {
                    owned("name")
                } else {
                    owned("text_hash")
                };
                let p = DuplicatePair {
                    card_a_id: a.id.clone(),
                    card_a_name: a.name.clone(),
                    card_b_id: b.id.clone(),
                    card_b_name: b.name.clone(),
                    reason,
                };
                let ghost pv = pair_view(p);
                pairs.push(p);
                assert(pairs@.map_values(|p: DuplicatePair| pair_view(p)) =~= p0.push(pv));
            }
            assert(pairs@.map_values(|p: DuplicatePair| pair_view(p)) + pairs_with(cards@, i as int, j + 1)
                =~= p0 + pairs_with(cards@, i as int, j as int));
            j = j + 1;
        }
        assert(pairs_with(cards@, i as int, j as int) =~= Seq::<PairView>::empty());
        assert(pairs@.map_values(|p: DuplicatePair| pair_view(p)) + all_pairs(cards@, i + 1) =~= base
            + all_pairs(cards@, i as int));
        i = i + 1;
    }
    assert(all_pairs(cards@, i as int) =~= Seq::<PairView>::empty());
    assert(pairs@.map_values(|p: DuplicatePair| pair_view(p)) =~= all_pairs(cards@, 0));
    pairs
}

// ---------------------------------------------------------------------------
// Export and import
// ---------------------------------------------------------------------------

/// Meta data of an export.
#[derive(Debug, Clone)]
pub struct ExportMeta {
    pub exported_at: String,
    pub count: usize,
    pub source_version: String,
}

/// Whether `id` is one of `ids`.
pub open spec fn id_listed(ids: Seq<String>, id: Seq<char>) -> bool {
    exists|k: int| 0 <= k < ids.len() && ids[k]@ == id
}

/// The cards whose ids are listed, in store order.
pub open spec fn selected(cards: Seq<Card>, ids: Seq<String>) -> Seq<Card>
    decreases cards.len(),
{
    if cards.len() == 0 {
        cards
    } else if id_listed(ids, cards.last().id@) {
        selected(cards.drop_last(), ids).push(cards.last())
    } else {
        selected(cards.drop_last(), ids)
    }
}

fn id_listed_exec(ids: &[String], id: &String) -> (r: bool)
    ensures
        r == id_listed(ids@, id@),
{
    let mut k: usize = 0;
    while k < ids.len()
        invariant
            k <= ids@.len(),
            forall|m: int| 0 <= m < k ==> ids@[m]@ != id@,
        decreases ids@.len() - k,
    {
        if ids[k] == *id {
            return true;
        }
        k = k + 1;
    }
    false
}

/// The cards to export: those whose ids are listed, in store order; none
/// is an error.
pub fn select_for_export(cards: &Vec<Card>, ids: &[String]) -> (r: Result<Vec<Card>, String>)
    ensures
        selected(cards@, ids@).len() == 0 ==> (r matches Err(e) && e@ == "没有找到匹配 ID 的卡牌"@),
        selected(cards@, ids@).len() > 0 ==> (r matches Ok(v) && v@.len() == selected(cards@, ids@).len()
            && forall|k: int| 0 <= k < v@.len() ==> crate::parser::card_data::card_same(
            #[trigger] v@[k],
            selected(cards@, ids@)[k],
        )),
{
    let mut out: Vec<Card> = Vec::new();
    let mut i: usize = 0;
    while i < cards.len()
        invariant
            i <= cards@.len(),
            out@.len() == selected(cards@.subrange(0, i as int), ids@).len(),
            forall|k: int| 0 <= k < out@.len() ==> crate::parser::card_data::card_same(
                #[trigger] out@[k],
                selected(cards@.subrange(0, i as int), ids@)[k],
            ),
        decreases cards@.len() - i,
    {
        assert(cards@.subrange(0, i + 1).drop_last() =~= cards@.subrange(0, i as int));
        if id_listed_exec(ids, &cards[i].id) {
            out.push(cards[i].copy());
        }
        i = i + 1;
    }
    assert(cards@.subrange(0, cards@.len() as int) =~= cards@);
    if out.len() == 0 {
        return Err(owned("没有找到匹配 ID 的卡牌"));
    }
    Ok(out)
}

/// What an import did.
#[derive(Debug, Clone)]
pub struct ImportResult {
    pub imported: usize,
    pub skipped: usize,
    pub skipped_details: Vec<String>,
    pub total_after: usize,
}

/// Whether a card with id `id` is in `cards`.
pub open spec fn has_id(cards: Seq<Card>, id: Seq<char>) -> bool {
    exists|k: int| 0 <= k < cards.len() && cards[k].id@ == id
}

/// The incoming cards whose ids the store did not hold before the import.
pub open spec fn fresh_cards(store: Seq<Card>, incoming: Seq<Card>) -> Seq<Card>
    decreases incoming.len(),
{
    if incoming.len() == 0 {
        incoming
    } else if has_id(store, incoming.last().id@) {
        fresh_cards(store, incoming.drop_last())
    } else {
        fresh_cards(store, incoming.drop_last()).push(incoming.last())
    }
}

/// Lines about the skipped cards: "<id> (<name>) — ID 已存在".
pub open spec fn skip_lines(store: Seq<Card>, incoming: Seq<Card>) -> Seq<Seq<char>>
    decreases incoming.len(),
{
    if incoming.len() == 0 {
        Seq::empty()
    } else if has_id(store, incoming.last().id@) {
        skip_lines(store, incoming.drop_last()).push(
            incoming.last().id@ + " ("@ + incoming.last().name@ + ") — ID 已存在"@,
        )
    } else {
        skip_lines(store, incoming.drop_last())
    }
}

/// Adds the incoming cards whose ids the store does not hold yet (ids taken
/// from the store as it was before), in order, and reports the others.
pub fn merge_cards(store: &mut Vec<Card>, incoming: Vec<Card>) -> (r: ImportResult)
    requires
        old(store)@.len() + incoming@.len() <= usize::MAX,
    ensures
        final(store)@ == old(store)@ + fresh_cards(old(store)@, incoming@),
        r.imported == fresh_cards(old(store)@, incoming@).len(),
        r.skipped == incoming@.len() - r.imported,
        crate::parser::card_text::strings_view(r.skipped_details@) == skip_lines(old(store)@, incoming@),
        r.total_after == final(store)@.len(),
{
    let ghost s0 = store@;
    let n0 = store.len();
    let mut existing: Vec<String> = Vec::new();
    let mut q: usize = 0;
    while q < store.len()
        invariant
            q <= store@.len(),
            store@ == s0,
            existing@.len() == q,
            forall|k: int| 0 <= k < q ==> existing@[k]@ == s0[k].id@,
        decreases store@.len() - q,
    {
        existing.push(store[q].id.clone());
        q = q + 1;
    }
    let mut imported: usize = 0;
    let mut skipped: usize = 0;
    let mut details: Vec<String> = Vec::new();
    let mut incoming = incoming;
    let ghost inc = incoming@;
    let mut i: usize = 0;
    while incoming.len() > 0
        invariant
            i <= inc.len(),
            incoming@ == inc.subrange(i as int, inc.len() as int),
            n0 == s0.len(),
            n0 + inc.len() <= usize::MAX,
            existing@.len() == s0.len(),
            forall|k: int| 0 <= k < s0.len() ==> existing@[k]@ == s0[k].id@,
            store@ == s0 + fresh_cards(s0, inc.subrange(0, i as int)),
            imported == fresh_cards(s0, inc.subrange(0, i as int)).len(),
            imported <= i,
            skipped == i - imported,
            crate::parser::card_text::strings_view(details@) == skip_lines(s0, inc.subrange(0, i as int)),
        decreases incoming@.len(),
    {
        assert(inc.subrange(0, i + 1).drop_last() =~= inc.subrange(0, i as int));
        assert(incoming@[0] == inc[i as int]);
        let c = incoming.remove(0);
        assert(incoming@ =~= inc.subrange(i + 1, inc.len() as int));
        let known = id_listed_exec(existing.as_slice(), &c.id);
        proof {
            if id_listed(existing@, inc[i as int].id@) {
                let k = choose|k: int| 0 <= k < existing@.len() && existing@[k]@ == inc[i as int].id@;
                assert(s0[k].id@ == inc[i as int].id@);
            }
            if has_id(s0, inc[i as int].id@) {
                let k = choose|k: int| 0 <= k < s0.len() && s0[k].id@ == inc[i as int].id@;
                assert(existing@[k]@ == inc[i as int].id@);
            }
        }
        if known {
            skipped = skipped + 1;
            let mut d = c.id.clone();
            crate::text::append_str(&mut d, " (");
            crate::text::append_str(&mut d, c.name.as_str());
            crate::text::append_str(&mut d, ") — ID 已存在");
            let ghost d0 = crate::parser::card_text::strings_view(details@);
            let ghost dv = d@;
            details.push(d);
            assert(crate::parser::card_text::strings_view(details@) =~= d0.push(dv));
        } else {
            store.push(c);
            assert(store@ =~= s0 + fresh_cards(s0, inc.subrange(0, i + 1)));
            imported = imported + 1;
        }
        i = i + 1;
    }
    assert(inc.subrange(0, inc.len() as int) =~= inc);
    ImportResult { imported, skipped, skipped_details: details, total_after: store.len() }
}

} // verus!
