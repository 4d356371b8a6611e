//! JSON values written as text and read back, by `serde_json`.

use vstd::prelude::*;

use crate::json::{fields_view, items_view, number_view, Json, JsonView, NumberView};

verus! {

/// `serde_json::Value`.
#[verifier::external_type_specification]
#[verifier::external_body]
pub struct ExValue(serde_json::Value);

/// What a `serde_json::Value` holds.
pub uninterp spec fn value_json(v: serde_json::Value) -> JsonView;

/// The top of a value: what it is itself, with the values below it unopened.
pub enum Node {
    Null,
    Bool(bool),
    Num(serde_json::Number),
    Text(String),
    List(Vec<serde_json::Value>),
    Fields(Vec<(String, serde_json::Value)>),
}

pub open spec fn value_items(v: Seq<serde_json::Value>) -> Seq<JsonView> {
    v.map_values(|x: serde_json::Value| value_json(x))
}

pub open spec fn value_fields(v: Seq<(String, serde_json::Value)>) -> Map<Seq<char>, JsonView>
    decreases v.len(),
{
    if v.len() == 0 {
        Map::empty()
    } else {
        value_fields(v.drop_last()).insert(v.last().0@, value_json(v.last().1))
    }
}

pub open spec fn node_json(n: Node) -> JsonView {
    match n {
        Node::Null => JsonView::Null,
        Node::Bool(b) => JsonView::Bool(b),
        Node::Num(n) => JsonView::Num(number_view(n)),
        Node::Text(s) => JsonView::Str(s@),
        Node::List(v) => JsonView::Arr(value_items(v@)),
        Node::Fields(v) => JsonView::Obj(value_fields(v@)),
    }
}

/// The name of a field by which `serde_json` marks text to be read as a value, where its
/// feature `raw_value` is on: an object that begins with this field is read as what the text
/// of the field holds.
pub const RAW_VALUE: &'static str = "$serde_json::private::RawValue";

/// No more than `depth` arrays and objects stand one inside the other, no number is a float,
/// and no field is named `RAW_VALUE`.
pub open spec fn exact_within(j: JsonView, depth: nat) -> bool
    decreases depth,
{
    match j {
        JsonView::Num(NumberView::Float(_)) => false,
        JsonView::Arr(s) => depth > 0 && forall|i: int|
            0 <= i < s.len() ==> exact_within(#[trigger] s[i], (depth - 1) as nat),
        JsonView::Obj(m) => depth > 0 && !m.contains_key(RAW_VALUE@) && forall|k: Seq<char>|
            m.contains_key(k) ==> exact_within(#[trigger] m[k], (depth - 1) as nat),
        _ => true,
    }
}

/// The number of arrays and objects, one inside the other, that `serde_json` reads.
pub const MAX_DEPTH: usize = 127;

/// The value that `serde_json::from_str` reads in a text, if it reads one.
pub uninterp spec fn parsed_text(s: Seq<char>) -> Option<JsonView>;

/// The text that `serde_json::to_string` writes for a value.
pub uninterp spec fn printed_text(j: JsonView) -> Seq<char>;

/// No two fields have one name.
pub open spec fn distinct_names(v: Seq<(String, serde_json::Value)>) -> bool {
    forall|i: int, k: int| 0 <= i < k < v.len() ==> (#[trigger] v[i]).0@ != (#[trigger] v[k]).0@
}

/// A `serde_json::Value` taken apart at its top: the variants of `Value` and what each holds.
/// The fields of a `serde_json::Map` have different names.
#[verifier::external_body]
fn open_value(v: serde_json::Value) -> (n: Node)
    ensures
        node_json(n) == value_json(v),
        n matches Node::Fields(fields) ==> distinct_names(fields@),
{
    match v {
        serde_json::Value::Null => Node::Null,
        serde_json::Value::Bool(b) => Node::Bool(b),
        serde_json::Value::Number(n) => Node::Num(n),
        serde_json::Value::String(s) => Node::Text(s),
        serde_json::Value::Array(items) => Node::List(items),
        serde_json::Value::Object(fields) => Node::Fields(fields.into_iter().collect()),
    }
}

/// A `serde_json::Value` put together: `Value`'s variants, and for an object
/// `serde_json::Map` collected from its fields, of which the last of one name stays.
#[verifier::external_body]
fn close_value(n: Node) -> (v: serde_json::Value)
    ensures
        value_json(v) == node_json(n),
{
    match n {
        Node::Null => serde_json::Value::Null,
        Node::Bool(b) => serde_json::Value::Bool(b),
        Node::Num(n) => serde_json::Value::Number(n),
        Node::Text(s) => serde_json::Value::String(s),
        Node::List(items) => serde_json::Value::Array(items),
        Node::Fields(fields) => serde_json::Value::Object(fields.into_iter().collect()),
    }
}

/// `serde_json::from_str` into a `Value`: a function of the text.
#[verifier::external_body]
fn parse_value(s: &str) -> (r: Option<serde_json::Value>)
    ensures
        match r {
            Some(v) => parsed_text(s@) == Some(value_json(v)),
            None => parsed_text(s@) is None,
        },
{
    serde_json::from_str::<serde_json::Value>(s).ok()
}

/// `Value`'s `to_string`, which writes the compact text of `serde_json::to_string`. A text
/// written for a value without floats, not nested too deeply, and without a field that marks
/// text to be read as a value, reads as that value.
#[verifier::external_body]
fn print_value(v: &serde_json::Value) -> (r: String)
    ensures
        r@ == printed_text(value_json(*v)),
        exact_within(value_json(*v), MAX_DEPTH as nat) ==> parsed_text(r@) == Some(value_json(*v)),
{
    v.to_string()
}

/// The text that `serde_json::to_string_pretty` writes for a value, where it writes one.
pub uninterp spec fn pretty_text(j: JsonView) -> Option<Seq<char>>;

/// `serde_json::to_string_pretty` of a `Value`: a function of the value.
#[verifier::external_body]
fn print_value_pretty(v: &serde_json::Value) -> (r: Option<String>)
    ensures
        crate::text::opt(r) == pretty_text(value_json(*v)),
{
    serde_json::to_string_pretty(v).ok()
}

/// The library's form of a value.
fn from_value(v: serde_json::Value) -> (r: Json)
    ensures
        r.jv() == value_json(v),
    decreases value_json(v),
{
    let ghost top = value_json(v);
    match open_value(v) {
        Node::Null => Json::Null,
        Node::Bool(b) => Json::Bool(b),
        Node::Num(n) => Json::Num(n),
        Node::Text(s) => Json::Str(s),
        Node::List(values) => {
            let ghost all = values@;
            let mut items: Vec<Json> = Vec::new();
            for item_value in it: values
                invariant
                    it.seq() == all,
                    top == JsonView::Arr(value_items(all)),
                    top == value_json(v),
                    items_view(items@) == value_items(all).take(it.index() as int),
            {
                let ghost before = items@;
                let ghost i = it.index() as int;
                proof {
                    assert(value_items(all)[i] == value_json(item_value));
                    assert(decreases_to!(top => top->Arr_0));
                    assert(decreases_to!(top->Arr_0 => top->Arr_0[i]));
                }
                let item = from_value(item_value);
                items.push(item);
                assert(items_view(items@) =~= items_view(before).push(item.jv()));
                assert(value_items(all).take(i + 1) =~= value_items(all).take(i).push(
                    value_json(item_value),
                ));
            }
            assert(value_items(all).take(all.len() as int) =~= value_items(all));
            Json::Arr(items)
        },
        Node::Fields(values) => {
            let ghost all = values@;
            let mut fields: Vec<(String, Json)> = Vec::new();
            for pair in it: values
                invariant
                    it.seq() == all,
                    distinct_names(all),
                    top == JsonView::Obj(value_fields(all)),
                    top == value_json(v),
                    fields_view(fields@) == value_fields(all.take(it.index() as int)),
            {
                let ghost before = fields@;
                let ghost i = it.index() as int;
                assert(pair == all[i]);
                proof {
                    lemma_value_fields(all, i);
                    lemma_finite_fields(all);
                    assert(decreases_to!(top => top->Obj_0));
                    assert(decreases_to!(top->Obj_0 => top->Obj_0[all[i].0@]));
                }
                let (name, field) = pair;
                let item = from_value(field);
                fields.push((name, item));
                assert(fields@.drop_last() == before);
                assert(all.take(i + 1).drop_last() == all.take(i));
            }
            assert(all.take(all.len() as int) == all);
            Json::Obj(fields)
        },
    }
}

/// `serde_json`'s form of a value.
fn to_value(j: &Json) -> (r: serde_json::Value)
    ensures
        value_json(r) == j.jv(),
    decreases j,
{
    match j {
        Json::Null => close_value(Node::Null),
        Json::Bool(b) => close_value(Node::Bool(*b)),
        Json::Num(n) => close_value(Node::Num(n.clone())),
        Json::Str(s) => close_value(Node::Text(s.clone())),
        Json::Arr(v) => {
            let mut out: Vec<serde_json::Value> = Vec::new();
            let mut i: usize = 0;
            while i < v.len()
                invariant
                    i <= v.len(),
                    *j == Json::Arr(*v),
                    value_items(out@) == items_view(v@).take(i as int),
                decreases v.len() - i,
            {
                let ghost before = out@;
                proof {
                    assert(decreases_to!(*j => j->Arr_0));
                    assert(decreases_to!(*v => v@));
                    assert(decreases_to!(v@ => v@[i as int]));
                }
                let item = to_value(&v[i]);
                out.push(item);
                assert(value_items(out@) =~= value_items(before).push(value_json(item)));
                assert(items_view(v@).take(i + 1) =~= items_view(v@).take(i as int).push(
                    items_view(v@)[i as int],
                ));
                i += 1;
            }
            assert(items_view(v@).take(i as int) =~= items_view(v@));
            close_value(Node::List(out))
        },
        Json::Obj(v) => {
            let mut out: Vec<(String, serde_json::Value)> = Vec::new();
            let mut i: usize = 0;
            while i < v.len()
                invariant
                    i <= v.len(),
                    *j == Json::Obj(*v),
                    value_fields(out@) == fields_view(v@.take(i as int)),
                decreases v.len() - i,
            {
                let ghost before = out@;
                proof {
                    assert(decreases_to!(*j => j->Obj_0));
                    assert(decreases_to!(*v => v@));
                    assert(decreases_to!(v@ => v@[i as int]));
                    assert(decreases_to!(v@[i as int] => v@[i as int].1));
                }
                let item = to_value(&v[i].1);
                out.push((v[i].0.clone(), item));
                assert(out@.drop_last() == before);
                assert(v@.take(i + 1).drop_last() == v@.take(i as int));
                i += 1;
            }
            assert(v@.take(i as int) == v@);
            close_value(Node::Fields(out))
        },
    }
}

/// The value that a text holds.
pub fn parse(s: &str) -> (r: Option<Json>)
    ensures
        match r {
            Some(j) => parsed_text(s@) == Some(j.jv()),
            None => parsed_text(s@) is None,
        },
{
    match parse_value(s) {
        Some(v) => Some(from_value(v)),
        None => None,
    }
}

/// The text of a value. It reads back as the value, where no float, no deep nesting and no
/// field named `RAW_VALUE` stands against that.
pub fn print(j: &Json) -> (r: String)
    ensures
        r@ == printed_text(j.jv()),
        exact_within(j.jv(), MAX_DEPTH as nat) ==> parsed_text(r@) == Some(j.jv()),
{
    print_value(&to_value(j))
}

/// The text of a value on several lines, where one can be written.
pub fn print_pretty(j: &Json) -> (r: Option<String>)
    ensures
        crate::text::opt(r) == pretty_text(j.jv()),
{
    print_value_pretty(&to_value(j))
}

proof fn lemma_finite_fields(v: Seq<(String, serde_json::Value)>)
    ensures
        value_fields(v).dom().finite(),
    decreases v.len(),
{
    if v.len() > 0 {
        lemma_finite_fields(v.drop_last());
    }
}

proof fn lemma_value_fields(v: Seq<(String, serde_json::Value)>, i: int)
    requires
        0 <= i < v.len(),
        distinct_names(v),
    ensures
        value_fields(v).contains_key(v[i].0@),
        value_fields(v)[v[i].0@] == value_json(v[i].1),
    decreases v.len(),
{
    if i < v.len() - 1 {
        lemma_value_fields(v.drop_last(), i);
        assert(v.drop_last()[i] == v[i]);
        assert(v[v.len() - 1] == v.last());
    }
}

/// A value without floats, arrays and objects reads back at every depth; an array does where its
/// items do one level further down, and an object where its fields do and none marks text to be
/// read as a value.
pub proof fn values_without_floats_are_exact(
    items: Seq<JsonView>,
    fields: Map<Seq<char>, JsonView>,
    n: u64,
    m: i64,
    s: Seq<char>,
    b: bool,
    depth: nat,
)
    ensures
        exact_within(JsonView::Null, depth),
        exact_within(JsonView::Bool(b), depth),
        exact_within(JsonView::Str(s), depth),
        exact_within(JsonView::Num(NumberView::UInt(n)), depth),
        exact_within(JsonView::Num(NumberView::NegInt(m)), depth),
        !exact_within(JsonView::Arr(items), 0),
        !exact_within(JsonView::Obj(fields), 0),
        exact_within(JsonView::Arr(items), depth) <==> depth >= 1 && forall|i: int|
            0 <= i < items.len() ==> exact_within(#[trigger] items[i], (depth - 1) as nat),
        exact_within(JsonView::Obj(fields), depth) <==> depth >= 1 && !fields.contains_key(
            "$serde_json::private::RawValue"@,
        ) && forall|k: Seq<char>|
            fields.contains_key(k) ==> exact_within(#[trigger] fields[k], (depth - 1) as nat),
        MAX_DEPTH == 127,
{
    let a = JsonView::Arr(items);
    if exact_within(a, depth) {
        assert forall|i: int| 0 <= i < items.len() implies exact_within(
            #[trigger] items[i],
            (depth - 1) as nat,
        ) by {
            assert(exact_within(a->Arr_0[i], (depth - 1) as nat));
        }
    } else if depth >= 1 {
        let s = a->Arr_0;
        assert(!(forall|i: int|
            0 <= i < s.len() ==> exact_within(#[trigger] s[i], (depth - 1) as nat)));
    }
}

} // verus!
