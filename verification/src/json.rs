//! JSON values.

use vstd::prelude::*;

use crate::text::same;

verus! {

/// A JSON value. An object lists its fields; of two fields with one name the later counts.
pub enum Json {
    Null,
    Bool(bool),
    Num(serde_json::Number),
    Str(String),
    Arr(Vec<Json>),
    Obj(Vec<(String, Json)>),
}

/// `serde_json::Number`: an unsigned integer, a negative integer or a float.
#[verifier::external_type_specification]
#[verifier::external_body]
pub struct ExNumber(serde_json::Number);

/// What a number holds.
pub uninterp spec fn number_view(n: serde_json::Number) -> NumberView;

/// `Number::as_u64` gives the integer where the number is one from zero on.
pub assume_specification[ serde_json::Number::as_u64 ](n: &serde_json::Number) -> (r: Option<u64>)
    ensures
        r == number_view(*n).uint(),
;

/// `Number::as_i64` gives the integer where the number is one that an `i64` can hold.
pub assume_specification[ serde_json::Number::as_i64 ](n: &serde_json::Number) -> (r: Option<i64>)
    ensures
        r == number_view(*n).sint(),
;

/// `Clone` of `serde_json::Number` gives an equal number.
pub assume_specification[ <serde_json::Number as Clone>::clone ](n: &serde_json::Number) -> (r:
    serde_json::Number)
    ensures
        r == *n,
;

/// `Number::from` of an unsigned integer holds that integer.
#[verifier::external_body]
fn number_from(n: u64) -> (r: serde_json::Number)
    ensures
        number_view(r) == NumberView::UInt(n),
{
    serde_json::Number::from(n)
}

/// What a number says. A float is carried through unread.
pub enum NumberView {
    UInt(u64),
    NegInt(i64),
    Float(serde_json::Number),
}

impl NumberView {
    pub open spec fn uint(self) -> Option<u64> {
        match self {
            NumberView::UInt(n) => Some(n),
            _ => None,
        }
    }

    pub open spec fn sint(self) -> Option<i64> {
        match self {
            NumberView::UInt(n) => if n <= i64::MAX {
                Some(n as i64)
            } else {
                None
            },
            NumberView::NegInt(n) => Some(n),
            _ => None,
        }
    }
}

/// What a JSON value says.
#[verifier::ext_equal]
pub enum JsonView {
    Null,
    Bool(bool),
    Num(NumberView),
    Str(Seq<char>),
    Arr(Seq<JsonView>),
    Obj(Map<Seq<char>, JsonView>),
}

impl JsonView {
    /// The field `key` of an object; nothing else has fields.
    pub open spec fn field(self, key: Seq<char>) -> Option<JsonView> {
        match self {
            JsonView::Obj(m) => if m.contains_key(key) {
                Some(m[key])
            } else {
                None
            },
            _ => None,
        }
    }

    pub open spec fn text(self) -> Option<Seq<char>> {
        match self {
            JsonView::Str(s) => Some(s),
            _ => None,
        }
    }

    pub open spec fn uint(self) -> Option<u64> {
        match self {
            JsonView::Num(n) => n.uint(),
            _ => None,
        }
    }

    pub open spec fn sint(self) -> Option<i64> {
        match self {
            JsonView::Num(n) => n.sint(),
            _ => None,
        }
    }

    pub open spec fn boolean(self) -> Option<bool> {
        match self {
            JsonView::Bool(b) => Some(b),
            _ => None,
        }
    }

    pub open spec fn items(self) -> Option<Seq<JsonView>> {
        match self {
            JsonView::Arr(s) => Some(s),
            _ => None,
        }
    }

    pub open spec fn fields(self) -> Option<Map<Seq<char>, JsonView>> {
        match self {
            JsonView::Obj(m) => Some(m),
            _ => None,
        }
    }

    /// The value with one more field set.
    pub open spec fn with(self, key: Seq<char>, value: JsonView) -> JsonView {
        match self {
            JsonView::Obj(m) => JsonView::Obj(m.insert(key, value)),
            _ => self,
        }
    }
}

/// The field that a path of two names leads to.
pub open spec fn field2(j: JsonView, a: Seq<char>, b: Seq<char>) -> Option<JsonView> {
    match j.field(a) {
        Some(x) => x.field(b),
        None => None,
    }
}

/// The field that a path of three names leads to.
pub open spec fn field3(j: JsonView, a: Seq<char>, b: Seq<char>, c: Seq<char>) -> Option<JsonView> {
    match field2(j, a, b) {
        Some(x) => x.field(c),
        None => None,
    }
}

/// The text that an optional value is.
pub open spec fn text_of(j: Option<JsonView>) -> Option<Seq<char>> {
    match j {
        Some(x) => x.text(),
        None => None,
    }
}

/// The number `n`.
pub open spec fn uint_json(n: u64) -> JsonView {
    JsonView::Num(NumberView::UInt(n))
}

/// The object without fields.
pub open spec fn no_fields() -> JsonView {
    JsonView::Obj(Map::empty())
}

/// The array with the one item `j`.
pub open spec fn one_item(j: JsonView) -> JsonView {
    JsonView::Arr(seq![j])
}

impl Json {
    pub open spec fn jv(self) -> JsonView
        decreases self,
    {
        match self {
            Json::Null => JsonView::Null,
            Json::Bool(b) => JsonView::Bool(b),
            Json::Num(n) => JsonView::Num(number_view(n)),
            Json::Str(s) => JsonView::Str(s@),
            Json::Arr(v) => JsonView::Arr(items_view(v@)),
            Json::Obj(v) => JsonView::Obj(fields_view(v@)),
        }
    }
}

pub open spec fn items_view(v: Seq<Json>) -> Seq<JsonView>
    decreases v,
{
    Seq::new(
        v.len(),
        |i: int|
            if 0 <= i < v.len() {
                v[i].jv()
            } else {
                JsonView::Null
            },
    )
}

pub open spec fn fields_view(v: Seq<(String, Json)>) -> Map<Seq<char>, JsonView>
    decreases v,
{
    if v.len() == 0 {
        Map::empty()
    } else {
        fields_view(v.drop_last()).insert(v.last().0@, v.last().1.jv())
    }
}

impl Json {
    /// An object without fields.
    pub fn object() -> (r: Json)
        ensures
            r.jv() == no_fields(),
            r is Obj,
    {
        let v: Vec<(String, Json)> = Vec::new();
        assert(fields_view(v@) =~= Map::empty());
        Json::Obj(v)
    }

    /// The object with the field `key` set to `value`.
    pub fn with(self, key: &str, value: Json) -> (r: Json)
        ensures
            r.jv() == self.jv().with(key@, value.jv()),
    {
        match self {
            Json::Obj(fields) => {
                let mut fields = fields;
                let ghost before = fields@;
                fields.push((key.to_owned(), value));
                assert(fields@.drop_last() == before);
                Json::Obj(fields)
            },
            other => other,
        }
    }

    pub fn uint(n: u64) -> (r: Json)
        ensures
            r.jv() == uint_json(n),
    {
        Json::Num(number_from(n))
    }

    pub fn text(s: &str) -> (r: Json)
        ensures
            r.jv() == JsonView::Str(s@),
    {
        Json::Str(s.to_owned())
    }

    /// The text, or null where there is none.
    pub fn text_or_null(s: &Option<String>) -> (r: Json)
        ensures
            r.jv() == text_or_null(crate::text::opt(*s)),
    {
        match s {
            Some(s) => Json::Str(s.clone()),
            None => Json::Null,
        }
    }

    /// The array with the one item `item`.
    pub fn singleton(item: Json) -> (r: Json)
        ensures
            r.jv() == one_item(item.jv()),
    {
        let mut v: Vec<Json> = Vec::new();
        v.push(item);
        assert(items_view(v@) =~= seq![item.jv()]);
        Json::Arr(v)
    }

    /// The field `key` of an object.
    pub fn get(&self, key: &str) -> (r: Option<&Json>)
        ensures
            match r {
                Some(j) => self.jv().field(key@) == Some(j.jv()),
                None => self.jv().field(key@) is None,
            },
    {
        match self {
            Json::Obj(fields) => {
                let mut i: usize = fields.len();
                assert(fields@.take(i as int) == fields@);
                while i > 0
                    invariant
                        i <= fields.len(),
                        self.jv() == JsonView::Obj(fields_view(fields@)),
                        fields_view(fields@).contains_key(key@) == fields_view(
                            fields@.take(i as int),
                        ).contains_key(key@),
                        fields_view(fields@).contains_key(key@) ==> fields_view(fields@)[key@]
                            == fields_view(fields@.take(i as int))[key@],
                    decreases i,
                {
                    proof {
                        assert(fields@.take(i as int).drop_last() == fields@.take(i - 1));
                        assert(fields@.take(i as int).last() == fields@[i - 1]);
                    }
                    if same(fields[i - 1].0.as_str(), key) {
                        return Some(&fields[i - 1].1);
                    }
                    i -= 1;
                }
                None
            },
            _ => None,
        }
    }

    pub fn as_str(&self) -> (r: Option<&str>)
        ensures
            crate::text::opt_str(r) == self.jv().text(),
    {
        match self {
            Json::Str(s) => Some(s.as_str()),
            _ => None,
        }
    }

    pub fn as_u64(&self) -> (r: Option<u64>)
        ensures
            r == self.jv().uint(),
    {
        match self {
            Json::Num(n) => n.as_u64(),
            _ => None,
        }
    }

    pub fn as_i64(&self) -> (r: Option<i64>)
        ensures
            r == self.jv().sint(),
    {
        match self {
            Json::Num(n) => n.as_i64(),
            _ => None,
        }
    }

    pub fn as_bool(&self) -> (r: Option<bool>)
        ensures
            r == self.jv().boolean(),
    {
        match self {
            Json::Bool(b) => Some(*b),
            _ => None,
        }
    }

    pub fn as_array(&self) -> (r: Option<&Vec<Json>>)
        ensures
            match r {
                Some(v) => self.jv().items() == Some(items_view(v@)),
                None => self.jv().items() is None,
            },
    {
        match self {
            Json::Arr(v) => Some(v),
            _ => None,
        }
    }

    /// A copy.
    pub fn duplicate(&self) -> (r: Json)
        ensures
            r.jv() == self.jv(),
        decreases self,
    {
        match self {
            Json::Null => Json::Null,
            Json::Bool(b) => Json::Bool(*b),
            Json::Num(n) => Json::Num(n.clone()),
            Json::Str(s) => Json::Str(s.clone()),
            Json::Arr(v) => {
                let mut out: Vec<Json> = Vec::new();
                let mut i: usize = 0;
                while i < v.len()
                    invariant
                        i <= v.len(),
                        *self == Json::Arr(*v),
                        items_view(out@) == items_view(v@).take(i as int),
                    decreases v.len() - i,
                {
                    let ghost before = out@;
                    proof {
                        assert(decreases_to!(*self => self->Arr_0));
                        assert(decreases_to!(*v => v@));
                        assert(decreases_to!(v@ => v@[i as int]));
                    }
                    let item = v[i].duplicate();
                    out.push(item);
                    assert(items_view(out@) =~= items_view(before).push(item.jv()));
                    assert(items_view(v@).take(i + 1) =~= items_view(v@).take(i as int).push(
                        items_view(v@)[i as int],
                    ));
                    i += 1;
                }
                assert(items_view(v@).take(i as int) =~= items_view(v@));
                Json::Arr(out)
            },
            Json::Obj(v) => {
                let mut out: Vec<(String, Json)> = Vec::new();
                let mut i: usize = 0;
                while i < v.len()
                    invariant
                        i <= v.len(),
                        *self == Json::Obj(*v),
                        fields_view(out@) == fields_view(v@.take(i as int)),
                    decreases v.len() - i,
                {
                    let ghost before = out@;
                    proof {
                        assert(decreases_to!(*self => self->Obj_0));
                        assert(decreases_to!(*v => v@));
                        assert(decreases_to!(v@ => v@[i as int]));
                        assert(decreases_to!(v@[i as int] => v@[i as int].1));
                    }
                    let item = v[i].1.duplicate();
                    out.push((v[i].0.clone(), item));
                    assert(out@.drop_last() == before);
                    assert(v@.take(i + 1).drop_last() == v@.take(i as int));
                    i += 1;
                }
                assert(v@.take(i as int) == v@);
                Json::Obj(out)
            },
        }
    }
}

/// The text, or null where there is none.
pub open spec fn text_or_null(s: Option<Seq<char>>) -> JsonView {
    match s {
        Some(s) => JsonView::Str(s),
        None => JsonView::Null,
    }
}

/// A field that is set is there with its value, and every other field is as it was. Only an
/// object has fields.
pub proof fn fields_are_set_one_by_one(
    fields: Map<Seq<char>, JsonView>,
    key: Seq<char>,
    value: JsonView,
    other: Seq<char>,
)
    ensures
        JsonView::Obj(fields).with(key, value).field(key) == Some(value),
        other != key ==> JsonView::Obj(fields).with(key, value).field(other) == JsonView::Obj(
            fields,
        ).field(other),
        JsonView::Obj(fields).field(key) is Some <==> fields.contains_key(key),
        fields.contains_key(key) ==> JsonView::Obj(fields).field(key) == Some(fields[key]),
        no_fields().field(key) is None,
{
}

/// What is no object has no fields, and setting one leaves it as it is.
pub proof fn only_objects_have_fields(j: JsonView, key: Seq<char>, value: JsonView)
    requires
        !(j is Obj),
    ensures
        j.field(key) is None,
        j.with(key, value) == j,
        j.fields() is None,
{
}

/// A value is read as what it is, and as nothing else.
pub proof fn values_are_read_as_what_they_are(j: JsonView)
    ensures
        j.text() matches Some(s) ==> j == JsonView::Str(s),
        j is Str <==> j.text() is Some,
        j.boolean() matches Some(b) ==> j == JsonView::Bool(b),
        j is Bool <==> j.boolean() is Some,
        j.items() matches Some(s) ==> j == JsonView::Arr(s),
        j is Arr <==> j.items() is Some,
        j.fields() matches Some(m) ==> j == JsonView::Obj(m),
        j is Obj <==> j.fields() is Some,
        j.uint() matches Some(n) ==> j == JsonView::Num(NumberView::UInt(n)),
        j.sint() matches Some(n) ==> (n >= 0 && j == JsonView::Num(NumberView::UInt(n as u64)))
            || j == JsonView::Num(NumberView::NegInt(n)),
        text_of(Some(j)) == j.text(),
        text_of(None) is None,
{
}

/// A whole number from zero on is read as it is, and as a signed one where that can hold it. A
/// negative one is read as a signed one alone, and a float as neither.
pub proof fn numbers_are_read_as_what_they_are(n: u64, m: i64, f: serde_json::Number)
    ensures
        uint_json(n).uint() == Some(n),
        n <= 0x7fff_ffff_ffff_ffff ==> uint_json(n).sint() == Some(n as i64),
        n > 0x7fff_ffff_ffff_ffff ==> uint_json(n).sint() is None,
        JsonView::Num(NumberView::NegInt(m)).sint() == Some(m),
        JsonView::Num(NumberView::NegInt(m)).uint() is None,
        JsonView::Num(NumberView::Float(f)).uint() is None,
        JsonView::Num(NumberView::Float(f)).sint() is None,
{
}

/// A path leads from field to field, and nowhere once a field is missing.
pub proof fn paths_lead_from_field_to_field(
    j: JsonView,
    a: Seq<char>,
    b: Seq<char>,
    c: Seq<char>,
)
    ensures
        j.field(a) is None ==> field2(j, a, b) is None && field3(j, a, b, c) is None,
        j.field(a) matches Some(x) ==> field2(j, a, b) == x.field(b),
        j.field(a) matches Some(x) ==> (x.field(b) is None ==> field3(j, a, b, c) is None),
        j.field(a) matches Some(x) ==> (x.field(b) matches Some(y) ==> field3(j, a, b, c)
            == y.field(c)),
{
}

/// A value says what it holds; the items of an array keep their order, and of two fields with
/// one name the later counts.
pub proof fn values_say_what_they_hold(
    items: Seq<Json>,
    fields: Seq<(String, Json)>,
    name: String,
    value: Json,
    other: Seq<char>,
    b: bool,
)
    ensures
        Json::Null.jv() == JsonView::Null,
        Json::Bool(b).jv() == JsonView::Bool(b),
        Json::Str(name).jv() == JsonView::Str(name@),
        items_view(items).len() == items.len(),
        forall|i: int| 0 <= i < items.len() ==> #[trigger] items_view(items)[i] == items[i].jv(),
        fields_view(Seq::<(String, Json)>::empty()) == Map::<Seq<char>, JsonView>::empty(),
        fields_view(fields.push((name, value))).contains_key(name@),
        fields_view(fields.push((name, value)))[name@] == value.jv(),
        other != name@ ==> (fields_view(fields.push((name, value))).contains_key(other)
            <==> fields_view(fields).contains_key(other)),
        other != name@ && fields_view(fields).contains_key(other) ==> fields_view(
            fields.push((name, value)),
        )[other] == fields_view(fields)[other],
{
    assert(fields.push((name, value)).drop_last() =~= fields);
}

/// A text that is missing is written as null, and an array of one item holds that item.
pub proof fn missing_texts_are_null(s: Seq<char>, j: JsonView)
    ensures
        text_or_null(Some(s)) == JsonView::Str(s),
        text_or_null(None) == JsonView::Null,
        one_item(j).items() == Some(seq![j]),
        no_fields().fields() == Some(Map::<Seq<char>, JsonView>::empty()),
{
}

} // verus!
