//! JSON values as the gateway's logic reads and builds them.
//!
//! Bytes are read into this plain tree and the tree is printed back, both through `serde_json`.
use crate::text::{same, texts, utf8_of};
use bytes::Buf;
use serde_json::Value;
use vstd::prelude::*;
use vstd::string::*;
use vstd::utf8::encode_utf8;

verus! {

/// How the HTTP client words it that a response's body does not read as JSON.
pub const UNREADABLE_BODY: &'static str = "error decoding response body";

/// A value of `serde_json`: opaque here.
#[verifier::external_type_specification]
#[verifier::external_body]
pub struct ExJsonValue(serde_json::Value);

/// What bytes hold as JSON, or what is wrong with them. A whole number is kept as such; any other number
/// is kept by the bits of its 64-bit form.
pub uninterp spec fn json_read(bytes: Seq<u8>) -> Result<JsonModel, Seq<char>>;

/// What a value of `serde_json` holds.
pub uninterp spec fn held_by(value: serde_json::Value) -> JsonModel;

/// The value of `serde_json` that holds this.
pub uninterp spec fn value_of(model: JsonModel) -> serde_json::Value;

/// The compact text of a value of `serde_json`.
pub uninterp spec fn value_text(value: serde_json::Value) -> Seq<char>;

/// `serde_json::from_slice`: the value that bytes hold, or its error's own text.
#[verifier::external_body]
fn parsed_value(bytes: &[u8]) -> (r: Result<Value, String>)
    ensures
        match json_read(bytes@) {
            Ok(m) => r matches Ok(v) && held_by(v) == m,
            Err(e) => r matches Err(s) && s@ == e,
        },
{
    serde_json::from_slice(bytes).map_err(|e| e.to_string())
}

/// What a `serde_json::Value` holds, taken over variant by variant.
#[verifier::external_body]
pub(crate) fn taken(value: Value) -> (r: Json)
    ensures
        r@ == held_by(value),
{
    match value {
        Value::Null => Json::Null,
        Value::Bool(b) => Json::Bool(b),
        Value::Number(n) => match (n.as_u64(), n.as_i64()) {
            (Some(u), _) => Json::UInt(u),
            (None, Some(i)) => Json::NegInt(i),
            (None, None) => Json::Real(n.as_f64().unwrap_or_default().to_bits()),
        },
        Value::String(s) => Json::Str(s),
        Value::Array(a) => Json::Arr(a.into_iter().map(taken).collect()),
        Value::Object(o) => Json::Obj(o.into_iter().map(|(k, v)| (k, taken(v))).collect()),
    }
}

/// The `serde_json::Value` with the same content, handed over variant by variant with `Value::from`. Two
/// values that stand for the same give the same.
#[verifier::external_body]
fn given(json: &Json) -> (r: Value)
    ensures
        r == value_of(json@),
{
    match json {
        Json::Null => Value::Null,
        Json::Bool(b) => Value::from(*b),
        Json::UInt(n) => Value::from(*n),
        Json::NegInt(n) => Value::from(*n),
        Json::Real(bits) => Value::from(bits.to_be_bytes().as_slice().get_f64()),
        Json::Str(s) => Value::from(s.as_str()),
        Json::Arr(v) => Value::Array(v.iter().map(given).collect()),
        Json::Obj(v) => Value::Object(v.iter().map(|(k, j)| (k.clone(), given(j))).collect()),
    }
}

/// `Value::to_string` of `serde_json`: the value's compact text.
#[verifier::external_body]
fn printed(value: &Value) -> (r: String)
    ensures
        r@ == value_text(*value),
{
    value.to_string()
}

/// What bytes hold as JSON, where they are JSON.
pub open spec fn json_of(bytes: Seq<u8>) -> Option<JsonModel> {
    match json_read(bytes) {
        Ok(m) => Some(m),
        Err(_) => None,
    }
}

/// The compact text that stands for this.
pub open spec fn json_text(model: JsonModel) -> Seq<char> {
    value_text(value_of(model))
}

/// The bytes that stand for this: its compact text.
pub open spec fn json_bytes(model: JsonModel) -> Seq<u8> {
    encode_utf8(json_text(model))
}

/// What a value stands for, where there is one.
pub open spec fn model_of(j: Option<Json>) -> Option<JsonModel> {
    match j {
        Some(v) => Some(v@),
        None => None,
    }
}

/// What bytes hold as JSON, or what is wrong with them.
pub fn read_json(bytes: &[u8]) -> (r: Result<Json, String>)
    ensures
        match json_read(bytes@) {
            Ok(m) => r matches Ok(j) && j@ == m,
            Err(e) => r matches Err(s) && s@ == e,
        },
{
    match parsed_value(bytes) {
        Ok(v) => Ok(taken(v)),
        Err(e) => Err(e),
    }
}

/// What bytes hold as JSON; `None` where they are not JSON.
pub fn parse_json(bytes: &[u8]) -> (r: Option<Json>)
    ensures
        r is Some == json_of(bytes@) is Some,
        r matches Some(j) ==> json_of(bytes@) == Some(j@),
{
    match read_json(bytes) {
        Ok(j) => Some(j),
        Err(_) => None,
    }
}

/// The compact text of a value.
pub fn print_json(json: &Json) -> (r: String)
    ensures
        r@ == json_text(json@),
{
    printed(&given(json))
}

/// The bytes of a value's compact text.
pub fn json_to_bytes(json: &Json) -> (r: Vec<u8>)
    ensures
        r@ == json_bytes(json@),
{
    utf8_of(print_json(json).as_str())
}

/// A JSON value. An object keeps its members in order; a real number is carried as its bits.
#[derive(Debug, PartialEq, Eq)]
pub enum Json {
    /// `null`.
    Null,
    /// A boolean.
    Bool(bool),
    /// A whole number that is not negative.
    UInt(u64),
    /// A negative whole number.
    NegInt(i64),
    /// Any other number, by the bits of its 64-bit floating-point form.
    Real(u64),
    /// A string.
    Str(String),
    /// An array.
    Arr(Vec<Json>),
    /// An object.
    Obj(Vec<(String, Json)>),
}

/// What a [`Json`] stands for.
#[verifier::ext_equal]
pub enum JsonModel {
    /// `null`.
    Null,
    /// A boolean.
    Bool(bool),
    /// A whole number.
    Int(int),
    /// Any other number, by its bits.
    Real(u64),
    /// A string.
    Str(Seq<char>),
    /// An array.
    Arr(Seq<JsonModel>),
    /// An object's members, in order.
    Obj(Seq<(Seq<char>, JsonModel)>),
}

impl View for Json {
    type V = JsonModel;

    open spec fn view(&self) -> JsonModel
        decreases self,
    {
        match self {
            Json::Null => JsonModel::Null,
            Json::Bool(b) => JsonModel::Bool(*b),
            Json::UInt(n) => JsonModel::Int(*n as int),
            Json::NegInt(n) => JsonModel::Int(*n as int),
            Json::Real(b) => JsonModel::Real(*b),
            Json::Str(s) => JsonModel::Str(s@),
            Json::Arr(v) => JsonModel::Arr(
                Seq::new(
                    v@.len(),
                    |i: int|
                        if 0 <= i < v@.len() {
                            v@[i].view()
                        } else {
                            JsonModel::Null
                        },
                ),
            ),
            Json::Obj(v) => JsonModel::Obj(
                Seq::new(
                    v@.len(),
                    |i: int|
                        if 0 <= i < v@.len() {
                            (v@[i].0@, v@[i].1.view())
                        } else {
                            (Seq::empty(), JsonModel::Null)
                        },
                ),
            ),
        }
    }
}

/// The first member called `key` from `i` on.
pub open spec fn member_from(fields: Seq<(Seq<char>, JsonModel)>, key: Seq<char>, i: int) -> Option<
    JsonModel,
>
    decreases fields.len() - i,
{
    if i < 0 || i >= fields.len() {
        None
    } else if fields[i].0 == key {
        Some(fields[i].1)
    } else {
        member_from(fields, key, i + 1)
    }
}

impl JsonModel {
    /// The member called `key`: none where this is no object.
    pub open spec fn member(self, key: Seq<char>) -> Option<JsonModel> {
        match self {
            JsonModel::Obj(fields) => member_from(fields, key, 0),
            _ => None,
        }
    }

    /// The member called `key`, or `null`.
    pub open spec fn at(self, key: Seq<char>) -> JsonModel {
        match self.member(key) {
            Some(v) => v,
            None => JsonModel::Null,
        }
    }

    /// The text of a string.
    pub open spec fn text(self) -> Option<Seq<char>> {
        match self {
            JsonModel::Str(s) => Some(s),
            _ => None,
        }
    }

    /// The value of a whole number that is not negative.
    pub open spec fn natural(self) -> Option<int> {
        match self {
            JsonModel::Int(n) if n >= 0 => Some(n),
            _ => None,
        }
    }

    /// The value of a boolean.
    pub open spec fn truth(self) -> Option<bool> {
        match self {
            JsonModel::Bool(b) => Some(b),
            _ => None,
        }
    }

    /// The `i`th element of an array, or `null`.
    pub open spec fn item(self, i: int) -> JsonModel {
        match self {
            JsonModel::Arr(v) if 0 <= i < v.len() => v[i],
            _ => JsonModel::Null,
        }
    }

    /// The elements of an array.
    pub open spec fn elements(self) -> Option<Seq<JsonModel>> {
        match self {
            JsonModel::Arr(v) => Some(v),
            _ => None,
        }
    }

    /// The object with one more member at its end; anything but an object is left as it is.
    pub open spec fn field(self, key: Seq<char>, value: JsonModel) -> JsonModel {
        match self {
            JsonModel::Obj(fields) => JsonModel::Obj(fields.push((key, value))),
            other => other,
        }
    }

    /// The text of the member called `key`, when there is one and it is a string.
    pub open spec fn text_at(self, key: Seq<char>) -> Option<Seq<char>> {
        self.at(key).text()
    }

    /// The number called `key`, when there is one and it is whole and not negative.
    pub open spec fn natural_at(self, key: Seq<char>) -> Option<int> {
        self.at(key).natural()
    }
}

/// The object without members.
pub open spec fn object() -> JsonModel {
    JsonModel::Obj(Seq::empty())
}

/// A string value.
pub open spec fn string(s: Seq<char>) -> JsonModel {
    JsonModel::Str(s)
}

/// The elements of an array are the models of its elements.
pub proof fn lemma_arr(v: Vec<Json>)
    ensures
        Json::Arr(v)@ is Arr,
        Json::Arr(v)@->Arr_0.len() == v@.len(),
        forall|i: int| 0 <= i < v@.len() ==> #[trigger] Json::Arr(v)@->Arr_0[i] == v@[i]@,
{
    reveal_with_fuel(<Json as View>::view, 2);
}

/// The members of an object are the models of its members.
pub proof fn lemma_obj(v: Vec<(String, Json)>)
    ensures
        Json::Obj(v)@ is Obj,
        Json::Obj(v)@->Obj_0.len() == v@.len(),
        forall|i: int| 0 <= i < v@.len() ==> #[trigger] Json::Obj(v)@->Obj_0[i] == (v@[i].0@, v@[i].1@),
{
    reveal_with_fuel(<Json as View>::view, 2);
}

/// The models of some values.
pub open spec fn models(v: Seq<Json>) -> Seq<JsonModel> {
    Seq::new(v.len(), |i: int| v[i]@)
}

/// The strings with these texts.
pub open spec fn strings(v: Seq<Seq<char>>) -> Seq<JsonModel> {
    Seq::new(v.len(), |i: int| string(v[i]))
}

/// A text that may be missing: a string, or `null`.
pub open spec fn maybe_string(s: Option<Seq<char>>) -> JsonModel {
    match s {
        Some(t) => string(t),
        None => JsonModel::Null,
    }
}

impl Json {
    /// The object without members.
    pub fn empty_object() -> (r: Json)
        ensures
            r@ == object(),
    {
        let fields: Vec<(String, Json)> = Vec::new();
        proof {
            lemma_obj(fields);
        }
        let r = Json::Obj(fields);
        assert(r@->Obj_0 =~= Seq::empty());
        r
    }

    /// The object with one more member at its end; anything but an object is left as it is.
    pub fn with(self, key: &str, value: Json) -> (r: Json)
        ensures
            r@ == self@.field(key@, value@),
    {
        match self {
            Json::Obj(fields) => {
                let ghost model = Json::Obj(fields)@->Obj_0;
                proof {
                    lemma_obj(fields);
                }
                let mut fields = fields;
                let ghost pair = (key@, value@);
                fields.push((key.to_owned(), value));
                proof {
                    lemma_obj(fields);
                }
                let r = Json::Obj(fields);
                assert(r@->Obj_0 =~= model.push(pair));
                r
            },
            other => other,
        }
    }

    /// The object with one more string member at its end.
    pub fn with_str(self, key: &str, value: &str) -> (r: Json)
        ensures
            r@ == self@.field(key@, string(value@)),
    {
        self.with(key, Json::Str(value.to_owned()))
    }

    /// The member called `key`.
    pub fn get(&self, key: &str) -> (r: Option<&Json>)
        ensures
            r is Some == self@.member(key@) is Some,
            r matches Some(v) ==> self@.member(key@) == Some(v@),
    {
        match self {
            Json::Obj(fields) => {
                let ghost model = self@->Obj_0;
                proof {
                    lemma_obj(*fields);
                }
                let mut i: usize = 0;
                while i < fields.len()
                    invariant
                        i <= fields@.len(),
                        self@ == JsonModel::Obj(model),
                        model.len() == fields@.len(),
                        forall|j: int|
                            0 <= j < fields@.len() ==> #[trigger] model[j] == (fields@[j].0@, fields@[j].1@),
                        member_from(model, key@, 0) == member_from(model, key@, i as int),
                    decreases fields@.len() - i,
                {
                    assert(model[i as int] == (fields@[i as int].0@, fields@[i as int].1@));
                    if same(fields[i].0.as_str(), key) {
                        return Some(&fields[i].1);
                    }
                    i += 1;
                }
                None
            },
            _ => None,
        }
    }

    /// The text of a string.
    pub fn as_str(&self) -> (r: Option<&str>)
        ensures
            r is Some == self@.text() is Some,
            r matches Some(s) ==> self@.text() == Some(s@),
    {
        match self {
            Json::Str(s) => Some(s.as_str()),
            _ => None,
        }
    }

    /// The value of a whole number that is not negative.
    pub fn as_u64(&self) -> (r: Option<u64>)
        ensures
            r is Some == self@.natural() is Some,
            r matches Some(n) ==> self@.natural() == Some(n as int),
    {
        match self {
            Json::UInt(n) => Some(*n),
            Json::NegInt(n) if *n >= 0 => Some(*n as u64),
            _ => None,
        }
    }

    /// The value of a boolean.
    pub fn as_bool(&self) -> (r: Option<bool>)
        ensures
            r == self@.truth(),
    {
        match self {
            Json::Bool(b) => Some(*b),
            _ => None,
        }
    }

    /// The elements of an array.
    pub fn as_array(&self) -> (r: Option<&Vec<Json>>)
        ensures
            r is Some == self@.elements() is Some,
            r matches Some(v) ==> {
                &&& self@.elements()->0.len() == v@.len()
                &&& forall|i: int| 0 <= i < v@.len() ==> #[trigger] self@.elements()->0[i] == v@[i]@
            },
    {
        match self {
            Json::Arr(v) => {
                proof {
                    lemma_arr(*v);
                }
                Some(v)
            },
            _ => None,
        }
    }

    /// The member called `key`, or `null`.
    pub fn at(&self, key: &str) -> (r: Json)
        ensures
            r@ == self@.at(key@),
    {
        match self.get(key) {
            Some(v) => v.copy(),
            None => Json::Null,
        }
    }

    /// The `i`th element of an array, or `null`.
    pub fn item(&self, i: usize) -> (r: Json)
        ensures
            r@ == self@.item(i as int),
    {
        match self {
            Json::Arr(v) => {
                proof {
                    lemma_arr(*v);
                }
                if i < v.len() {
                    let c = v[i].copy();
                    assert(c@ == self@->Arr_0[i as int]);
                    c
                } else {
                    Json::Null
                }
            },
            _ => Json::Null,
        }
    }

    /// The array of just this element.
    pub fn singleton(element: Json) -> (r: Json)
        ensures
            r@ == JsonModel::Arr(Seq::empty().push(element@)),
    {
        let mut v: Vec<Json> = Vec::new();
        let ghost e = element@;
        v.push(element);
        proof {
            lemma_arr(v);
        }
        let r = Json::Arr(v);
        assert(r@->Arr_0 =~= Seq::empty().push(e));
        r
    }

    /// The array of just these two elements.
    pub fn pair(first: Json, second: Json) -> (r: Json)
        ensures
            r@ == JsonModel::Arr(Seq::empty().push(first@).push(second@)),
    {
        let mut v: Vec<Json> = Vec::new();
        let ghost a = first@;
        let ghost b = second@;
        v.push(first);
        v.push(second);
        proof {
            lemma_arr(v);
        }
        let r = Json::Arr(v);
        assert(r@->Arr_0 =~= Seq::empty().push(a).push(b));
        r
    }

    /// The array of these elements.
    pub fn array(v: Vec<Json>) -> (r: Json)
        ensures
            r@ == JsonModel::Arr(models(v@)),
    {
        proof {
            lemma_arr(v);
        }
        let r = Json::Arr(v);
        assert(r@->Arr_0 =~= models(v@));
        r
    }

    /// The array of strings with these texts.
    pub fn strings(v: &Vec<String>) -> (r: Json)
        ensures
            r@ == JsonModel::Arr(strings(texts(v@))),
    {
        let mut out: Vec<Json> = Vec::new();
        let mut i: usize = 0;
        while i < v.len()
            invariant
                i <= v@.len(),
                out@.len() == i,
                forall|j: int| 0 <= j < i ==> (#[trigger] out@[j])@ == string(v@[j]@),
            decreases v@.len() - i,
        {
            out.push(Json::Str(v[i].clone()));
            i += 1;
        }
        assert(models(out@) =~= strings(texts(v@)));
        Json::array(out)
    }

    /// A string, or `null` where there is none.
    pub fn maybe(s: &Option<String>) -> (r: Json)
        ensures
            r@ == maybe_string(
                match s {
                    Some(t) => Some(t@),
                    None => None,
                },
            ),
    {
        match s {
            Some(t) => Json::Str(t.clone()),
            None => Json::Null,
        }
    }

    /// A signed number.
    pub fn integer(n: i64) -> (r: Json)
        ensures
            r@ == JsonModel::Int(n as int),
    {
        if n >= 0 {
            Json::UInt(n as u64)
        } else {
            Json::NegInt(n)
        }
    }

    /// The text of the member called `key`, when there is one and it is a string.
    pub fn str_at(&self, key: &str) -> (r: Option<&str>)
        ensures
            r is Some == self@.text_at(key@) is Some,
            r matches Some(s) ==> self@.text_at(key@) == Some(s@),
    {
        match self.get(key) {
            Some(v) => v.as_str(),
            None => None,
        }
    }

    /// The number called `key`, when there is one and it is whole and not negative.
    pub fn u64_at(&self, key: &str) -> (r: Option<u64>)
        ensures
            r is Some == self@.natural_at(key@) is Some,
            r matches Some(n) ==> self@.natural_at(key@) == Some(n as int),
    {
        match self.get(key) {
            Some(v) => v.as_u64(),
            None => None,
        }
    }

    /// The same value again.
    pub fn copy(&self) -> (r: Json)
        ensures
            r@ == self@,
        decreases self,
    {
        match self {
            Json::Null => Json::Null,
            Json::Bool(b) => Json::Bool(*b),
            Json::UInt(n) => Json::UInt(*n),
            Json::NegInt(n) => Json::NegInt(*n),
            Json::Real(b) => Json::Real(*b),
            Json::Str(s) => Json::Str(s.clone()),
            Json::Arr(v) => {
                let mut out: Vec<Json> = Vec::new();
                let mut i: usize = 0;
                while i < v.len()
                    invariant
                        self == Json::Arr(*v),
                        i <= v@.len(),
                        out@.len() == i,
                        forall|j: int| 0 <= j < i ==> (#[trigger] out@[j])@ == v@[j]@,
                    decreases v@.len() - i,
                {
                    assert(decreases_to!(self => self->Arr_0));
                    assert(decreases_to!(*v => v@));
                    assert(decreases_to!(v@ => v@[i as int]));
                    let c = v[i].copy();
                    out.push(c);
                    i += 1;
                }
                proof {
                    lemma_arr(out);
                    lemma_arr(*v);
                }
                let r = Json::Arr(out);
                assert(r@->Arr_0 =~= self@->Arr_0);
                r
            },
            Json::Obj(v) => {
                let mut out: Vec<(String, Json)> = Vec::new();
                let mut i: usize = 0;
                while i < v.len()
                    invariant
                        self == Json::Obj(*v),
                        i <= v@.len(),
                        out@.len() == i,
                        forall|j: int|
                            0 <= j < i ==> (#[trigger] out@[j]).0@ == v@[j].0@ && out@[j].1@ == v@[j].1@,
                    decreases v@.len() - i,
                {
                    assert(decreases_to!(self => self->Obj_0));
                    assert(decreases_to!(*v => v@));
                    assert(decreases_to!(v@ => v@[i as int]));
                    assert(decreases_to!(v@[i as int] => v@[i as int].1));
                    let c = v[i].1.copy();
                    out.push((v[i].0.clone(), c));
                    i += 1;
                }
                proof {
                    lemma_obj(out);
                    lemma_obj(*v);
                }
                let r = Json::Obj(out);
                assert(r@->Obj_0 =~= self@->Obj_0);
                r
            },
        }
    }
}

} // verus!
