use vstd::prelude::*;
use vstd::string::*;
use crate::text::str_eq;

verus! {

/// A JSON value, as the engine's protocols exchange it.
#[derive(Debug, PartialEq, Eq)]
pub enum Json {
    Null,
    Bool(bool),
    /// A number, held as its decimal text.
    Number(String),
    Str(String),
    Array(Vec<Json>),
    /// An object's members, in order.
    Object(Vec<(String, Json)>),
}

/// A JSON value with its strings taken as character sequences.
pub enum JsonView {
    Null,
    Bool(bool),
    Number(Seq<char>),
    Str(Seq<char>),
    Array(Seq<JsonView>),
    Object(Seq<(Seq<char>, JsonView)>),
}

impl Json {
    /// The value with its strings taken as character sequences.
    pub open spec fn deep(&self) -> JsonView
        decreases self,
    {
        match self {
            Json::Null => JsonView::Null,
            Json::Bool(b) => JsonView::Bool(*b),
            Json::Number(n) => JsonView::Number(n@),
            Json::Str(s) => JsonView::Str(s@),
            Json::Array(items) => JsonView::Array(
                Seq::new(
                    items@.len(),
                    |i: int|
                        if 0 <= i < items@.len() {
                            items@[i].deep()
                        } else {
                            JsonView::Null
                        },
                ),
            ),
            Json::Object(members) => JsonView::Object(
                Seq::new(
                    members@.len(),
                    |i: int|
                        if 0 <= i < members@.len() {
                            (members@[i].0@, members@[i].1.deep())
                        } else {
                            (Seq::empty(), JsonView::Null)
                        },
                ),
            ),
        }
    }
}

impl View for Json {
    type V = JsonView;

    open spec fn view(&self) -> JsonView {
        self.deep()
    }
}

/// The view of a value that may be absent.
pub open spec fn opt_json(v: Option<Json>) -> Option<JsonView> {
    match v {
        Some(x) => Some(x@),
        None => None,
    }
}

#[verifier::external_type_specification]
#[verifier::external_body]
pub struct ExJsonValue(serde_json::Value);

/// The value that `serde_json::from_slice` reads from `bytes` as a
/// `serde_json::Value`, numbers as their text and object members in the
/// order in which that value holds them; `None` where the bytes are no JSON.
pub uninterp spec fn json_parse(bytes: Seq<u8>) -> Option<JsonView>;

/// The value that `serde_json::from_str` reads from `text` as a
/// `serde_json::Value`, in the same terms as `json_parse`; `None` where the
/// text is no JSON.
pub uninterp spec fn json_parse_text(text: Seq<char>) -> Option<JsonView>;

/// The library's copy of a `serde_json::Value`, variant for variant, a
/// number as the text that `serde_json::Number` displays. Its result is
/// what the two parsing wrappers below name; it states nothing of its own.
#[verifier::external_body]
fn json_of_value(v: serde_json::Value) -> Json {
    match v {
        serde_json::Value::Null => Json::Null,
        serde_json::Value::Bool(b) => Json::Bool(b),
        serde_json::Value::Number(n) => Json::Number(n.to_string()),
        serde_json::Value::String(s) => Json::Str(s),
        serde_json::Value::Array(a) => Json::Array(a.into_iter().map(json_of_value).collect()),
        serde_json::Value::Object(m) => Json::Object(m.into_iter().map(|(k, x)| (k, json_of_value(x))).collect()),
    }
}

/// Parses JSON bytes with `serde_json::from_slice` into a
/// `serde_json::Value`; its error becomes `None`. The contract names the
/// result; what the grammar accepts is left to the name.
#[verifier::external_body]
pub(crate) fn parse_json(bytes: &[u8]) -> (r: Option<Json>)
    ensures
        opt_json(r) == json_parse(bytes@),
{
    serde_json::from_slice::<serde_json::Value>(bytes).ok().map(json_of_value)
}

/// Parses JSON text with `serde_json::from_str` into a `serde_json::Value`;
/// its error becomes `None`. The contract names the result; what the
/// grammar accepts is left to the name.
#[verifier::external_body]
pub(crate) fn parse_json_text(text: &str) -> (r: Option<Json>)
    ensures
        opt_json(r) == json_parse_text(text@),
{
    serde_json::from_str::<serde_json::Value>(text).ok().map(json_of_value)
}

/// The value of the first member named `key`, if any.
pub open spec fn lookup(members: Seq<(Seq<char>, JsonView)>, key: Seq<char>) -> Option<JsonView>
    decreases members.len(),
{
    if members.len() == 0 {
        None
    } else if members[0].0 == key {
        Some(members[0].1)
    } else {
        lookup(members.drop_first(), key)
    }
}

/// The member `key` of an object; `None` for a missing member or a value
/// that is no object, as `serde_json::Value::get` gives it.
pub open spec fn get_spec(v: JsonView, key: Seq<char>) -> Option<JsonView> {
    match v {
        JsonView::Object(members) => lookup(members, key),
        _ => None,
    }
}

/// The member `key` of an object, `null` where there is none, as
/// `value["key"]` reads it.
pub open spec fn field(v: JsonView, key: Seq<char>) -> JsonView {
    match get_spec(v, key) {
        Some(x) => x,
        None => JsonView::Null,
    }
}

/// The item `i` of an array, `null` where there is none, as `value[i]`
/// reads it.
pub open spec fn item(v: JsonView, i: int) -> JsonView {
    match v {
        JsonView::Array(items) => if 0 <= i < items.len() {
            items[i]
        } else {
            JsonView::Null
        },
        _ => JsonView::Null,
    }
}

/// The text of a string value.
pub open spec fn str_of(v: JsonView) -> Option<Seq<char>> {
    match v {
        JsonView::Str(s) => Some(s),
        _ => None,
    }
}

/// The truth value of a boolean value.
pub open spec fn bool_of(v: JsonView) -> Option<bool> {
    match v {
        JsonView::Bool(b) => Some(b),
        _ => None,
    }
}

/// A string value.
pub open spec fn jstr(s: Seq<char>) -> JsonView {
    JsonView::Str(s)
}

impl Json {
    /// A copy of the value.
    pub fn copy(&self) -> (r: Json)
        ensures
            r@ == self@,
        decreases self,
    {
        match self {
            Json::Null => Json::Null,
            Json::Bool(b) => Json::Bool(*b),
            Json::Number(n) => {
                let r = Json::Number(n.clone());
                assert(r@ == self@);
                r
            },
            Json::Str(s) => {
                let r = Json::Str(s.clone());
                assert(r@ == self@);
                r
            },
            Json::Array(items) => {
                let mut out: Vec<Json> = Vec::new();
                let mut i: usize = 0;
                assert forall|k: int| 0 <= k < items@.len() implies decreases_to!(self => #[trigger] items@[k]) by {
                    assert(decreases_to!(self => *items));
                    assert(decreases_to!(*items => items@));
                    assert(decreases_to!(items@ => items@[k]));
                }
                while i < items.len()
                    invariant
                        i <= items@.len(),
                        out@.len() == i,
                        forall|k: int| 0 <= k < i ==> (#[trigger] out@[k])@ == items@[k]@,
                        forall|k: int| 0 <= k < items@.len() ==> decreases_to!(self => #[trigger] items@[k]),
                    decreases items@.len() - i,
                {
                    out.push(items[i].copy());
                    i += 1;
                }
                let r = Json::Array(out);
                assert(r@->Array_0 =~= self@->Array_0);
                assert(r@ == self@);
                r
            },
            Json::Object(members) => {
                let mut out: Vec<(String, Json)> = Vec::new();
                let mut i: usize = 0;
                assert forall|k: int| 0 <= k < members@.len() implies decreases_to!(self => #[trigger] members@[k].1) by {
                    assert(decreases_to!(self => *members));
                    assert(decreases_to!(*members => members@));
                    assert(decreases_to!(members@ => members@[k]));
                    assert(decreases_to!(members@[k] => members@[k].1));
                }
                while i < members.len()
                    invariant
                        i <= members@.len(),
                        out@.len() == i,
                        forall|k: int|
                            0 <= k < i ==> (#[trigger] out@[k]).0@ == members@[k].0@ && out@[k].1@
                                == members@[k].1@,
                        forall|k: int| 0 <= k < members@.len() ==> decreases_to!(self => #[trigger] members@[k].1),
                    decreases members@.len() - i,
                {
                    let (k, v) = (&members[i].0, &members[i].1);
                    out.push((k.clone(), v.copy()));
                    i += 1;
                }
                let r = Json::Object(out);
                assert(r@->Object_0 =~= self@->Object_0);
                assert(r@ == self@);
                r
            },
        }
    }

    /// The member `key` of an object, if the value is an object that has one.
    pub fn get(&self, key: &str) -> (r: Option<&Json>)
        ensures
            match r {
                Some(x) => get_spec(self@, key@) == Some(x@),
                None => get_spec(self@, key@) is None,
            },
    {
        match self {
            Json::Object(members) => {
                let ghost ms = self@->Object_0;
                let mut i: usize = 0;
                assert(ms.skip(0) =~= ms);
                while i < members.len()
                    invariant
                        i <= members@.len(),
                        ms.len() == members@.len(),
                        forall|k: int| 0 <= k < ms.len() ==> #[trigger] ms[k] == (members@[k].0@, members@[k].1@),
                        lookup(ms, key@) == lookup(ms.skip(i as int), key@),
                        get_spec(self@, key@) == lookup(ms, key@),
                    decreases members@.len() - i,
                {
                    if str_eq(members[i].0.as_str(), key) {
                        assert(ms.skip(i as int)[0] == ms[i as int]);
                        return Some(&members[i].1);
                    }
                    assert(ms.skip(i as int).drop_first() =~= ms.skip(i + 1));
                    i += 1;
                }
                None
            },
            _ => None,
        }
    }

    /// The member `key` of an object, as `value["key"]` reads it: `None`
    /// stands for `null`.
    pub fn field(&self, key: &str) -> (r: Option<&Json>)
        ensures
            match r {
                Some(x) => field(self@, key@) == x@,
                None => field(self@, key@) == JsonView::Null,
            },
    {
        self.get(key)
    }

    /// The item `i` of an array, as `value[i]` reads it: `None` stands for
    /// `null`.
    pub fn at(&self, i: usize) -> (r: Option<&Json>)
        ensures
            match r {
                Some(x) => item(self@, i as int) == x@,
                None => item(self@, i as int) == JsonView::Null,
            },
    {
        match self {
            Json::Array(items) => if i < items.len() {
                Some(&items[i])
            } else {
                None
            },
            _ => None,
        }
    }

    /// The text of a string value.
    pub fn as_str(&self) -> (r: Option<&str>)
        ensures
            match r {
                Some(s) => str_of(self@) == Some(s@),
                None => str_of(self@) is None,
            },
    {
        match self {
            Json::Str(s) => Some(s.as_str()),
            _ => None,
        }
    }

    /// The truth value of a boolean value.
    pub fn as_bool(&self) -> (r: Option<bool>)
        ensures
            r == bool_of(self@),
    {
        match self {
            Json::Bool(b) => Some(*b),
            _ => None,
        }
    }
}

/// A string value holding `s`.
pub fn text(s: &str) -> (r: Json)
    ensures
        r@ == JsonView::Str(s@),
{
    Json::Str(String::from_str(s))
}

/// An object with one member.
pub fn object1(k1: &str, v1: Json) -> (r: Json)
    ensures
        r@ == JsonView::Object(seq![(k1@, v1@)]),
{
    let mut m: Vec<(String, Json)> = Vec::new();
    m.push((String::from_str(k1), v1));
    let r = Json::Object(m);
    assert(r@->Object_0 =~= seq![(k1@, v1@)]);
    r
}

/// An object with two members, in the order given.
pub fn object2(k1: &str, v1: Json, k2: &str, v2: Json) -> (r: Json)
    ensures
        r@ == JsonView::Object(seq![(k1@, v1@), (k2@, v2@)]),
{
    let mut m: Vec<(String, Json)> = Vec::new();
    m.push((String::from_str(k1), v1));
    m.push((String::from_str(k2), v2));
    let r = Json::Object(m);
    assert(r@->Object_0 =~= seq![(k1@, v1@), (k2@, v2@)]);
    r
}

/// An object with three members, in the order given.
pub fn object3(k1: &str, v1: Json, k2: &str, v2: Json, k3: &str, v3: Json) -> (r: Json)
    ensures
        r@ == JsonView::Object(seq![(k1@, v1@), (k2@, v2@), (k3@, v3@)]),
{
    let mut m: Vec<(String, Json)> = Vec::new();
    m.push((String::from_str(k1), v1));
    m.push((String::from_str(k2), v2));
    m.push((String::from_str(k3), v3));
    let r = Json::Object(m);
    assert(r@->Object_0 =~= seq![(k1@, v1@), (k2@, v2@), (k3@, v3@)]);
    r
}

/// An object with four members, in the order given.
pub fn object4(k1: &str, v1: Json, k2: &str, v2: Json, k3: &str, v3: Json, k4: &str, v4: Json) -> (r:
    Json)
    ensures
        r@ == JsonView::Object(seq![(k1@, v1@), (k2@, v2@), (k3@, v3@), (k4@, v4@)]),
{
    let mut m: Vec<(String, Json)> = Vec::new();
    m.push((String::from_str(k1), v1));
    m.push((String::from_str(k2), v2));
    m.push((String::from_str(k3), v3));
    m.push((String::from_str(k4), v4));
    let r = Json::Object(m);
    assert(r@->Object_0 =~= seq![(k1@, v1@), (k2@, v2@), (k3@, v3@), (k4@, v4@)]);
    r
}

/// An object with no members.
pub fn empty_object() -> (r: Json)
    ensures
        r@ == JsonView::Object(Seq::empty()),
{
    let r = Json::Object(Vec::new());
    assert(r@->Object_0 =~= Seq::<(Seq<char>, JsonView)>::empty());
    r
}

/// An array of one item.
pub fn array1(v1: Json) -> (r: Json)
    ensures
        r@ == JsonView::Array(seq![v1@]),
{
    let mut a: Vec<Json> = Vec::new();
    a.push(v1);
    let r = Json::Array(a);
    assert(r@->Array_0 =~= seq![v1@]);
    r
}

/// An array of three items, in the order given.
pub fn array3(v1: Json, v2: Json, v3: Json) -> (r: Json)
    ensures
        r@ == JsonView::Array(seq![v1@, v2@, v3@]),
{
    let mut a: Vec<Json> = Vec::new();
    a.push(v1);
    a.push(v2);
    a.push(v3);
    let r = Json::Array(a);
    assert(r@->Array_0 =~= seq![v1@, v2@, v3@]);
    r
}

} // verus!
