//! A specification-level model of the JSON documents this crate stores, and
//! the trusted boundary to serde_json, which does the actual encoding and
//! parsing.
//!
//! Every `serde_json::Value` denotes a tree described by the spec enum
//! [`Json`]: objects are the key/value pairs in document order, arrays are
//! element sequences, strings and booleans are themselves, and a number that
//! is a non-negative integer fitting in `u64` is an `Int`. Any other number
//! (negative, fractional, or out of range) is `OtherNum`; this crate never
//! produces one, and [`Json::wf`] rules them out.

use vstd::prelude::*;

verus! {

/// The tree a JSON document denotes. Object pairs appear in document order;
/// the values this crate builds keep each key at most once.
pub enum Json {
    Null,
    Bool(bool),
    Int(u64),
    Str(Seq<char>),
    Arr(Seq<Json>),
    Obj(Seq<(Seq<char>, Json)>),
    OtherNum,
}

impl Json {
    /// A tree of nesting depth at most `depth`, with no `OtherNum` anywhere
    /// and no repeated key in any object.
    pub open spec fn wf_within(self, depth: nat) -> bool
        decreases self,
    {
        match self {
            Json::Null => true,
            Json::Bool(_) => true,
            Json::Int(_) => true,
            Json::Str(_) => true,
            Json::Arr(items) => depth > 0 && forall|i: int|
                0 <= i < items.len() ==> (#[trigger] items[i]).wf_within((depth - 1) as nat),
            Json::Obj(pairs) => {
                &&& depth > 0
                &&& forall|i: int, k: int|
                    0 <= i < k < pairs.len() ==> (#[trigger] pairs[i]).0 != (#[trigger] pairs[k]).0
                &&& forall|i: int|
                    0 <= i < pairs.len() ==> (#[trigger] pairs[i]).1.wf_within((depth - 1) as nat)
            },
            Json::OtherNum => false,
        }
    }

    /// A well-formed tree: no `OtherNum`, no repeated key in any object, and
    /// nested well within the depth that the parser is good for. Every tree
    /// this crate encodes is well-formed, and parsing yields the same tree
    /// back only on well-formed trees.
    pub open spec fn wf(self) -> bool {
        self.wf_within(64)
    }
}

/// A tree within some depth is within every larger depth.
pub proof fn lemma_wf_within_widens(j: Json, d1: nat, d2: nat)
    requires
        j.wf_within(d1),
        d1 <= d2,
    ensures
        j.wf_within(d2),
    decreases j,
{
    match j {
        Json::Arr(items) => {
            assert forall|i: int|
                0 <= i < items.len() implies (#[trigger] items[i]).wf_within(
                (d2 - 1) as nat,
            ) by {
                lemma_wf_within_widens(items[i], (d1 - 1) as nat, (d2 - 1) as nat);
            }
        },
        Json::Obj(pairs) => {
            assert forall|i: int|
                0 <= i < pairs.len() implies (#[trigger] pairs[i]).1.wf_within(
                (d2 - 1) as nat,
            ) by {
                lemma_wf_within_widens(pairs[i].1, (d1 - 1) as nat, (d2 - 1) as nat);
            }
        },
        _ => {},
    }
}

/// The pairs of an object tree; the empty sequence for any other tree.
pub open spec fn obj_pairs(j: Json) -> Seq<(Seq<char>, Json)> {
    match j {
        Json::Obj(pairs) => pairs,
        _ => Seq::empty(),
    }
}

/// The value bound to `key` among `pairs`, at the first occurrence.
pub open spec fn obj_lookup(pairs: Seq<(Seq<char>, Json)>, key: Seq<char>) -> Option<Json>
    decreases pairs.len(),
{
    if pairs.len() == 0 {
        None
    } else if pairs[0].0 == key {
        Some(pairs[0].1)
    } else {
        obj_lookup(pairs.drop_first(), key)
    }
}

/// `pairs` with `key` bound to `val`: an existing binding is replaced in
/// place, a new one is appended at the end. This is what inserting into a
/// document-order map does to its contents.
pub open spec fn obj_upsert(
    pairs: Seq<(Seq<char>, Json)>,
    key: Seq<char>,
    val: Json,
) -> Seq<(Seq<char>, Json)>
    decreases pairs.len(),
{
    if pairs.len() == 0 {
        seq![(key, val)]
    } else if pairs[0].0 == key {
        seq![(key, val)] + pairs.drop_first()
    } else {
        seq![pairs[0]] + obj_upsert(pairs.drop_first(), key, val)
    }
}

/// The trees denoted by a sequence of values, element by element.
pub open spec fn models_of(vs: Seq<serde_json::Value>) -> Seq<Json> {
    vs.map_values(|v: serde_json::Value| model_of(v))
}

/// The text of a string tree; empty for any other tree.
pub open spec fn str_of(j: Json) -> Seq<char> {
    match j {
        Json::Str(s) => s,
        _ => Seq::empty(),
    }
}

/// The elements of an array tree; empty for any other tree.
pub open spec fn arr_items(j: Json) -> Seq<Json> {
    match j {
        Json::Arr(items) => items,
        _ => Seq::empty(),
    }
}

/// The string field bound to `key` in an object tree, when there is one and
/// it is a string.
pub open spec fn lookup_str(j: Json, key: Seq<char>) -> Option<Seq<char>> {
    match obj_lookup(obj_pairs(j), key) {
        Some(Json::Str(s)) => Some(s),
        _ => None,
    }
}

/// The integer field bound to `key` in an object tree, when there is one and
/// it is an integer.
pub open spec fn lookup_u64(j: Json, key: Seq<char>) -> Option<u64> {
    match obj_lookup(obj_pairs(j), key) {
        Some(Json::Int(n)) => Some(n),
        _ => None,
    }
}

/// The array field bound to `key` in an object tree, when there is one and
/// it is an array.
pub open spec fn lookup_arr(j: Json, key: Seq<char>) -> Option<Seq<Json>> {
    match obj_lookup(obj_pairs(j), key) {
        Some(Json::Arr(items)) => Some(items),
        _ => None,
    }
}

/// A sequence of texts as a sequence of string trees.
pub open spec fn str_list_json(ss: Seq<Seq<char>>) -> Seq<Json> {
    ss.map_values(|s: Seq<char>| Json::Str(s))
}

/// The texts of a sequence of trees, when every tree is a string.
pub open spec fn str_list_from_json(items: Seq<Json>) -> Option<Seq<Seq<char>>> {
    if forall|i: int| 0 <= i < items.len() ==> (#[trigger] items[i]) is Str {
        Some(items.map_values(|x: Json| str_of(x)))
    } else {
        None
    }
}

/// The list-of-strings field bound to `key` in an object tree, when there is
/// one and every element is a string.
pub open spec fn lookup_str_list(j: Json, key: Seq<char>) -> Option<Seq<Seq<char>>> {
    match lookup_arr(j, key) {
        Some(items) => str_list_from_json(items),
        None => None,
    }
}

#[verifier::external_type_specification]
#[verifier::external_body]
pub struct ExValue(serde_json::Value);

/// The tree that a `serde_json::Value` denotes.
pub uninterp spec fn model_of(v: serde_json::Value) -> Json;

/// The text that pretty-printing a tree produces.
pub uninterp spec fn pretty_of(j: Json) -> Seq<char>;

/// The tree that parsing a text yields, or nothing when the text does not
/// parse as one JSON document. Parsing is a function of the text alone.
pub uninterp spec fn parse_of(s: Seq<char>) -> Option<Json>;

/// Relies on `serde_json::Value::String`: wraps text as a JSON string value.
#[verifier::external_body]
pub(crate) fn value_string(s: &str) -> (v: serde_json::Value)
    ensures
        model_of(v) == Json::Str(s@),
{
    serde_json::Value::String(s.to_string())
}

/// Relies on `serde_json::Value::from` for `u64`: wraps an integer as a JSON
/// number value.
#[verifier::external_body]
pub(crate) fn value_u64(n: u64) -> (v: serde_json::Value)
    ensures
        model_of(v) == Json::Int(n),
{
    serde_json::Value::from(n)
}

/// Relies on `serde_json::Value::Array`: wraps a vector as a JSON array
/// value.
#[verifier::external_body]
pub(crate) fn value_array(items: Vec<serde_json::Value>) -> (v: serde_json::Value)
    ensures
        model_of(v) == Json::Arr(models_of(items@)),
{
    serde_json::Value::Array(items)
}

/// Relies on `serde_json::Map::new` (wrapped in `Value::Object`): an empty
/// JSON object value.
#[verifier::external_body]
pub(crate) fn value_object_empty() -> (v: serde_json::Value)
    ensures
        model_of(v) == Json::Obj(Seq::empty()),
{
    serde_json::Value::Object(serde_json::Map::new())
}

/// Relies on `serde_json::Map::insert`: with the `preserve_order` feature the
/// map is an index map, so inserting replaces an existing key in place and
/// appends a new one at the end of document order.
#[verifier::external_body]
pub(crate) fn object_insert(v: &mut serde_json::Value, key: &str, val: serde_json::Value)
    requires
        model_of(*old(v)) is Obj,
    ensures
        model_of(*final(v)) == Json::Obj(obj_upsert(obj_pairs(model_of(*old(v))), key@, model_of(val))),
{
    if let serde_json::Value::Object(m) = v {
        m.insert(key.to_string(), val);
    }
}

/// Relies on `serde_json::to_string_pretty`: encoding a `Value` always
/// succeeds (it writes into a byte buffer, and `Value`'s `Serialize` has no
/// error path of its own), and the pretty text is a function of the tree the
/// value denotes, as long as that tree is well-formed.
#[verifier::external_body]
pub(crate) fn json_pretty(v: &serde_json::Value) -> (r: Option<String>)
    ensures
        r is Some,
        match r {
            Some(s) => model_of(*v).wf() ==> s@ == pretty_of(model_of(*v)),
            None => true,
        },
{
    serde_json::to_string_pretty(v).ok()
}

/// Relies on `serde_json::from_str` for `Value`: what parsing yields is a
/// function of the text alone, named [`parse_of`]. Parsing the pretty text of
/// a well-formed tree (with or without a trailing line break, which the
/// parser skips as whitespace) succeeds and yields a value denoting that same
/// tree: well-formed trees nest at most 64 deep, well within the parser's own
/// recursion limit of 128.
#[verifier::external_body]
pub(crate) fn json_parse(s: &str) -> (r: Option<serde_json::Value>)
    ensures
        match r {
            Some(v) => parse_of(s@) == Some(model_of(v)) && forall|j: Json|
                j.wf() && (s@ == #[trigger] pretty_of(j) || s@ == pretty_of(j).push('\n'))
                    ==> model_of(v) == j,
            None => parse_of(s@) is None && forall|j: Json|
                j.wf() ==> s@ != #[trigger] pretty_of(j) && s@ != pretty_of(j).push('\n'),
        },
{
    serde_json::from_str::<serde_json::Value>(s).ok()
}

/// Relies on `serde_json::Value::clone`: the clone denotes the same tree.
#[verifier::external_body]
pub(crate) fn clone_value(v: &serde_json::Value) -> (r: serde_json::Value)
    ensures
        model_of(r) == model_of(*v),
{
    v.clone()
}

/// Relies on `serde_json::Value::get` with a string index: on an object it
/// looks the key up, on anything else it returns nothing.
#[verifier::external_body]
pub(crate) fn value_get<'a>(v: &'a serde_json::Value, key: &str) -> (r: Option<&'a serde_json::Value>)
    ensures
        match r {
            Some(w) => model_of(*v) is Obj && obj_lookup(obj_pairs(model_of(*v)), key@)
                == Some(model_of(*w)),
            None => !(model_of(*v) is Obj) || obj_lookup(obj_pairs(model_of(*v)), key@) is None,
        },
{
    v.get(key)
}

/// Relies on `serde_json::Value::as_str`: text exactly when the value is a
/// JSON string.
#[verifier::external_body]
pub(crate) fn value_as_str<'a>(v: &'a serde_json::Value) -> (r: Option<&'a str>)
    ensures
        r is Some <==> model_of(*v) is Str,
        r matches Some(s) ==> model_of(*v) == Json::Str(s@),
{
    v.as_str()
}

/// Relies on `serde_json::Value::as_u64`: an integer exactly when the value
/// is a JSON number that is a non-negative integer fitting in `u64`.
#[verifier::external_body]
pub(crate) fn value_as_u64(v: &serde_json::Value) -> (r: Option<u64>)
    ensures
        r is Some <==> model_of(*v) is Int,
        r matches Some(n) ==> model_of(*v) == Json::Int(n),
{
    v.as_u64()
}

/// Relies on `serde_json::Value::as_array`: the elements exactly when the
/// value is a JSON array.
#[verifier::external_body]
pub(crate) fn value_as_array<'a>(v: &'a serde_json::Value) -> (r: Option<&'a Vec<serde_json::Value>>)
    ensures
        r is Some <==> model_of(*v) is Arr,
        r matches Some(items) ==> model_of(*v) == Json::Arr(models_of(items@)),
{
    v.as_array()
}

/// The string field at `key` of the object `v` denotes, owned.
pub(crate) fn get_str(v: &serde_json::Value, key: &str) -> (r: Option<String>)
    ensures
        match r {
            Some(s) => lookup_str(model_of(*v), key@) == Some(s@),
            None => lookup_str(model_of(*v), key@) is None,
        },
{
    match value_get(v, key) {
        None => None,
        Some(w) => match value_as_str(w) {
            None => None,
            Some(s) => Some(s.to_owned()),
        },
    }
}

/// The integer field at `key` of the object `v` denotes.
pub(crate) fn get_u64(v: &serde_json::Value, key: &str) -> (r: Option<u64>)
    ensures
        match r {
            Some(n) => lookup_u64(model_of(*v), key@) == Some(n),
            None => lookup_u64(model_of(*v), key@) is None,
        },
{
    match value_get(v, key) {
        None => None,
        Some(w) => value_as_u64(w),
    }
}

/// A list of texts as a JSON array value of strings.
pub(crate) fn string_list_value(xs: &Vec<String>) -> (v: serde_json::Value)
    ensures
        model_of(v) == Json::Arr(str_list_json(xs@.map_values(|s: String| s@))),
{
    let mut items: Vec<serde_json::Value> = Vec::new();
    let mut i: usize = 0;
    while i < xs.len()
        invariant
            i <= xs@.len(),
            items@.len() == i,
            forall|k: int|
                0 <= k < i ==> model_of(#[trigger] items@[k]) == Json::Str(xs@[k]@),
        decreases xs@.len() - i,
    {
        items.push(value_string(xs[i].as_str()));
        i = i + 1;
    }
    proof {
        assert(models_of(items@) =~= str_list_json(xs@.map_values(|s: String| s@)));
    }
    value_array(items)
}

/// Reads back a JSON array of strings as a list of owned texts; `None` when
/// the value is not an array or some element is not a string.
pub(crate) fn string_list_of_value(v: &serde_json::Value) -> (r: Option<Vec<String>>)
    ensures
        match r {
            Some(xs) => model_of(*v) is Arr && str_list_from_json(arr_items(model_of(*v)))
                == Some(xs@.map_values(|s: String| s@)),
            None => !(model_of(*v) is Arr) || str_list_from_json(arr_items(model_of(*v))) is None,
        },
{
    let items = match value_as_array(v) {
        None => {
            return None;
        },
        Some(items) => items,
    };
    let ghost ms = arr_items(model_of(*v));
    let mut out: Vec<String> = Vec::new();
    let mut i: usize = 0;
    while i < items.len()
        invariant
            i <= items@.len(),
            ms == models_of(items@),
            ms == arr_items(model_of(*v)),
            model_of(*v) is Arr,
            out@.len() == i,
            forall|k: int| 0 <= k < i ==> (#[trigger] ms[k]) is Str,
            forall|k: int| 0 <= k < i ==> (#[trigger] out@[k])@ == str_of(ms[k]),
        decreases items@.len() - i,
    {
        match value_as_str(&items[i]) {
            None => {
                proof {
                    assert(!(ms[i as int] is Str));
                    assert(exists|k: int| 0 <= k < ms.len() && !((#[trigger] ms[k]) is Str));
                    assert(str_list_from_json(ms) is None);
                }
                return None;
            },
            Some(s) => {
                out.push(s.to_owned());
            },
        }
        i = i + 1;
    }
    proof {
        assert(str_list_from_json(ms) == Some(out@.map_values(|s: String| s@))) by {
            assert(forall|k: int| 0 <= k < ms.len() ==> (#[trigger] ms[k]) is Str);
            assert(ms.map_values(|x: Json| str_of(x)) =~= out@.map_values(|s: String| s@));
        }
    }
    Some(out)
}

} // verus!
