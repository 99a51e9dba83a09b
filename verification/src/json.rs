//! JSON documents.
//!
//! [`Json`] is the library's own tree; `serde_json` reads and writes its text.
use crate::split::views;
use crate::text::same;
use vstd::prelude::*;

verus! {

// ---------------------------------------------------------------------------
// The outside types and what the library reads off them
// ---------------------------------------------------------------------------

/// A JSON value of `serde_json`.
#[verifier::external_type_specification]
#[verifier::external_body]
pub struct ExValue(serde_json::Value);

/// A JSON number of `serde_json`.
#[verifier::external_type_specification]
#[verifier::external_body]
pub struct ExNumber(serde_json::Number);

/// The tree that a value of `serde_json` holds.
pub uninterp spec fn value_tree(v: serde_json::Value) -> JsonTree;

/// The number that `serde_json` makes of an unsigned integer.
pub uninterp spec fn number_of_u64(n: u64) -> serde_json::Number;

/// The number that `serde_json` makes of a signed integer.
pub uninterp spec fn number_of_i64(n: i64) -> serde_json::Number;

/// The unsigned integer that `serde_json` reads off a number.
pub uninterp spec fn number_as_u64(n: serde_json::Number) -> Option<u64>;

/// The signed integer that `serde_json` reads off a number.
pub uninterp spec fn number_as_i64(n: serde_json::Number) -> Option<i64>;

/// What `serde_json` reads from a text: a tree, or the message of an error.
pub uninterp spec fn json_read(text: Seq<char>) -> Result<JsonTree, Seq<char>>;

/// The compact text that `serde_json` writes for a tree.
pub uninterp spec fn json_compact(t: JsonTree) -> Seq<char>;

/// The indented text that `serde_json` writes for a tree.
pub uninterp spec fn json_pretty(t: JsonTree) -> Seq<char>;

/// The compact text that `serde_json` writes for the fields of an object in their order.
pub uninterp spec fn json_fields(fields: Seq<(Seq<char>, JsonTree)>) -> Seq<char>;

/// A JSON tree. An object is a map from its keys.
pub enum JsonTree {
    Null,
    Bool(bool),
    Number(serde_json::Number),
    Str(Seq<char>),
    Array(Seq<JsonTree>),
    Object(Map<Seq<char>, JsonTree>),
}

/// Whether a tree is nested at most so deep.
pub open spec fn nests_within(t: JsonTree, depth: nat) -> bool
    decreases depth,
{
    match t {
        JsonTree::Array(s) => depth > 0 && forall|i: int|
            0 <= i < s.len() ==> nests_within(#[trigger] s[i], (depth - 1) as nat),
        JsonTree::Object(m) => depth > 0 && forall|k: Seq<char>|
            m.contains_key(k) ==> nests_within(#[trigger] m[k], (depth - 1) as nat),
        _ => true,
    }
}

/// Whether a tree is nested at most so deep, and its numbers are integers.
pub open spec fn is_plain(t: JsonTree, depth: nat) -> bool
    decreases depth,
{
    match t {
        JsonTree::Number(n) => number_as_u64(n) is Some || number_as_i64(n) is Some,
        JsonTree::Array(s) => depth > 0 && forall|i: int|
            0 <= i < s.len() ==> is_plain(#[trigger] s[i], (depth - 1) as nat),
        JsonTree::Object(m) => depth > 0 && forall|k: Seq<char>|
            m.contains_key(k) ==> is_plain(#[trigger] m[k], (depth - 1) as nat),
        _ => true,
    }
}

/// A plain tree is nested no deeper than it says.
pub proof fn lemma_plain_nests(t: JsonTree, depth: nat)
    requires
        is_plain(t, depth),
    ensures
        nests_within(t, depth),
    decreases depth,
{
    match t {
        JsonTree::Array(s) => {
            assert forall|i: int| 0 <= i < s.len() implies nests_within(
                #[trigger] s[i],
                (depth - 1) as nat,
            ) by {
                lemma_plain_nests(s[i], (depth - 1) as nat);
            }
        },
        JsonTree::Object(m) => {
            assert forall|k: Seq<char>| m.contains_key(k) implies nests_within(
                #[trigger] m[k],
                (depth - 1) as nat,
            ) by {
                lemma_plain_nests(m[k], (depth - 1) as nat);
            }
        },
        _ => {},
    }
}

/// How deep a document may be nested for `serde_json` to read it.
pub const MAX_DEPTH: usize = 127;

/// One level of a JSON value of `serde_json`.
enum Layer {
    Null,
    Bool(bool),
    Number(serde_json::Number),
    Str(String),
    Array(Vec<serde_json::Value>),
    Object(Vec<(String, serde_json::Value)>),
}

/// The map that a list of pairs makes; of two equal keys the later one counts.
spec fn value_map(s: Seq<(String, serde_json::Value)>) -> Map<Seq<char>, JsonTree>
    decreases s.len(),
{
    if s.len() == 0 {
        Map::empty()
    } else {
        value_map(s.drop_last()).insert(s.last().0@, value_tree(s.last().1))
    }
}

/// The tree that one level of a value stands for.
spec fn layer_tree(l: Layer) -> JsonTree {
    match l {
        Layer::Null => JsonTree::Null,
        Layer::Bool(b) => JsonTree::Bool(b),
        Layer::Number(n) => JsonTree::Number(n),
        Layer::Str(s) => JsonTree::Str(s@),
        Layer::Array(v) => JsonTree::Array(v@.map_values(|x: serde_json::Value| value_tree(x))),
        Layer::Object(v) => JsonTree::Object(value_map(v@)),
    }
}

/// The variants of `serde_json::Value`, taken apart: the value holds the tree of
/// what comes out, and the pairs of an object have different keys.
#[verifier::external_body]
fn open_value(v: serde_json::Value) -> (l: Layer)
    ensures
        layer_tree(l) == value_tree(v),
        l matches Layer::Object(p) ==> forall|i: int, j: int|
            0 <= i < j < p@.len() ==> (#[trigger] p@[i]).0@ != (#[trigger] p@[j]).0@,
{
    match v {
        serde_json::Value::Null => Layer::Null,
        serde_json::Value::Bool(b) => Layer::Bool(b),
        serde_json::Value::Number(n) => Layer::Number(n),
        serde_json::Value::String(s) => Layer::Str(s),
        serde_json::Value::Array(a) => Layer::Array(a),
        serde_json::Value::Object(m) => Layer::Object(m.into_iter().collect()),
    }
}

/// The variants of `serde_json::Value`, put together: the value holds the tree
/// of what goes in.
#[verifier::external_body]
fn close_value(l: Layer) -> (v: serde_json::Value)
    ensures
        value_tree(v) == layer_tree(l),
{
    match l {
        Layer::Null => serde_json::Value::Null,
        Layer::Bool(b) => serde_json::Value::Bool(b),
        Layer::Number(n) => serde_json::Value::Number(n),
        Layer::Str(s) => serde_json::Value::String(s),
        Layer::Array(a) => serde_json::Value::Array(a),
        Layer::Object(p) => serde_json::Value::Object(p.into_iter().collect()),
    }
}

/// `serde_json::from_str` for a `Value`: the tree or the error message is
/// determined by the text.
#[verifier::external_body]
fn read_value(s: &str) -> (r: Result<serde_json::Value, String>)
    ensures
        match r {
            Ok(v) => json_read(s@) == Ok::<JsonTree, Seq<char>>(value_tree(v)),
            Err(m) => json_read(s@) == Err::<JsonTree, Seq<char>>(m@),
        },
{
    serde_json::from_str::<serde_json::Value>(s).map_err(|e| e.to_string())
}

/// `Display` of `serde_json::Value`: the compact text of the tree. It stands on one
/// line. It can be read, unless the tree is nested deeper than the reader goes, and gives
/// the tree back; that is not said of a tree with numbers that are no integers, for the
/// last digit of such a number can get lost.
#[verifier::external_body]
fn value_compact(v: &serde_json::Value) -> (r: String)
    ensures
        r@ == json_compact(value_tree(*v)),
        !r@.contains('\n'),
        nests_within(value_tree(*v), MAX_DEPTH as nat) ==> json_read(r@) is Ok,
        is_plain(value_tree(*v), MAX_DEPTH as nat) ==> json_read(r@)->Ok_0 == value_tree(*v),
{
    v.to_string()
}

/// `serde_json::to_string_pretty`: the indented text of the tree. Writing a
/// `Value` to a string does not fail. The text can be read and gives the tree back, as
/// far as this is said of the compact text.
#[verifier::external_body]
fn value_pretty(v: &serde_json::Value) -> (r: String)
    ensures
        r@ == json_pretty(value_tree(*v)),
        nests_within(value_tree(*v), MAX_DEPTH as nat) ==> json_read(r@) is Ok,
        is_plain(value_tree(*v), MAX_DEPTH as nat) ==> json_read(r@)->Ok_0 == value_tree(*v),
{
    serde_json::to_string_pretty(v).unwrap_or_default()
}

/// The fields of an object of `serde_json`.
spec fn value_fields(s: Seq<(String, serde_json::Value)>) -> Seq<(Seq<char>, JsonTree)> {
    s.map_values(|f: (String, serde_json::Value)| (f.0@, value_tree(f.1)))
}

/// Whether no two fields have the same key.
pub open spec fn are_apart(fields: Seq<(Seq<char>, JsonTree)>) -> bool {
    forall|i: int, j: int|
        0 <= i < j < fields.len() ==> (#[trigger] fields[i]).0 != (#[trigger] fields[j]).0
}

/// The object with the given fields.
pub open spec fn object_of(fields: Seq<(Seq<char>, JsonTree)>) -> JsonTree {
    JsonTree::Object(fields_map(fields))
}

/// The map that some fields make; of two equal keys the later one counts.
pub open spec fn fields_map(fields: Seq<(Seq<char>, JsonTree)>) -> Map<Seq<char>, JsonTree>
    decreases fields.len(),
{
    if fields.len() == 0 {
        Map::empty()
    } else {
        fields_map(fields.drop_last()).insert(fields.last().0, fields.last().1)
    }
}

/// `serde::Serializer::collect_map` of a `serde_json::Serializer`: the compact text of an
/// object with the fields in their order. It stands on one line. Where no key comes twice,
/// it can be read and gives the object back, as far as this is said of the compact text of
/// a value. Writing values to memory does not fail.
#[verifier::external_body]
fn write_fields(fields: Vec<(String, serde_json::Value)>) -> (r: String)
    ensures
        r@ == json_fields(value_fields(fields@)),
        !r@.contains('\n'),
        are_apart(value_fields(fields@)) && nests_within(
            object_of(value_fields(fields@)),
            MAX_DEPTH as nat,
        ) ==> json_read(r@) is Ok,
        are_apart(value_fields(fields@)) && is_plain(
            object_of(value_fields(fields@)),
            MAX_DEPTH as nat,
        ) ==> json_read(r@)->Ok_0 == object_of(value_fields(fields@)),
{
    let mut out: Vec<u8> = Vec::new();
    let pairs = fields.iter().map(|f| (&f.0, &f.1));
    serde::Serializer::collect_map(&mut serde_json::Serializer::new(&mut out), pairs).ok();
    String::from_utf8(out).unwrap_or_default()
}

/// `serde_json::Number::from` for a `u64`: reading the number back gives the
/// integer.
#[verifier::external_body]
fn make_number(n: u64) -> (r: serde_json::Number)
    ensures
        r == number_of_u64(n),
        number_as_u64(r) == Some(n),
{
    serde_json::Number::from(n)
}

/// `serde_json::Number::from` for an `i64`: reading the number back gives the
/// integer.
#[verifier::external_body]
fn make_signed_number(n: i64) -> (r: serde_json::Number)
    ensures
        r == number_of_i64(n),
        number_as_i64(r) == Some(n),
{
    serde_json::Number::from(n)
}

/// `serde_json::Number::as_u64`: determined by the number.
#[verifier::external_body]
fn read_number(n: &serde_json::Number) -> (r: Option<u64>)
    ensures
        r == number_as_u64(*n),
{
    n.as_u64()
}

/// `serde_json::Number::as_i64`: determined by the number.
#[verifier::external_body]
fn read_signed_number(n: &serde_json::Number) -> (r: Option<i64>)
    ensures
        r == number_as_i64(*n),
{
    n.as_i64()
}

/// `Clone` of `serde_json::Number`: the copy is the same number.
pub assume_specification[ <serde_json::Number as std::clone::Clone>::clone ](
    n: &serde_json::Number,
) -> (r: serde_json::Number)
    ensures
        r == *n,
;

// ---------------------------------------------------------------------------
// The library's tree
// ---------------------------------------------------------------------------

/// A JSON document. The pairs of an object stand in the order in which they were
/// given; of two pairs with the same key the later one counts.
#[derive(Debug)]
pub enum Json {
    Null,
    Bool(bool),
    Number(serde_json::Number),
    Str(String),
    Array(Vec<Json>),
    Object(Vec<(String, Json)>),
}

/// The map that a list of pairs makes; of two equal keys the later one counts.
pub open spec fn pairs_map(s: Seq<(String, Json)>) -> Map<Seq<char>, JsonTree>
    decreases s,
{
    if s.len() == 0 {
        Map::empty()
    } else {
        pairs_map(s.drop_last()).insert(s.last().0@, tree(s.last().1))
    }
}

/// The tree of a document.
pub open spec fn tree(j: Json) -> JsonTree
    decreases j,
{
    match j {
        Json::Null => JsonTree::Null,
        Json::Bool(b) => JsonTree::Bool(b),
        Json::Number(n) => JsonTree::Number(n),
        Json::Str(s) => JsonTree::Str(s@),
        Json::Array(v) => JsonTree::Array(
            Seq::new(
                v@.len(),
                |i: int|
                    if 0 <= i < v@.len() {
                        tree(v@[i])
                    } else {
                        JsonTree::Null
                    },
            ),
        ),
        Json::Object(v) => JsonTree::Object(pairs_map(v@)),
    }
}

impl View for Json {
    type V = JsonTree;

    open spec fn view(&self) -> JsonTree {
        tree(*self)
    }
}

/// The trees of a list of documents.
pub open spec fn trees(v: Seq<Json>) -> Seq<JsonTree> {
    v.map_values(|j: Json| tree(j))
}

/// The value of a field of an object.
pub open spec fn field(t: JsonTree, key: Seq<char>) -> Option<JsonTree> {
    match t {
        JsonTree::Object(m) => if m.contains_key(key) {
            Some(m[key])
        } else {
            None
        },
        _ => None,
    }
}

/// The text of a field that holds one.
pub open spec fn field_str(t: JsonTree, key: Seq<char>) -> Option<Seq<char>> {
    match field(t, key) {
        Some(JsonTree::Str(s)) => Some(s),
        _ => None,
    }
}

/// The items of a field that holds an array.
pub open spec fn field_array(t: JsonTree, key: Seq<char>) -> Option<Seq<JsonTree>> {
    match field(t, key) {
        Some(JsonTree::Array(s)) => Some(s),
        _ => None,
    }
}

/// The unsigned integer of a field that holds one.
pub open spec fn field_u64(t: JsonTree, key: Seq<char>) -> Option<u64> {
    match field(t, key) {
        Some(JsonTree::Number(n)) => number_as_u64(n),
        _ => None,
    }
}

/// Whether a document is of a type of JSON Schema; a type of another name fits
/// every document.
pub open spec fn is_of_type(t: JsonTree, name: Seq<char>) -> bool {
    if name == "null"@ {
        t is Null
    } else if name == "boolean"@ {
        t is Bool
    } else if name == "number"@ {
        t is Number
    } else if name == "integer"@ {
        t matches JsonTree::Number(n) && (number_as_u64(n) is Some || number_as_i64(n) is Some)
    } else if name == "string"@ {
        t is Str
    } else if name == "array"@ {
        t is Array
    } else if name == "object"@ {
        t is Object
    } else {
        true
    }
}

/// The optional tree of an optional document.
pub open spec fn opt_tree(j: Option<&Json>) -> Option<JsonTree> {
    match j {
        None => None,
        Some(x) => Some(tree(*x)),
    }
}

pub proof fn lemma_trees(v: Vec<Json>)
    ensures
        tree(Json::Array(v)) == JsonTree::Array(trees(v@)),
{
    let a = tree(Json::Array(v));
    assert(a->Array_0 =~= trees(v@));
}

proof fn lemma_value_map(s: Seq<(String, serde_json::Value)>, k: int)
    requires
        0 <= k < s.len(),
        forall|i: int, j: int|
            0 <= i < j < s.len() ==> (#[trigger] s[i]).0@ != (#[trigger] s[j]).0@,
    ensures
        value_map(s).contains_key(s[k].0@),
        value_map(s)[s[k].0@] == value_tree(s[k].1),
    decreases s.len(),
{
    if k < s.len() - 1 {
        let t = s.drop_last();
        assert(t[k] == s[k]);
        assert forall|i: int, j: int| 0 <= i < j < t.len() implies (#[trigger] t[i]).0@ != (
        #[trigger] t[j]).0@ by {
            assert(t[i] == s[i] && t[j] == s[j]);
        }
        lemma_value_map(t, k);
        assert(s[k].0@ != s[s.len() - 1].0@);
    }
}

proof fn lemma_pairs_keys(s: Seq<(String, Json)>, k: Seq<char>)
    ensures
        pairs_map(s).contains_key(k) <==> s.map_values(|p: (String, Json)| p.0@).contains(k),
    decreases s.len(),
{
    let keys = s.map_values(|p: (String, Json)| p.0@);
    if s.len() > 0 {
        let rest = s.drop_last();
        let rest_keys = rest.map_values(|p: (String, Json)| p.0@);
        lemma_pairs_keys(rest, k);
        assert(keys.drop_last() =~= rest_keys);
        assert(keys.last() == s.last().0@);
        if rest_keys.contains(k) {
            let i = rest_keys.index_of(k);
            assert(keys[i] == k);
        }
        if keys.contains(k) {
            let i = keys.index_of(k);
            if i < rest_keys.len() {
                assert(rest_keys[i] == k);
            }
        }
    }
}

/// The value of `serde_json` for a document.
fn to_value(j: &Json) -> (v: serde_json::Value)
    ensures
        value_tree(v) == tree(*j),
    decreases *j,
{
    match j {
        Json::Null => close_value(Layer::Null),
        Json::Bool(b) => close_value(Layer::Bool(*b)),
        Json::Number(n) => close_value(Layer::Number(n.clone())),
        Json::Str(s) => close_value(Layer::Str(s.clone())),
        Json::Array(items) => {
            let mut out: Vec<serde_json::Value> = Vec::new();
            let mut i: usize = 0;
            while i < items.len()
                invariant
                    i <= items@.len(),
                    out@.len() == i,
                    *j == Json::Array(*items),
                    forall|k: int| 0 <= k < i ==> value_tree(#[trigger] out@[k]) == tree(items@[k]),
                decreases items@.len() - i,
            {
                proof {
                    assert(decreases_to!(*j => j->Array_0));
                    assert(decreases_to!(*items => items@));
                    assert(decreases_to!(items@ => items@[i as int]));
                    assert(decreases_to!(items@ => items@[i as int]));
                }
                out.push(to_value(&items[i]));
                i = i + 1;
            }
            proof {
                lemma_trees(*items);
                assert(out@.map_values(|x: serde_json::Value| value_tree(x)) =~= trees(items@));
            }
            close_value(Layer::Array(out))
        },
        Json::Object(pairs) => {
            let mut out: Vec<(String, serde_json::Value)> = Vec::new();
            let mut i: usize = 0;
            while i < pairs.len()
                invariant
                    i <= pairs@.len(),
                    *j == Json::Object(*pairs),
                    value_map(out@) == pairs_map(pairs@.take(i as int)),
                decreases pairs@.len() - i,
            {
                let ghost before = out@;
                proof {
                    assert(decreases_to!(*j => j->Object_0));
                    assert(decreases_to!(*pairs => pairs@));
                    assert(decreases_to!(pairs@ => pairs@[i as int]));
                    assert(decreases_to!(pairs@ => pairs@[i as int].1));
                }
                let v = to_value(&pairs[i].1);
                out.push((pairs[i].0.clone(), v));
                proof {
                    assert(out@.drop_last() =~= before);
                    assert(pairs@.take(i + 1).drop_last() =~= pairs@.take(i as int));
                }
                i = i + 1;
            }
            proof {
                assert(pairs@.take(pairs@.len() as int) =~= pairs@);
            }
            close_value(Layer::Object(out))
        },
    }
}

/// The document that a value of `serde_json` holds.
fn from_value(v: serde_json::Value) -> (j: Json)
    ensures
        tree(j) == value_tree(v),
    decreases value_tree(v),
{
    let ghost whole = value_tree(v);
    match open_value(v) {
        Layer::Null => Json::Null,
        Layer::Bool(b) => Json::Bool(b),
        Layer::Number(n) => Json::Number(n),
        Layer::Str(s) => Json::Str(s),
        Layer::Array(items) => {
            let ghost given = items@;
            let mut rest = items;
            let mut out: Vec<Json> = Vec::new();
            let mut i: usize = 0;
            while i < rest.len()
                invariant
                    whole matches JsonTree::Array(ts) && ts == given.map_values(
                        |x: serde_json::Value| value_tree(x),
                    ),
                    whole == value_tree(v),
                    rest@.len() == given.len(),
                    i == out@.len(),
                    i <= given.len(),
                    forall|k: int| i <= k < rest@.len() ==> #[trigger] rest@[k] == given[k],
                    forall|k: int|
                        0 <= k < out@.len() ==> tree(#[trigger] out@[k]) == value_tree(given[k]),
                decreases rest@.len() - i,
            {
                let mut item = close_value(Layer::Null);
                std::mem::swap(&mut item, &mut rest[i]);
                proof {
                    assert(whole->Array_0[i as int] == value_tree(item));
                    assert(decreases_to!(whole => whole->Array_0[i as int]));
                }
                out.push(from_value(item));
                i = i + 1;
            }
            proof {
                lemma_trees(out);
                assert(trees(out@) =~= given.map_values(|x: serde_json::Value| value_tree(x)));
            }
            Json::Array(out)
        },
        Layer::Object(pairs) => {
            let ghost given = pairs@;
            let mut rest = pairs;
            let mut out: Vec<(String, Json)> = Vec::new();
            let mut i: usize = 0;
            while i < rest.len()
                invariant
                    whole == JsonTree::Object(value_map(given)),
                    whole == value_tree(v),
                    forall|i: int, j: int|
                        0 <= i < j < given.len() ==> (#[trigger] given[i]).0@ != (
                        #[trigger] given[j]).0@,
                    rest@.len() == given.len(),
                    i == out@.len(),
                    i <= given.len(),
                    forall|k: int| i <= k < rest@.len() ==> #[trigger] rest@[k] == given[k],
                    pairs_map(out@) == value_map(given.take(i as int)),
                decreases rest@.len() - i,
            {
                let ghost before = out@;
                let mut pair = (String::new(), close_value(Layer::Null));
                std::mem::swap(&mut pair, &mut rest[i]);
                let (key, item) = pair;
                proof {
                    lemma_value_map(given, i as int);
                    assert(decreases_to!(whole => whole->Object_0[key@]));
                }
                out.push((key, from_value(item)));
                proof {
                    assert(out@.drop_last() =~= before);
                    assert(given.take(i + 1).drop_last() =~= given.take(i as int));
                }
                i = i + 1;
            }
            proof {
                assert(given.take(given.len() as int) =~= given);
            }
            Json::Object(out)
        },
    }
}

/// The fields of a list of pairs.
pub open spec fn pair_fields(s: Seq<(String, Json)>) -> Seq<(Seq<char>, JsonTree)> {
    s.map_values(|f: (String, Json)| (f.0@, tree(f.1)))
}

/// The compact text of an object with the given fields, in their order.
pub fn fields_text(fields: &Vec<(String, Json)>) -> (r: String)
    ensures
        r@ == json_fields(pair_fields(fields@)),
        !r@.contains('\n'),
        are_apart(pair_fields(fields@)) && nests_within(
            object_of(pair_fields(fields@)),
            MAX_DEPTH as nat,
        ) ==> json_read(r@) is Ok,
        are_apart(pair_fields(fields@)) && is_plain(
            object_of(pair_fields(fields@)),
            MAX_DEPTH as nat,
        ) ==> json_read(r@) == Ok::<JsonTree, Seq<char>>(object_of(pair_fields(fields@))),
{
    let mut out: Vec<(String, serde_json::Value)> = Vec::new();
    let mut i: usize = 0;
    while i < fields.len()
        invariant
            i <= fields@.len(),
            out@.len() == i,
            forall|k: int|
                0 <= k < i ==> (#[trigger] out@[k]).0@ == fields@[k].0@ && value_tree(out@[k].1)
                    == tree(fields@[k].1),
        decreases fields@.len() - i,
    {
        out.push((fields[i].0.clone(), to_value(&fields[i].1)));
        i = i + 1;
    }
    proof {
        assert(value_fields(out@) =~= pair_fields(fields@));
        let object = object_of(pair_fields(fields@));
        if is_plain(object, MAX_DEPTH as nat) {
            lemma_plain_nests(object, MAX_DEPTH as nat);
        }
    }
    write_fields(out)
}

/// Reads a document from its text.
pub fn parse(s: &str) -> (r: Result<Json, String>)
    ensures
        match r {
            Ok(j) => json_read(s@) == Ok::<JsonTree, Seq<char>>(j@),
            Err(m) => json_read(s@) == Err::<JsonTree, Seq<char>>(m@),
        },
{
    match read_value(s) {
        Ok(v) => Ok(from_value(v)),
        Err(m) => Err(m),
    }
}

impl Json {
    /// The compact text of the document.
    pub fn compact(&self) -> (r: String)
        ensures
            r@ == json_compact(self@),
            !r@.contains('\n'),
            nests_within(self@, MAX_DEPTH as nat) ==> json_read(r@) is Ok,
            is_plain(self@, MAX_DEPTH as nat) ==> json_read(r@) == Ok::<JsonTree, Seq<char>>(self@),
    {
        proof {
            if is_plain(self@, MAX_DEPTH as nat) {
                lemma_plain_nests(self@, MAX_DEPTH as nat);
            }
        }
        value_compact(&to_value(self))
    }

    /// The indented text of the document.
    pub fn pretty(&self) -> (r: String)
        ensures
            r@ == json_pretty(self@),
            nests_within(self@, MAX_DEPTH as nat) ==> json_read(r@) is Ok,
            is_plain(self@, MAX_DEPTH as nat) ==> json_read(r@) == Ok::<JsonTree, Seq<char>>(self@),
    {
        proof {
            if is_plain(self@, MAX_DEPTH as nat) {
                lemma_plain_nests(self@, MAX_DEPTH as nat);
            }
        }
        value_pretty(&to_value(self))
    }

    /// A text as a document.
    pub fn text(s: &str) -> (r: Json)
        ensures
            r@ == JsonTree::Str(s@),
    {
        Json::Str(s.to_string())
    }

    /// An unsigned integer as a document.
    pub fn uint(n: u64) -> (r: Json)
        ensures
            r@ == JsonTree::Number(number_of_u64(n)),
            number_as_u64(number_of_u64(n)) == Some(n),
    {
        Json::Number(make_number(n))
    }

    /// A signed integer as a document.
    pub fn sint(n: i64) -> (r: Json)
        ensures
            r@ == JsonTree::Number(number_of_i64(n)),
            number_as_i64(number_of_i64(n)) == Some(n),
    {
        Json::Number(make_signed_number(n))
    }

    /// An object without fields.
    pub fn object() -> (r: Json)
        ensures
            r@ == JsonTree::Object(Map::empty()),
    {
        let none: Vec<(String, Json)> = Vec::new();
        proof {
            assert(pairs_map(none@) == Map::<Seq<char>, JsonTree>::empty());
        }
        Json::Object(none)
    }

    /// A list of documents as a document.
    pub fn array(items: Vec<Json>) -> (r: Json)
        ensures
            r@ == JsonTree::Array(trees(items@)),
    {
        proof {
            lemma_trees(items);
        }
        Json::Array(items)
    }

    /// A list of texts as a document.
    pub fn texts(items: &Vec<String>) -> (r: Json)
        ensures
            r@ == JsonTree::Array(items@.map_values(|s: String| JsonTree::Str(s@))),
    {
        let mut out: Vec<Json> = Vec::new();
        let mut i: usize = 0;
        while i < items.len()
            invariant
                i <= items@.len(),
                out@.len() == i,
                forall|k: int|
                    0 <= k < i ==> tree(#[trigger] out@[k]) == JsonTree::Str(items@[k]@),
            decreases items@.len() - i,
        {
            out.push(Json::text(&items[i]));
            i = i + 1;
        }
        proof {
            assert(trees(out@) =~= items@.map_values(|s: String| JsonTree::Str(s@)));
        }
        Json::array(out)
    }

    /// The object with one more field, or with a field replaced.
    pub fn with(self, key: &str, value: Json) -> (r: Json)
        ensures
            self@ matches JsonTree::Object(m) ==> r@ == JsonTree::Object(m.insert(key@, value@)),
            !(self@ is Object) ==> r@ == self@,
    {
        match self {
            Json::Object(pairs) => {
                let mut p = pairs;
                let ghost before = p@;
                p.push((key.to_string(), value));
                proof {
                    assert(p@.drop_last() =~= before);
                    assert(pairs_map(p@) == pairs_map(before).insert(key@, tree(value)));
                }
                Json::Object(p)
            },
            other => other,
        }
    }

    /// The value of a field, where the document is an object that has it.
    pub fn get(&self, key: &str) -> (r: Option<&Json>)
        ensures
            opt_tree(r) == field(self@, key@),
    {
        match self {
            Json::Object(pairs) => {
                let mut i: usize = pairs.len();
                proof {
                    assert(pairs@.take(pairs@.len() as int) =~= pairs@);
                }
                while i > 0
                    invariant
                        i <= pairs@.len(),
                        *self == Json::Object(*pairs),
                        field(self@, key@) == field(
                            JsonTree::Object(pairs_map(pairs@.take(i as int))),
                            key@,
                        ),
                    decreases i,
                {
                    proof {
                        assert(pairs@.take(i as int).drop_last() =~= pairs@.take(i - 1));
                        assert(pairs@.take(i as int).last() == pairs@[i - 1]);
                    }
                    i = i - 1;
                    if same(&pairs[i].0, key) {
                        return Some(&pairs[i].1);
                    }
                }
                None
            },
            _ => None,
        }
    }

    /// The keys of the fields, where the document is an object; one that was given
    /// several times is listed as often.
    pub fn keys(&self) -> (r: Vec<String>)
        ensures
            forall|k: Seq<char>| #[trigger] views(r@).contains(k) <==> field(self@, k) is Some,
    {
        let mut out: Vec<String> = Vec::new();
        match self {
            Json::Object(pairs) => {
                let mut i: usize = 0;
                while i < pairs.len()
                    invariant
                        i <= pairs@.len(),
                        *self == Json::Object(*pairs),
                        out@.len() == i,
                        forall|k: int| 0 <= k < i ==> (#[trigger] out@[k])@ == pairs@[k].0@,
                    decreases pairs@.len() - i,
                {
                    out.push(pairs[i].0.clone());
                    i = i + 1;
                }
                proof {
                    assert(views(out@) =~= pairs@.map_values(|p: (String, Json)| p.0@));
                    assert forall|k: Seq<char>| #[trigger]
                        views(out@).contains(k) <==> field(self@, k) is Some by {
                        lemma_pairs_keys(pairs@, k);
                    }
                }
            },
            _ => {
                proof {
                    assert(views(out@).len() == 0);
                }
            },
        }
        out
    }

    /// The text of a field that holds one.
    pub fn get_str(&self, key: &str) -> (r: Option<&str>)
        ensures
            match r {
                None => field_str(self@, key@) is None,
                Some(s) => field_str(self@, key@) == Some(s@),
            },
    {
        match self.get(key) {
            Some(Json::Str(s)) => Some(s.as_str()),
            _ => None,
        }
    }

    /// The items of a field that holds an array.
    pub fn get_array(&self, key: &str) -> (r: Option<&Vec<Json>>)
        ensures
            match r {
                None => field_array(self@, key@) is None,
                Some(v) => field_array(self@, key@) == Some(trees(v@)),
            },
    {
        match self.get(key) {
            Some(Json::Array(v)) => {
                proof {
                    lemma_trees(*v);
                }
                Some(v)
            },
            _ => None,
        }
    }

    /// The unsigned integer of a field that holds one.
    pub fn get_u64(&self, key: &str) -> (r: Option<u64>)
        ensures
            r == field_u64(self@, key@),
    {
        match self.get(key) {
            Some(Json::Number(n)) => read_number(n),
            _ => None,
        }
    }

    /// The text of a document that is one.
    pub fn as_str(&self) -> (r: Option<&str>)
        ensures
            match r {
                None => !(self@ is Str),
                Some(s) => self@ == JsonTree::Str(s@),
            },
    {
        match self {
            Json::Str(s) => Some(s.as_str()),
            _ => None,
        }
    }

    /// Whether the document is of a type of JSON Schema; a type of another name
    /// fits every document.
    pub fn is_of_type(&self, name: &str) -> (r: bool)
        ensures
            r == is_of_type(self@, name@),
    {
        if same(name, "null") {
            matches!(self, Json::Null)
        } else if same(name, "boolean") {
            matches!(self, Json::Bool(_))
        } else if same(name, "number") {
            matches!(self, Json::Number(_))
        } else if same(name, "integer") {
            match self {
                Json::Number(n) => read_number(n).is_some() || read_signed_number(n).is_some(),
                _ => false,
            }
        } else if same(name, "string") {
            matches!(self, Json::Str(_))
        } else if same(name, "array") {
            matches!(self, Json::Array(_))
        } else if same(name, "object") {
            matches!(self, Json::Object(_))
        } else {
            true
        }
    }

    /// A copy of the document.
    pub fn copy(&self) -> (r: Json)
        ensures
            r@ == self@,
        decreases *self,
    {
        match self {
            Json::Null => Json::Null,
            Json::Bool(b) => Json::Bool(*b),
            Json::Number(n) => Json::Number(n.clone()),
            Json::Str(s) => Json::Str(s.clone()),
            Json::Array(items) => {
                let mut out: Vec<Json> = Vec::new();
                let mut i: usize = 0;
                while i < items.len()
                    invariant
                        i <= items@.len(),
                        out@.len() == i,
                        *self == Json::Array(*items),
                        forall|k: int| 0 <= k < i ==> tree(#[trigger] out@[k]) == tree(items@[k]),
                    decreases items@.len() - i,
                {
                    proof {
                        assert(decreases_to!(*self => self->Array_0));
                        assert(decreases_to!(*items => items@));
                        assert(decreases_to!(items@ => items@[i as int]));
                        assert(decreases_to!(items@ => items@[i as int]));
                    }
                    out.push(items[i].copy());
                    i = i + 1;
                }
                proof {
                    lemma_trees(*items);
                    lemma_trees(out);
                    assert(trees(out@) =~= trees(items@));
                }
                Json::Array(out)
            },
            Json::Object(pairs) => {
                let mut out: Vec<(String, Json)> = Vec::new();
                let mut i: usize = 0;
                while i < pairs.len()
                    invariant
                        i <= pairs@.len(),
                        *self == Json::Object(*pairs),
                        pairs_map(out@) == pairs_map(pairs@.take(i as int)),
                    decreases pairs@.len() - i,
                {
                    let ghost before = out@;
                    proof {
                        assert(decreases_to!(*self => self->Object_0));
                        assert(decreases_to!(*pairs => pairs@));
                        assert(decreases_to!(pairs@ => pairs@[i as int]));
                        assert(decreases_to!(pairs@ => pairs@[i as int].1));
                    }
                    out.push((pairs[i].0.clone(), pairs[i].1.copy()));
                    proof {
                        assert(out@.drop_last() =~= before);
                        assert(pairs@.take(i + 1).drop_last() =~= pairs@.take(i as int));
                    }
                    i = i + 1;
                }
                proof {
                    assert(pairs@.take(pairs@.len() as int) =~= pairs@);
                }
                Json::Object(out)
            },
        }
    }
}

impl Clone for Json {
    fn clone(&self) -> (r: Json)
        ensures
            r@ == self@,
    {
        self.copy()
    }
}

/// A copy of an optional document.
pub fn copy_opt(j: &Option<Json>) -> (r: Option<Json>)
    ensures
        r is Some == j is Some,
        r is Some ==> r->0@ == j->0@,
{
    match j {
        None => None,
        Some(x) => Some(x.copy()),
    }
}

} // verus!
