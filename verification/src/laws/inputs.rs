//! Which inputs an endpoint takes, and what is said of the others.
use crate::json::{
    field, field_array, field_str, is_of_type, json_read, number_as_i64, number_as_u64, JsonTree,
};
use crate::manifest::{InputKind, InputModel};
use crate::number::decimal;
use crate::order::{before, lemma_before_asymmetric};
use crate::text::utf8_lossy;
use crate::tools::validate::{
    accepts, complaint, declared_type, doc_complaint, first_missing, fits, is_first_mistyped,
    is_required, lacks, mistypes, regex_verdict, text_of_input,
};
use vstd::prelude::*;
use vstd::utf8::*;

verus! {

/// An endpoint that takes JSON and declares no schema takes every JSON document, and
/// nothing else: whether the bytes are a text that can be read as JSON decides alone.
pub proof fn any_document_is_taken_without_a_schema(input: Seq<u8>, i: InputModel)
    requires
        i.kind == InputKind::Json,
        i.schema is None,
    ensures
        accepts(input, i) <==> valid_utf8(input) && json_read(decode_utf8(input)) is Ok,
        !valid_utf8(input) ==> complaint(input, i) == "expected valid UTF-8 JSON"@,
        valid_utf8(input) ==> (json_read(decode_utf8(input)) matches Err(e) ==> complaint(input, i)
            == "expected valid JSON: "@ + e),
{
}

/// Two inputs that are read as the same document are taken or refused together: how a
/// document is laid out, and a newline behind it, do not matter.
pub proof fn layout_of_a_document_does_not_matter(a: Seq<u8>, b: Seq<u8>, i: InputModel)
    requires
        i.kind == InputKind::Json,
        valid_utf8(a),
        valid_utf8(b),
        json_read(decode_utf8(a)) == json_read(decode_utf8(b)),
    ensures
        accepts(a, i) == accepts(b, i),
        complaint(a, i) == complaint(b, i),
{
}

/// Whether a value has the type of a name; a name that is no type fits every value.
pub open spec fn has_type(v: JsonTree, name: Seq<char>) -> bool {
    match v {
        JsonTree::Null => !is_type(name) || name == "null"@,
        JsonTree::Bool(_) => !is_type(name) || name == "boolean"@,
        JsonTree::Str(_) => !is_type(name) || name == "string"@,
        JsonTree::Array(_) => !is_type(name) || name == "array"@,
        JsonTree::Object(_) => !is_type(name) || name == "object"@,
        JsonTree::Number(n) => !is_type(name) || name == "number"@ || (name == "integer"@ && !(
        number_as_u64(n) is None && number_as_i64(n) is None)),
    }
}

/// The names of types.
pub open spec fn is_type(name: Seq<char>) -> bool {
    seq![
        "null"@,
        "boolean"@,
        "number"@,
        "integer"@,
        "string"@,
        "array"@,
        "object"@,
    ].contains(name)
}

/// A value has the one type of its form, and a number that is an integer has two.
pub proof fn values_have_the_type_of_their_form(v: JsonTree, name: Seq<char>)
    ensures
        is_of_type(v, name) <==> has_type(v, name),
{
    reveal_strlit("null");
    reveal_strlit("boolean");
    reveal_strlit("number");
    reveal_strlit("integer");
    reveal_strlit("string");
    reveal_strlit("array");
    reveal_strlit("object");
    let all = seq![
        "null"@,
        "boolean"@,
        "number"@,
        "integer"@,
        "string"@,
        "array"@,
        "object"@,
    ];
    assert(all[0] == "null"@ && all[1] == "boolean"@ && all[2] == "number"@ && all[3]
        == "integer"@ && all[4] == "string"@ && all[5] == "array"@ && all[6] == "object"@);
    assert("null"@.len() == 4 && "boolean"@.len() == 7 && "number"@.len() == 6 && "integer"@.len()
        == 7 && "string"@.len() == 6 && "array"@.len() == 5 && "object"@.len() == 6);
    assert("boolean"@[0] == 'b' && "integer"@[0] == 'i');
    assert("number"@[0] == 'n' && "string"@[0] == 's' && "object"@[0] == 'o');
    if is_type(name) {
        let k = choose|k: int| 0 <= k < all.len() && all[k] == name;
        assert(k == 0 || k == 1 || k == 2 || k == 3 || k == 4 || k == 5 || k == 6);
    }
}

/// A document is taken by a schema exactly if it has every field that the schema requires,
/// and every field whose type the schema gives has that type where it is there.
pub proof fn documents_fit_their_schema(input: Seq<u8>, i: InputModel, s: JsonTree, doc: JsonTree)
    requires
        i.kind == InputKind::Json,
        i.schema == Some(s),
        valid_utf8(input),
        json_read(decode_utf8(input)) == Ok::<JsonTree, Seq<char>>(doc),
    ensures
        accepts(input, i) <==> {
            &&& forall|a: Seq<JsonTree>, k: int, key: Seq<char>|
                field_array(s, "required"@) == Some(a) && 0 <= k < a.len() && #[trigger] a[k]
                    == JsonTree::Str(key) ==> #[trigger] field(doc, key) is Some
            &&& forall|key: Seq<char>, p: JsonTree, d: JsonTree, t: Seq<char>, v: JsonTree|
                field(s, "properties"@) == Some(p) && #[trigger] field(p, key) == Some(d)
                    && #[trigger] field_str(d, "type"@) == Some(t) && field(doc, key) == Some(v)
                    ==> #[trigger] has_type(v, t)
        },
{
    let whole = {
        &&& forall|a: Seq<JsonTree>, k: int, key: Seq<char>|
            field_array(s, "required"@) == Some(a) && 0 <= k < a.len() && #[trigger] a[k]
                == JsonTree::Str(key) ==> #[trigger] field(doc, key) is Some
        &&& forall|key: Seq<char>, p: JsonTree, d: JsonTree, t: Seq<char>, v: JsonTree|
            field(s, "properties"@) == Some(p) && #[trigger] field(p, key) == Some(d)
                && #[trigger] field_str(d, "type"@) == Some(t) && field(doc, key) == Some(v)
                ==> #[trigger] has_type(v, t)
    };
    assert(accepts(input, i) == fits(doc, s));
    if fits(doc, s) {
        assert forall|a: Seq<JsonTree>, k: int, key: Seq<char>|
            field_array(s, "required"@) == Some(a) && 0 <= k < a.len() && #[trigger] a[k]
                == JsonTree::Str(key) implies #[trigger] field(doc, key) is Some by {
            assert(a.contains(JsonTree::Str(key)));
            assert(!lacks(doc, s, key));
        }
        assert forall|key: Seq<char>, p: JsonTree, d: JsonTree, t: Seq<char>, v: JsonTree|
            field(s, "properties"@) == Some(p) && #[trigger] field(p, key) == Some(d)
                && #[trigger] field_str(d, "type"@) == Some(t) && field(doc, key) == Some(v)
            implies #[trigger] has_type(v, t) by {
            assert(declared_type(s, key) == Some(t));
            assert(!mistypes(doc, s, key));
            values_have_the_type_of_their_form(v, t);
        }
    }
    if whole {
        assert forall|key: Seq<char>| !#[trigger] lacks(doc, s, key) by {
            if is_required(s, key) {
                let a = field_array(s, "required"@)->0;
                let k = a.index_of(JsonTree::Str(key));
                assert(a[k] == JsonTree::Str(key));
                assert(field(doc, key) is Some);
            }
        }
        assert forall|key: Seq<char>| !#[trigger] mistypes(doc, s, key) by {
            if declared_type(s, key) is Some && field(doc, key) is Some {
                let p = field(s, "properties"@)->0;
                let d = field(p, key)->0;
                let t = field_str(d, "type"@)->0;
                let v = field(doc, key)->0;
                values_have_the_type_of_their_form(v, t);
                assert(has_type(v, t));
            }
        }
    }
}

/// Of the fields that are missing the first one that the schema requires is named.
pub proof fn the_first_missing_field_is_named(
    doc: JsonTree,
    s: JsonTree,
    required: Seq<JsonTree>,
    k: int,
    key: Seq<char>,
)
    requires
        field_array(s, "required"@) == Some(required),
        0 <= k < required.len(),
        required[k] == JsonTree::Str(key),
        field(doc, key) is None,
        forall|j: int, other: Seq<char>|
            0 <= j < k && #[trigger] required[j] == JsonTree::Str(other) ==> #[trigger] field(
                doc,
                other,
            ) is Some,
    ensures
        doc_complaint(doc, s) == "missing required field '"@ + key + "'"@,
{
    lemma_first_missing(doc, required, k, key);
}

proof fn lemma_first_missing(doc: JsonTree, required: Seq<JsonTree>, k: int, key: Seq<char>)
    requires
        0 <= k < required.len(),
        required[k] == JsonTree::Str(key),
        field(doc, key) is None,
        forall|j: int, other: Seq<char>|
            0 <= j < k && #[trigger] required[j] == JsonTree::Str(other) ==> #[trigger] field(
                doc,
                other,
            ) is Some,
    ensures
        first_missing(doc, required) == Some(key),
    decreases required.len(),
{
    if k > 0 {
        let rest = required.drop_first();
        assert(rest[k - 1] == required[k]);
        assert forall|j: int, other: Seq<char>|
            0 <= j < k - 1 && #[trigger] rest[j] == JsonTree::Str(other) implies #[trigger] field(
            doc,
            other,
        ) is Some by {
            assert(required[j + 1] == rest[j]);
        }
        lemma_first_missing(doc, rest, k - 1, key);
        if let JsonTree::Str(other) = required[0] {
            assert(field(doc, other) is Some);
        }
    }
}

proof fn lemma_none_missing(doc: JsonTree, required: Seq<JsonTree>)
    requires
        forall|j: int, other: Seq<char>|
            0 <= j < required.len() && #[trigger] required[j] == JsonTree::Str(other)
                ==> #[trigger] field(doc, other) is Some,
    ensures
        first_missing(doc, required) is None,
    decreases required.len(),
{
    if required.len() > 0 {
        let rest = required.drop_first();
        assert forall|j: int, other: Seq<char>|
            0 <= j < rest.len() && #[trigger] rest[j] == JsonTree::Str(
                other,
            ) implies #[trigger] field(doc, other) is Some by {
            assert(required[j + 1] == rest[j]);
        }
        lemma_none_missing(doc, rest);
        if let JsonTree::Str(other) = required[0] {
            assert(field(doc, other) is Some);
        }
    }
}

/// Where nothing is missing, the first field in the order of their names that has another
/// type than its schema gives is named, with that type.
pub proof fn the_first_mistyped_field_is_named(
    doc: JsonTree,
    s: JsonTree,
    p: JsonTree,
    key: Seq<char>,
    d: JsonTree,
    t: Seq<char>,
    v: JsonTree,
)
    requires
        field_array(s, "required"@) matches Some(required) ==> forall|j: int, other: Seq<char>|
            0 <= j < required.len() && #[trigger] required[j] == JsonTree::Str(other)
                ==> #[trigger] field(doc, other) is Some,
        field(s, "properties"@) == Some(p),
        field(p, key) == Some(d),
        field_str(d, "type"@) == Some(t),
        field(doc, key) == Some(v),
        !has_type(v, t),
        forall|other: Seq<char>|
            #[trigger] before(other, key) && field(p, other) is Some && field_str(
                field(p, other)->0,
                "type"@,
            ) is Some && field(doc, other) is Some ==> has_type(
                field(doc, other)->0,
                field_str(field(p, other)->0, "type"@)->0,
            ),
    ensures
        doc_complaint(doc, s) == "field '"@ + key + "' must be of type "@ + t,
{
    if let Some(required) = field_array(s, "required"@) {
        lemma_none_missing(doc, required);
    }
    values_have_the_type_of_their_form(v, t);
    assert(mistypes(doc, s, key));
    assert forall|k: Seq<char>| #[trigger] mistypes(doc, s, k) implies k == key || before(key, k) by {
        if k != key && !before(key, k) {
            crate::order::lemma_before_total(key, k);
            assert(before(k, key));
            values_have_the_type_of_their_form(field(doc, k)->0, declared_type(s, k)->0);
        }
    }
    assert(is_first_mistyped(doc, s, key));
    let named = choose|key: Seq<char>| is_first_mistyped(doc, s, key);
    assert(is_first_mistyped(doc, s, named));
    if named != key {
        assert(mistypes(doc, s, named));
        lemma_before_asymmetric(named, key);
    }
}

/// An endpoint that takes nothing takes no bytes, and says so.
pub proof fn nothing_is_taken_where_nothing_is_declared(input: Seq<u8>, i: InputModel)
    requires
        i.kind == InputKind::Empty,
    ensures
        accepts(input, i) <==> input == Seq::<u8>::empty(),
        complaint(input, i) == "endpoint takes no input"@,
{
    assert(input.len() == 0 ==> input =~= Seq::<u8>::empty());
}

/// Whether a text as a whole matches a pattern: the pattern stands in a group between the
/// ends of the text. Where that is no pattern although the pattern itself is one, a newline
/// closes the comment that the pattern ends with.
pub open spec fn matches_wholly(pattern: Seq<char>, text: Seq<char>) -> bool {
    let closed = regex_verdict("\\A(?:"@ + pattern + ")\\z"@, text);
    let apart = regex_verdict("\\A(?:"@ + pattern + "\n)\\z"@, text);
    regex_verdict(pattern, text) is Some && (closed == Some(true) || (closed is None && apart
        == Some(true)))
}

/// An endpoint that takes a text takes those that have at least as many characters as the
/// least number declared, at most as many as the greatest, and that match the pattern as a
/// whole. One newline behind the text is not part of it.
pub proof fn texts_are_taken_by_length_and_pattern(input: Seq<u8>, i: InputModel, text: Seq<char>)
    requires
        i.kind == InputKind::String,
        utf8_lossy(input) == text + "\n"@ || (utf8_lossy(input) == text && (text.len() > 0
            ==> text.last() != '\n')),
    ensures
        accepts(input, i) <==> {
            &&& i.min_length is Some ==> text.len() >= i.min_length->0
            &&& i.max_length is Some ==> text.len() <= i.max_length->0
            &&& i.pattern is Some ==> matches_wholly(i.pattern->0, text)
        },
        i.min_length matches Some(n) && text.len() < n ==> complaint(input, i)
            == "input too short: minimum "@ + decimal(i.min_length->0 as nat)
            + " characters required"@,
        (i.min_length matches Some(n) ==> n <= text.len()) && (i.max_length matches Some(n) && n
            < text.len()) ==> complaint(input, i) == "input too long: maximum "@ + decimal(
            i.max_length->0 as nat,
        ) + " characters allowed"@,
        (i.min_length matches Some(n) ==> n <= text.len()) && (i.max_length matches Some(n)
            ==> text.len() <= n) && i.pattern is Some && regex_verdict(i.pattern->0, text) is None
            ==> complaint(input, i) == "invalid pattern '"@ + i.pattern->0 + "'"@,
        (i.min_length matches Some(n) ==> n <= text.len()) && (i.max_length matches Some(n)
            ==> text.len() <= n) && i.pattern is Some && regex_verdict(
            "\\A(?:"@ + i.pattern->0 + ")\\z"@,
            text,
        ) == Some(false) && regex_verdict(i.pattern->0, text) is Some ==> complaint(input, i)
            == "input does not match pattern '"@ + i.pattern->0 + "'"@,
{
    reveal_strlit("\n");
    let s = utf8_lossy(input);
    if s == text + "\n"@ {
        super::texts::affixes_are_stripped(s, "\n"@, text);
    } else if "\n"@.is_suffix_of(s) {
        assert(s.subrange(s.len() - 1, s.len() as int)[0] == s.last());
        assert("\n"@[0] == '\n');
    }
    assert(text_of_input(input) == text);
}

} // verus!
