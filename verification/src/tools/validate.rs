//! Checks of the input of an endpoint against its declared schema.
use crate::error::{error_text, format_error};
use crate::json::{
    field, field_array, field_str, is_of_type, json_read, parse, tree, trees, Json, JsonTree,
};
use crate::manifest::{InputKind, InputModel, InputSchema};
use crate::number::{decimal, to_decimal};
use crate::order::{
    before, lemma_before_asymmetric, lemma_before_total, lemma_before_transitive, place, Place,
};
use crate::split::views;
use crate::text::{
    chars_of, from_utf8, from_utf8_lossy, strip_suffix, utf8_lossy, without_suffix,
};
use vstd::prelude::*;
use vstd::utf8::*;

verus! {

/// Whether the `regex` crate finds a match of a pattern in a text; `None` where
/// it refuses the pattern.
pub uninterp spec fn regex_verdict(pattern: Seq<char>, text: Seq<char>) -> Option<bool>;

/// `regex::Regex::new` and `regex::Regex::is_match`: whether the pattern is
/// refused, and otherwise whether the text holds a match of it, is determined by
/// the pattern and the text.
#[verifier::external_body]
fn regex_finds(pattern: &str, text: &str) -> (r: Option<bool>)
    ensures
        r == regex_verdict(pattern@, text@),
{
    regex::Regex::new(pattern).ok().map(|re| re.is_match(text))
}

/// The text of an input: a newline at its end, which `echo` appends, is not part
/// of it.
pub open spec fn text_of_input(input: Seq<u8>) -> Seq<char> {
    let s = utf8_lossy(input);
    match without_suffix(s, "\n"@) {
        None => s,
        Some(t) => t,
    }
}

/// A pattern that a whole text must match.
pub open spec fn anchored(pattern: Seq<char>) -> Seq<char> {
    "\\A(?:"@ + pattern + ")\\z"@
}

/// The same for a pattern that ends in a comment: the newline ends the comment.
pub open spec fn anchored_apart(pattern: Seq<char>) -> Seq<char> {
    "\\A(?:"@ + pattern + "\n)\\z"@
}

/// Whether a text as a whole matches a pattern; `None` where the pattern itself is
/// refused.
pub open spec fn whole_verdict(pattern: Seq<char>, text: Seq<char>) -> Option<bool> {
    if regex_verdict(pattern, text) is None {
        None
    } else if regex_verdict(anchored(pattern), text) is Some {
        regex_verdict(anchored(pattern), text)
    } else {
        regex_verdict(anchored_apart(pattern), text)
    }
}

/// Whether a text as a whole matches a pattern.
fn matches_whole(pattern: &str, text: &str) -> (r: Option<bool>)
    ensures
        r == whole_verdict(pattern@, text@),
{
    if regex_finds(pattern, text).is_none() {
        return None;
    }
    let mut whole = "\\A(?:".to_string();
    whole.push_str(pattern);
    let mut apart = whole.clone();
    whole.push_str(")\\z");
    match regex_finds(&whole, text) {
        Some(found) => Some(found),
        None => {
            apart.push_str("\n)\\z");
            regex_finds(&apart, text)
        },
    }
}

/// Whether a text keeps to a least length.
pub open spec fn long_enough(text: Seq<char>, min: Option<usize>) -> bool {
    min matches Some(n) ==> text.len() >= n
}

/// Whether a text keeps to a greatest length.
pub open spec fn short_enough(text: Seq<char>, max: Option<usize>) -> bool {
    max matches Some(n) ==> text.len() <= n
}

/// Whether a text as a whole matches a pattern.
pub open spec fn well_formed(text: Seq<char>, pattern: Option<Seq<char>>) -> bool {
    pattern matches Some(p) ==> whole_verdict(p, text) == Some(true)
}

/// What is wrong with a text.
pub open spec fn text_complaint(text: Seq<char>, i: InputModel) -> Seq<char> {
    if !long_enough(text, i.min_length) {
        "input too short: minimum "@ + decimal(i.min_length->0 as nat) + " characters required"@
    } else if !short_enough(text, i.max_length) {
        "input too long: maximum "@ + decimal(i.max_length->0 as nat) + " characters allowed"@
    } else if whole_verdict(i.pattern->0, text) is None {
        "invalid pattern '"@ + i.pattern->0 + "'"@
    } else {
        "input does not match pattern '"@ + i.pattern->0 + "'"@
    }
}

/// Whether a schema names a key as required.
pub open spec fn is_required(schema: JsonTree, key: Seq<char>) -> bool {
    field_array(schema, "required"@) matches Some(a) && a.contains(JsonTree::Str(key))
}

/// The type that a schema gives a key.
pub open spec fn declared_type(schema: JsonTree, key: Seq<char>) -> Option<Seq<char>> {
    match field(schema, "properties"@) {
        None => None,
        Some(p) => match field(p, key) {
            None => None,
            Some(d) => field_str(d, "type"@),
        },
    }
}

/// Whether a document lacks a key that a schema requires.
pub open spec fn lacks(doc: JsonTree, schema: JsonTree, key: Seq<char>) -> bool {
    is_required(schema, key) && field(doc, key) is None
}

/// Whether a document has a value of another type than a schema says.
pub open spec fn mistypes(doc: JsonTree, schema: JsonTree, key: Seq<char>) -> bool {
    declared_type(schema, key) matches Some(t) && field(doc, key) matches Some(v) && !is_of_type(
        v,
        t,
    )
}

/// Whether a document keeps to a schema.
pub open spec fn fits(doc: JsonTree, schema: JsonTree) -> bool {
    &&& forall|key: Seq<char>| !#[trigger] lacks(doc, schema, key)
    &&& forall|key: Seq<char>| !#[trigger] mistypes(doc, schema, key)
}

/// The first of the required keys that a document lacks.
pub open spec fn first_missing(doc: JsonTree, required: Seq<JsonTree>) -> Option<Seq<char>>
    decreases required.len(),
{
    if required.len() == 0 {
        None
    } else {
        match required[0] {
            JsonTree::Str(k) => if field(doc, k) is None {
                Some(k)
            } else {
                first_missing(doc, required.drop_first())
            },
            _ => first_missing(doc, required.drop_first()),
        }
    }
}

/// The first of the keys that a schema requires and a document lacks.
pub open spec fn missing_key(doc: JsonTree, schema: JsonTree) -> Option<Seq<char>> {
    match field_array(schema, "required"@) {
        None => None,
        Some(a) => first_missing(doc, a),
    }
}

/// Whether a key is the smallest one whose value has another type than a schema says.
pub open spec fn is_first_mistyped(doc: JsonTree, schema: JsonTree, key: Seq<char>) -> bool {
    &&& mistypes(doc, schema, key)
    &&& forall|k: Seq<char>| #[trigger] mistypes(doc, schema, k) ==> k == key || before(key, k)
}

/// What is wrong with a document: the first required key that it lacks, or else the
/// smallest key whose value has another type than the schema says.
pub open spec fn doc_complaint(doc: JsonTree, schema: JsonTree) -> Seq<char> {
    match missing_key(doc, schema) {
        Some(key) => "missing required field '"@ + key + "'"@,
        None => {
            let key = choose|key: Seq<char>| is_first_mistyped(doc, schema, key);
            "field '"@ + key + "' must be of type "@ + declared_type(schema, key)->0
        },
    }
}

/// Nothing is missing where no required key is lacked, and what is missing is lacked.
proof fn lemma_first_missing(doc: JsonTree, required: Seq<JsonTree>)
    ensures
        match first_missing(doc, required) {
            None => forall|k: Seq<char>|
                required.contains(JsonTree::Str(k)) ==> #[trigger] field(doc, k) is Some,
            Some(k) => required.contains(JsonTree::Str(k)) && field(doc, k) is None,
        },
    decreases required.len(),
{
    if required.len() > 0 {
        let rest = required.drop_first();
        lemma_first_missing(doc, rest);
        match first_missing(doc, required) {
            None => {
                assert forall|k: Seq<char>|
                    required.contains(JsonTree::Str(k)) implies #[trigger] field(doc, k) is Some by {
                    let i = required.index_of(JsonTree::Str(k));
                    if i > 0 {
                        assert(rest[i - 1] == JsonTree::Str(k));
                    }
                }
            },
            Some(k) => {
                if required[0] != JsonTree::Str(k) {
                    let i = rest.index_of(JsonTree::Str(k));
                    assert(required[i + 1] == rest[i]);
                }
            },
        }
    }
}

/// Only one key is the smallest one.
proof fn lemma_first_mistyped(doc: JsonTree, schema: JsonTree, a: Seq<char>, b: Seq<char>)
    requires
        is_first_mistyped(doc, schema, a),
        is_first_mistyped(doc, schema, b),
    ensures
        a == b,
{
    if a != b {
        lemma_before_asymmetric(a, b);
    }
}

/// Whether an endpoint takes an input.
pub open spec fn accepts(input: Seq<u8>, i: InputModel) -> bool {
    match i.kind {
        InputKind::String => {
            let text = text_of_input(input);
            long_enough(text, i.min_length) && short_enough(text, i.max_length) && well_formed(
                text,
                i.pattern,
            )
        },
        InputKind::Empty => input.len() == 0,
        InputKind::Json => valid_utf8(input) && (json_read(decode_utf8(input)) matches Ok(doc)
            && (i.schema matches Some(s) ==> fits(doc, s))),
    }
}

/// Why an endpoint does not take an input.
pub open spec fn complaint(input: Seq<u8>, i: InputModel) -> Seq<char> {
    match i.kind {
        InputKind::String => text_complaint(text_of_input(input), i),
        InputKind::Empty => "endpoint takes no input"@,
        InputKind::Json => if !valid_utf8(input) {
            "expected valid UTF-8 JSON"@
        } else {
            match json_read(decode_utf8(input)) {
                Err(e) => "expected valid JSON: "@ + e,
                Ok(doc) => doc_complaint(doc, i.schema->0),
            }
        },
    }
}

/// Checks a text against the constraints of a schema.
fn check_text(text: &str, schema: &InputSchema) -> (r: Result<(), String>)
    ensures
        r is Ok <==> long_enough(text@, schema.min_length) && short_enough(
            text@,
            schema.max_length,
        ) && well_formed(text@, schema@.pattern),
        r matches Err(m) ==> m@ == text_complaint(text@, schema@),
{
    let n: usize = chars_of(text).len();
    if let Some(min) = schema.min_length {
        if n < min {
            let mut m = "input too short: minimum ".to_string();
            m.push_str(&to_decimal(min as u64));
            m.push_str(" characters required");
            return Err(m);
        }
    }
    if let Some(max) = schema.max_length {
        if n > max {
            let mut m = "input too long: maximum ".to_string();
            m.push_str(&to_decimal(max as u64));
            m.push_str(" characters allowed");
            return Err(m);
        }
    }
    if let Some(p) = &schema.pattern {
        match matches_whole(p, text) {
            Some(true) => {},
            Some(false) => {
                let mut m = "input does not match pattern '".to_string();
                m.push_str(p);
                m.push_str("'");
                return Err(m);
            },
            None => {
                let mut m = "invalid pattern '".to_string();
                m.push_str(p);
                m.push_str("'");
                return Err(m);
            },
        }
    }
    Ok(())
}

/// The first of the keys that a schema requires and a document lacks.
fn find_missing(doc: &Json, schema: &Json) -> (r: Option<String>)
    ensures
        crate::text::opt_view(r) == missing_key(doc@, schema@),
{
    match schema.get_array("required") {
        None => None,
        Some(keys) => {
            let ghost all = trees(keys@);
            let mut i: usize = 0;
            proof {
                assert(all.skip(0) =~= all);
            }
            while i < keys.len()
                invariant
                    i <= keys@.len(),
                    all == trees(keys@),
                    field_array(schema@, "required"@) == Some(all),
                    first_missing(doc@, all) == first_missing(doc@, all.skip(i as int)),
                decreases keys@.len() - i,
            {
                proof {
                    assert(all.skip(i as int)[0] == tree(keys@[i as int]));
                    assert(all.skip(i as int).drop_first() =~= all.skip(i + 1));
                }
                if let Some(k) = keys[i].as_str() {
                    if doc.get(k).is_none() {
                        return Some(k.to_string());
                    }
                }
                i = i + 1;
            }
            None
        },
    }
}

/// Whether the value of a key has another type than a schema says.
fn is_mistyped(doc: &Json, props: &Json, key: &str) -> (r: bool)
    ensures
        forall|schema: JsonTree|
            field(schema, "properties"@) == Some(props@) ==> r == #[trigger] mistypes(
                doc@,
                schema,
                key@,
            ),
{
    match (props.get(key), doc.get(key)) {
        (Some(d), Some(v)) => match d.get_str("type") {
            Some(t) => !v.is_of_type(t),
            None => false,
        },
        _ => false,
    }
}

/// The smallest key whose value has another type than a schema says, and that type.
fn find_mistyped(doc: &Json, schema: &Json) -> (r: Option<(String, String)>)
    ensures
        match r {
            None => forall|key: Seq<char>| !#[trigger] mistypes(doc@, schema@, key),
            Some((key, t)) => is_first_mistyped(doc@, schema@, key@) && declared_type(
                schema@,
                key@,
            ) == Some(t@),
        },
{
    let props = match schema.get("properties") {
        None => {
            return None;
        },
        Some(p) => p,
    };
    let keys = props.keys();
    let ghost all = views(keys@);
    let mut best: Option<usize> = None;
    let mut i: usize = 0;
    while i < keys.len()
        invariant
            i <= keys@.len(),
            all == views(keys@),
            field(schema@, "properties"@) == Some(props@),
            match best {
                None => forall|j: int| 0 <= j < i ==> !mistypes(doc@, schema@, #[trigger] all[j]),
                Some(b) => b < i && mistypes(doc@, schema@, all[b as int]) && forall|j: int|
                    0 <= j < i && mistypes(doc@, schema@, #[trigger] all[j]) ==> all[j]
                        == all[b as int] || before(all[b as int], all[j]),
            },
        decreases keys@.len() - i,
    {
        proof {
            assert(all[i as int] == keys@[i as int]@);
        }
        if is_mistyped(doc, props, &keys[i]) {
            match best {
                None => {
                    best = Some(i);
                },
                Some(b) => {
                    proof {
                        assert(all[b as int] == keys@[b as int]@);
                        lemma_before_total(all[i as int], all[b as int]);
                    }
                    if let Place::Before = place(&keys[i], &keys[b]) {
                        proof {
                            assert forall|j: int|
                                0 <= j < i + 1 && mistypes(
                                    doc@,
                                    schema@,
                                    #[trigger] all[j],
                                ) implies all[j] == all[i as int] || before(
                                all[i as int],
                                all[j],
                            ) by {
                                if j < i && all[j] != all[b as int] {
                                    lemma_before_transitive(all[i as int], all[b as int], all[j]);
                                }
                            }
                        }
                        best = Some(i);
                    }
                },
            }
        }
        i = i + 1;
    }
    proof {
        assert forall|key: Seq<char>| #[trigger] mistypes(doc@, schema@, key) implies exists|j: int|
            0 <= j < all.len() && #[trigger] all[j] == key by {
            assert(views(keys@).contains(key));
        }
    }
    match best {
        None => None,
        Some(b) => {
            proof {
                assert(all[b as int] == keys@[b as int]@);
                assert forall|k: Seq<char>| #[trigger] mistypes(doc@, schema@, k) implies k
                    == all[b as int] || before(all[b as int], k) by {
                    let j = choose|j: int| 0 <= j < all.len() && #[trigger] all[j] == k;
                    assert(mistypes(doc@, schema@, all[j]));
                }
            }
            match props.get(&keys[b]) {
                None => None,
                Some(d) => match d.get_str("type") {
                    None => None,
                    Some(t) => Some((keys[b].clone(), t.to_string())),
                },
            }
        },
    }
}

/// Checks a document against a schema.
fn check_doc(doc: &Json, schema: &Json) -> (r: Result<(), String>)
    ensures
        r is Ok <==> fits(doc@, schema@),
        r matches Err(m) ==> m@ == doc_complaint(doc@, schema@),
{
    proof {
        if let Some(a) = field_array(schema@, "required"@) {
            lemma_first_missing(doc@, a);
        }
    }
    if let Some(k) = find_missing(doc, schema) {
        let mut m = "missing required field '".to_string();
        m.push_str(&k);
        m.push_str("'");
        proof {
            assert(lacks(doc@, schema@, k@));
        }
        return Err(m);
    }
    proof {
        assert forall|key: Seq<char>| !#[trigger] lacks(doc@, schema@, key) by {
            if is_required(schema@, key) {
                assert(field(doc@, key) is Some);
            }
        }
    }
    match find_mistyped(doc, schema) {
        None => Ok(()),
        Some((k, t)) => {
            let mut m = "field '".to_string();
            m.push_str(&k);
            m.push_str("' must be of type ");
            m.push_str(&t);
            proof {
                let key = choose|key: Seq<char>| is_first_mistyped(doc@, schema@, key);
                lemma_first_mistyped(doc@, schema@, key, k@);
            }
            Err(m)
        },
    }
}

/// Checks an input; the message says what is wrong with it.
fn check_input(input: &[u8], schema: &InputSchema) -> (r: Result<(), String>)
    ensures
        r is Ok <==> accepts(input@, schema@),
        r matches Err(m) ==> m@ == complaint(input@, schema@),
{
    match schema.kind {
        InputKind::String => {
            let s = from_utf8_lossy(input);
            match strip_suffix(&s, "\n") {
                None => check_text(&s, schema),
                Some(t) => check_text(&t, schema),
            }
        },
        InputKind::Empty => {
            if input.len() == 0 {
                Ok(())
            } else {
                Err("endpoint takes no input".to_string())
            }
        },
        InputKind::Json => {
            match from_utf8(input) {
                None => Err("expected valid UTF-8 JSON".to_string()),
                Some(s) => match parse(s) {
                    Err(e) => {
                        let mut m = "expected valid JSON: ".to_string();
                        m.push_str(&e);
                        Err(m)
                    },
                    Ok(doc) => match &schema.schema {
                        None => Ok(()),
                        Some(rules) => check_doc(&doc, rules),
                    },
                },
            }
        },
    }
}

/// Checks an input against a schema before a handler sees it. An input that the
/// schema refuses gives an error with the code `INVALID_INPUT`.
pub fn validate_input(input: &[u8], schema: &InputSchema) -> (r: Result<(), String>)
    ensures
        r is Ok <==> accepts(input@, schema@),
        r matches Err(e) ==> e@ == error_text("INVALID_INPUT"@, complaint(input@, schema@)),
{
    match check_input(input, schema) {
        Ok(_) => Ok(()),
        Err(m) => Err(format_error("INVALID_INPUT", &m)),
    }
}

/// A string schema without constraints takes every input.
pub proof fn unconstrained_text_is_accepted(input: Seq<u8>, i: InputModel)
    requires
        i.kind == InputKind::String,
        i.min_length is None,
        i.max_length is None,
        i.pattern is None,
    ensures
        accepts(input, i),
{
}

} // verus!
