//! Machine-readable descriptions of a tool, generated from its manifest.
use crate::json::{
    is_plain, json_pretty, json_read, nests_within, trees, Json, JsonTree, MAX_DEPTH,
};
use crate::manifest::{
    invokes, kind_key, FileKind, FileSpec, InputKind, InputModel, InputSchema, Manifest,
};
use vstd::prelude::*;

verus! {

/// The name of an input kind as a manifest spells it.
pub open spec fn input_key(kind: InputKind) -> Seq<char> {
    match kind {
        InputKind::String => "string"@,
        InputKind::Json => "json"@,
        InputKind::Empty => "none"@,
    }
}

/// The object with one more field where there is a value for it.
pub open spec fn with_field(
    m: Map<Seq<char>, JsonTree>,
    key: Seq<char>,
    value: Option<JsonTree>,
) -> Map<Seq<char>, JsonTree> {
    match value {
        None => m,
        Some(v) => m.insert(key, v),
    }
}

/// An optional length as a document.
pub open spec fn length_tree(n: Option<usize>) -> Option<JsonTree> {
    match n {
        None => None,
        Some(n) => Some(JsonTree::Number(crate::json::number_of_u64(n as u64))),
    }
}

/// An optional text as a document.
pub open spec fn text_tree(s: Option<Seq<char>>) -> Option<JsonTree> {
    match s {
        None => None,
        Some(s) => Some(JsonTree::Str(s)),
    }
}

/// The description of the input of an endpoint.
pub open spec fn input_tree(i: InputModel) -> JsonTree {
    JsonTree::Object(
        with_field(
            with_field(
                with_field(
                    with_field(
                        Map::<Seq<char>, JsonTree>::empty().insert(
                            "type"@,
                            JsonTree::Str(input_key(i.kind)),
                        ),
                        "min_length"@,
                        length_tree(i.min_length),
                    ),
                    "max_length"@,
                    length_tree(i.max_length),
                ),
                "pattern"@,
                text_tree(i.pattern),
            ),
            "schema"@,
            i.schema,
        ),
    )
}

/// An optional list of texts as a document.
pub open spec fn texts_tree(v: Option<Vec<String>>) -> Option<JsonTree> {
    match v {
        None => None,
        Some(v) => Some(JsonTree::Array(v@.map_values(|s: String| JsonTree::Str(s@)))),
    }
}

/// An optional input as a document.
pub open spec fn opt_input_tree(i: Option<InputSchema>) -> Option<JsonTree> {
    match i {
        None => None,
        Some(i) => Some(input_tree(i@)),
    }
}

/// The description of an endpoint.
pub open spec fn endpoint_tree(f: FileSpec) -> JsonTree {
    JsonTree::Object(
        with_field(
            with_field(
                with_field(
                    Map::<Seq<char>, JsonTree>::empty().insert(
                        "name"@,
                        JsonTree::Str(f.name@),
                    ).insert("kind"@, JsonTree::Str(kind_key(f.kind))),
                    "input"@,
                    opt_input_tree(f.input),
                ),
                "state_file"@,
                text_tree(crate::text::opt_view(f.state_file)),
            ),
            "pipe"@,
            texts_tree(f.pipe),
        ),
    )
}

/// The files of a manifest that run something.
pub open spec fn endpoints_of(files: Seq<FileSpec>) -> Seq<FileSpec> {
    files.filter(|f: FileSpec| invokes(f.kind))
}

/// A text or, where there is none, another one.
pub open spec fn text_or(s: Option<String>, other: Seq<char>) -> Seq<char> {
    match s {
        None => other,
        Some(s) => s@,
    }
}

/// The description of a tool.
pub open spec fn schema_tree(m: Manifest) -> JsonTree {
    JsonTree::Object(
        Map::<Seq<char>, JsonTree>::empty().insert(
            "name"@,
            JsonTree::Str(text_or(m.name, "unknown"@)),
        ).insert("description"@, JsonTree::Str(text_or(m.description, ""@))).insert(
            "endpoints"@,
            JsonTree::Array(endpoints_of(m.files@).map_values(|f: FileSpec| endpoint_tree(f))),
        ),
    )
}

/// The schema of the arguments of an endpoint: a text where it takes input, nothing
/// otherwise.
pub open spec fn arguments_tree(takes_input: bool) -> JsonTree {
    let none = Map::<Seq<char>, JsonTree>::empty();
    JsonTree::Object(
        none.insert("type"@, JsonTree::Str("object"@)).insert(
            "properties"@,
            if takes_input {
                JsonTree::Object(
                    none.insert(
                        "input"@,
                        JsonTree::Object(none.insert("type"@, JsonTree::Str("string"@))),
                    ),
                )
            } else {
                JsonTree::Object(none)
            },
        ).insert(
            "required"@,
            JsonTree::Array(
                if takes_input {
                    seq![JsonTree::Str("input"@)]
                } else {
                    seq![]
                },
            ),
        ),
    )
}

/// The name under which an endpoint of a tool is called from outside the mount.
pub open spec fn call_name(tool: Seq<char>, endpoint: Seq<char>) -> Seq<char> {
    tool + "__"@ + endpoint
}

/// The descriptor of an endpoint for a client of the messages API.
pub open spec fn anthropic_tree(tool: Seq<char>, m: Manifest, f: FileSpec) -> JsonTree {
    JsonTree::Object(
        Map::<Seq<char>, JsonTree>::empty().insert(
            "name"@,
            JsonTree::Str(call_name(tool, f.name@)),
        ).insert(
            "description"@,
            JsonTree::Str(text_or(f.description, text_or(m.description, ""@))),
        ).insert("input_schema"@, arguments_tree(f.kind == FileKind::WriteInvoke)),
    )
}

/// The descriptors of all endpoints of a tool.
pub open spec fn anthropic_tools(tool: Seq<char>, m: Manifest) -> JsonTree {
    JsonTree::Array(
        endpoints_of(m.files@).map_values(|f: FileSpec| anthropic_tree(tool, m, f)),
    )
}

/// The description of the input of an endpoint.
fn input_json(i: &InputSchema) -> (r: Json)
    ensures
        r@ == input_tree(i@),
{
    let kind = match i.kind {
        InputKind::String => "string",
        InputKind::Json => "json",
        InputKind::Empty => "none",
    };
    let mut out = Json::object().with("type", Json::text(kind));
    if let Some(n) = i.min_length {
        out = out.with("min_length", Json::uint(n as u64));
    }
    if let Some(n) = i.max_length {
        out = out.with("max_length", Json::uint(n as u64));
    }
    if let Some(p) = &i.pattern {
        out = out.with("pattern", Json::text(p));
    }
    if let Some(s) = &i.schema {
        out = out.with("schema", s.copy());
    }
    out
}

/// The description of an endpoint.
fn endpoint_json(f: &FileSpec) -> (r: Json)
    ensures
        r@ == endpoint_tree(*f),
{
    let mut out = Json::object().with("name", Json::text(&f.name)).with(
        "kind",
        Json::text(f.kind.key()),
    );
    if let Some(i) = &f.input {
        out = out.with("input", input_json(i));
    }
    if let Some(s) = &f.state_file {
        out = out.with("state_file", Json::text(s));
    }
    if let Some(p) = &f.pipe {
        out = out.with("pipe", Json::texts(p));
    }
    out
}

/// Filtering one more item appends it or nothing.
proof fn lemma_endpoints_step(files: Seq<FileSpec>, i: int)
    requires
        0 <= i < files.len(),
    ensures
        endpoints_of(files.take(i + 1)) == (if invokes(files[i].kind) {
            endpoints_of(files.take(i)).push(files[i])
        } else {
            endpoints_of(files.take(i))
        }),
{
    reveal(Seq::filter);
    assert(files.take(i + 1).drop_last() =~= files.take(i));
    assert(files.take(i + 1).last() == files[i]);
}

/// The schema of the arguments of an endpoint.
pub fn arguments_json(takes_input: bool) -> (r: Json)
    ensures
        r@ == arguments_tree(takes_input),
{
    let mut properties = Json::object();
    let mut required: Vec<Json> = Vec::new();
    if takes_input {
        properties =
        properties.with("input", Json::object().with("type", Json::text("string")));
        required.push(Json::text("input"));
    }
    proof {
        assert(trees(required@) =~= (if takes_input {
            seq![JsonTree::Str("input"@)]
        } else {
            seq![]
        }));
    }
    Json::object().with("type", Json::text("object")).with("properties", properties).with(
        "required",
        Json::array(required),
    )
}

/// The name under which an endpoint of a tool is called from outside the mount.
pub fn call_name_of(tool: &str, endpoint: &str) -> (r: String)
    ensures
        r@ == call_name(tool@, endpoint@),
{
    let mut s = tool.to_string();
    s.push_str("__");
    s.push_str(endpoint);
    s
}

/// The machine-readable description of a tool: its name and description, and the
/// endpoints that run something, in the order of the manifest.
pub fn schema_json(manifest: &Manifest) -> (r: Json)
    ensures
        r@ == schema_tree(*manifest),
{
    let files = &manifest.files;
    let mut endpoints: Vec<Json> = Vec::new();
    let mut i: usize = 0;
    proof {
        assert(files@.take(0) =~= seq![]);
        reveal(Seq::filter);
    }
    while i < files.len()
        invariant
            i <= files@.len(),
            endpoints@.len() == endpoints_of(files@.take(i as int)).len(),
            forall|k: int|
                0 <= k < endpoints@.len() ==> crate::json::tree(#[trigger] endpoints@[k])
                    == endpoint_tree(endpoints_of(files@.take(i as int))[k]),
        decreases files@.len() - i,
    {
        proof {
            lemma_endpoints_step(files@, i as int);
        }
        if files[i].kind.runs_handler() {
            endpoints.push(endpoint_json(&files[i]));
        }
        i = i + 1;
    }
    proof {
        assert(files@.take(files@.len() as int) =~= files@);
        assert(trees(endpoints@) =~= endpoints_of(files@).map_values(
            |f: FileSpec| endpoint_tree(f),
        ));
    }
    let name = match &manifest.name {
        None => "unknown",
        Some(n) => n.as_str(),
    };
    let description = match &manifest.description {
        None => "",
        Some(d) => d.as_str(),
    };
    Json::object().with("name", Json::text(name)).with(
        "description",
        Json::text(description),
    ).with("endpoints", Json::array(endpoints))
}

/// The text of the `schema.json` of a tool.
pub fn generate_schema_json(manifest: &Manifest) -> (r: String)
    ensures
        r@ == json_pretty(schema_tree(*manifest)),
        nests_within(schema_tree(*manifest), MAX_DEPTH as nat) ==> json_read(r@) is Ok,
        is_plain(schema_tree(*manifest), MAX_DEPTH as nat) ==> json_read(r@) == Ok::<
            JsonTree,
            Seq<char>,
        >(schema_tree(*manifest)),
{
    schema_json(manifest).pretty()
}

/// The descriptors of the endpoints of a tool that run something, in the order of
/// the manifest. An endpoint without a description has that of the tool.
pub fn anthropic_json(tool_name: &str, manifest: &Manifest) -> (r: Json)
    ensures
        r@ == anthropic_tools(tool_name@, *manifest),
{
    let files = &manifest.files;
    let mut out: Vec<Json> = Vec::new();
    let mut i: usize = 0;
    proof {
        assert(files@.take(0) =~= seq![]);
        reveal(Seq::filter);
    }
    while i < files.len()
        invariant
            i <= files@.len(),
            files@ == manifest.files@,
            out@.len() == endpoints_of(files@.take(i as int)).len(),
            forall|k: int|
                0 <= k < out@.len() ==> crate::json::tree(#[trigger] out@[k]) == anthropic_tree(
                    tool_name@,
                    *manifest,
                    endpoints_of(files@.take(i as int))[k],
                ),
        decreases files@.len() - i,
    {
        proof {
            lemma_endpoints_step(files@, i as int);
        }
        if files[i].kind.runs_handler() {
            let description = match &files[i].description {
                Some(d) => d.as_str(),
                None => match &manifest.description {
                    Some(d) => d.as_str(),
                    None => "",
                },
            };
            out.push(
                Json::object().with(
                    "name",
                    Json::Str(call_name_of(tool_name, &files[i].name)),
                ).with("description", Json::text(description)).with(
                    "input_schema",
                    arguments_json(files[i].kind == FileKind::WriteInvoke),
                ),
            );
        }
        i = i + 1;
    }
    proof {
        assert(files@.take(files@.len() as int) =~= files@);
        assert(trees(out@) =~= endpoints_of(files@).map_values(
            |f: FileSpec| anthropic_tree(tool_name@, *manifest, f),
        ));
    }
    Json::array(out)
}

/// The schema of the arguments of an endpoint is plain.
pub proof fn lemma_plain_arguments(takes_input: bool)
    ensures
        is_plain(arguments_tree(takes_input), (MAX_DEPTH - 2) as nat),
{
    reveal_with_fuel(is_plain, 4);
}

proof fn lemma_plain_tools(tool: Seq<char>, m: Manifest)
    ensures
        is_plain(anthropic_tools(tool, m), MAX_DEPTH as nat),
{
    let eps = endpoints_of(m.files@);
    assert forall|i: int| 0 <= i < eps.len() implies is_plain(
        #[trigger] anthropic_tree(tool, m, eps[i]),
        (MAX_DEPTH - 1) as nat,
    ) by {
        reveal_with_fuel(is_plain, 2);
        lemma_plain_arguments(eps[i].kind == FileKind::WriteInvoke);
    }
}

/// The text of the `anthropic_tools.json` of a tool.
pub fn generate_anthropic_tools_json(tool_name: &str, manifest: &Manifest) -> (r: String)
    ensures
        r@ == json_pretty(anthropic_tools(tool_name@, *manifest)),
        json_read(r@) == Ok::<JsonTree, Seq<char>>(anthropic_tools(tool_name@, *manifest)),
{
    proof {
        lemma_plain_tools(tool_name@, *manifest);
    }
    anthropic_json(tool_name, manifest).pretty()
}

/// The descriptions of a tool leave out the files that run nothing, and every file
/// that runs something is in them.
pub proof fn schema_lists_what_runs(files: Seq<FileSpec>, f: FileSpec)
    ensures
        endpoints_of(files).contains(f) <==> files.contains(f) && invokes(f.kind),
{
    let p = |f: FileSpec| invokes(f.kind);
    broadcast use vstd::seq_lib::group_filter_ensures;

    if files.contains(f) && invokes(f.kind) {
        let i = files.index_of(f);
        lemma_filter_keeps(files, i);
    }
    if endpoints_of(files).contains(f) {
        let k = endpoints_of(files).index_of(f);
        assert(p(files.filter(p)[k]));
        lemma_filter_from(files, k);
    }
}

proof fn lemma_filter_keeps(files: Seq<FileSpec>, i: int)
    requires
        0 <= i < files.len(),
        invokes(files[i].kind),
    ensures
        endpoints_of(files).contains(files[i]),
    decreases files.len(),
{
    reveal(Seq::filter);
    let rest = files.drop_last();
    if i < rest.len() {
        lemma_filter_keeps(rest, i);
        let k = endpoints_of(rest).index_of(files[i]);
        assert(endpoints_of(files)[k] == files[i]);
    } else {
        assert(endpoints_of(files).last() == files[i]);
    }
}

proof fn lemma_filter_from(files: Seq<FileSpec>, k: int)
    requires
        0 <= k < endpoints_of(files).len(),
    ensures
        files.contains(endpoints_of(files)[k]),
    decreases files.len(),
{
    reveal(Seq::filter);
    if files.len() > 0 {
        let rest = files.drop_last();
        if k < endpoints_of(rest).len() {
            lemma_filter_from(rest, k);
            let i = rest.index_of(endpoints_of(rest)[k]);
            assert(files[i] == endpoints_of(files)[k]);
        } else {
            assert(files.last() == endpoints_of(files)[k]);
        }
    }
}

} // verus!
