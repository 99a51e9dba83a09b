//! What the documents say that a mount generates for its readers.
use crate::fs::how_to_gen::{how_to_document, how_to_env_line, how_to_file_line};
use crate::fs::schema_gen::{
    anthropic_tools, anthropic_tree, endpoint_tree, endpoints_of, input_tree, schema_tree,
};
use crate::json::{field, field_array, field_str, number_of_u64, JsonTree};
use crate::manifest::{EnvDecl, FileKind, FileSpec, InputKind, InputModel, Manifest};
use crate::registry::{
    index_line, manifest_at, prompt_endpoint_line, prompt_file_line, prompt_section, ToolModel,
    ToolRegistry,
};
use crate::text::concat;
use vstd::prelude::*;

verus! {

// ---------------------------------------------------------------------------
// The system prompt and the index
// ---------------------------------------------------------------------------

/// In the system prompt the line of a shown file says how its kind is used: one that runs
/// when it is written to is written and then read, one that runs when it is read is read.
/// A description comes behind that and changes nothing else. Hidden files and files that run
/// nothing have no line.
pub proof fn prompt_line_says_how_a_file_is_used(mount: Seq<char>, tool: Seq<char>, f: FileSpec)
    ensures
        ({
            let path = mount + "/tools/"@ + tool + "/"@ + f.name@;
            let line = prompt_file_line(mount, tool, f);
            let used = match f.kind {
                FileKind::WriteInvoke => "  echo NAME > "@ + path + " && cat "@ + path,
                _ => "  cat "@ + path,
            };
            let runs = f.kind == FileKind::WriteInvoke || f.kind == FileKind::ReadInvoke;
            &&& !f.hidden && runs && f.description is None ==> line == used + "\n"@
            &&& !f.hidden && runs && f.description is Some ==> line == used + "  # "@
                + f.description->0@ + "\n"@
            &&& f.hidden || !runs ==> line == Seq::<char>::empty()
        }),
{
    reveal_strlit("");
    let path = mount + "/tools/"@ + tool + "/"@ + f.name@;
    let line = prompt_file_line(mount, tool, f);
    if !f.hidden && f.kind == FileKind::WriteInvoke {
        let used = "  echo NAME > "@ + path + " && cat "@ + path;
        match f.description {
            None => {
                assert(line =~= used + "\n"@);
            },
            Some(d) => {
                assert(line =~= used + "  # "@ + d@ + "\n"@);
            },
        }
    } else if !f.hidden && f.kind == FileKind::ReadInvoke {
        let used = "  cat "@ + path;
        match f.description {
            None => {
                assert(line =~= used + "\n"@);
            },
            Some(d) => {
                assert(line =~= used + "  # "@ + d@ + "\n"@);
            },
        }
    } else {
        assert(line =~= Seq::<char>::empty());
    }
}

/// Two files that differ in their description alone have lines that differ in the comment
/// alone.
pub proof fn a_description_only_adds_a_comment(
    mount: Seq<char>,
    tool: Seq<char>,
    with: FileSpec,
    bare: FileSpec,
)
    requires
        with.name@ == bare.name@,
        with.kind == bare.kind,
        !with.hidden && !bare.hidden,
        with.kind == FileKind::WriteInvoke || with.kind == FileKind::ReadInvoke,
        with.description is Some,
        bare.description is None,
    ensures
        prompt_file_line(mount, tool, with) == prompt_file_line(mount, tool, bare).drop_last()
            + "  # "@ + with.description->0@ + "\n"@,
{
    reveal_strlit("\n");
    prompt_line_says_how_a_file_is_used(mount, tool, with);
    prompt_line_says_how_a_file_is_used(mount, tool, bare);
    let line = prompt_file_line(mount, tool, bare);
    let path = mount + "/tools/"@ + tool + "/"@ + bare.name@;
    let used = if bare.kind == FileKind::WriteInvoke {
        "  echo NAME > "@ + path + " && cat "@ + path
    } else {
        "  cat "@ + path
    };
    assert(line.drop_last() =~= used);
}

/// The section of a tool in the system prompt: its name and description, then, in order, the
/// lines of what its manifest declares, or of its endpoints where it has no manifest.
pub proof fn prompt_section_lists_a_tool(
    mount: Seq<char>,
    name: Seq<char>,
    tool: ToolModel,
    m: Manifest,
)
    ensures
        prompt_section(mount, name, tool, Some(m)) == "\n"@ + name + " — "@ + tool.description
            + "\n"@ + concat(
            m.files@.map_values(|f: FileSpec| prompt_file_line(mount, name, f)),
        ),
        prompt_section(mount, name, tool, None) == "\n"@ + name + " — "@ + tool.description + "\n"@
            + concat(
            tool.endpoints.map_values(
                |e: Seq<char>| "  "@ + mount + "/tools/"@ + name + "/"@ + e + "\n"@,
            ),
        ),
{
    let a = tool.endpoints.map_values(|e: Seq<char>| prompt_endpoint_line(mount, name, e));
    let b = tool.endpoints.map_values(
        |e: Seq<char>| "  "@ + mount + "/tools/"@ + name + "/"@ + e + "\n"@,
    );
    assert forall|i: int| 0 <= i < a.len() implies a[i] == b[i] by {
        assert(a[i] =~= b[i]);
    }
    assert(a =~= b);
}

/// The system prompt says where the tools are and how they are used, then has the section of
/// every tool, once and in the order of the names, with the manifest of that tool where there
/// is one.
pub proof fn prompt_has_every_tool(
    r: ToolRegistry,
    mount: Seq<char>,
    manifests: Seq<Option<Manifest>>,
    i: int,
)
    ensures
        ({
            let text = r.prompt(mount, manifests);
            let head = "Bash tools at "@ + mount
                + "/tools/. cat = read-invoke; echo X > path && cat path = write-invoke. Return only the final answer.\n"@;
            let parts = Seq::new(
                r.names().len(),
                |k: int|
                    prompt_section(
                        mount,
                        r.names()[k],
                        r@[r.names()[k]].model(),
                        if k < manifests.len() {
                            manifests[k]
                        } else {
                            None
                        },
                    ),
            );
            &&& text == head + concat(parts)
            &&& 0 <= i < parts.len() ==> exists|a: Seq<char>, b: Seq<char>|
                text == #[trigger] (head + a + parts[i] + b)
        }),
{
    let text = r.prompt(mount, manifests);
    let head = "Bash tools at "@ + mount
        + "/tools/. cat = read-invoke; echo X > path && cat path = write-invoke. Return only the final answer.\n"@;
    let parts = Seq::new(
        r.names().len(),
        |k: int|
            prompt_section(
                mount,
                r.names()[k],
                r@[r.names()[k]].model(),
                if k < manifests.len() {
                    manifests[k]
                } else {
                    None
                },
            ),
    );
    let made = Seq::new(
        r.names().len(),
        |i: int|
            prompt_section(
                mount,
                r.names()[i],
                r@[r.names()[i]].model(),
                manifest_at(manifests, i),
            ),
    );
    assert(parts =~= made);
    assert(text == head + concat(parts));
    if 0 <= i < parts.len() {
        let first = parts.take(i);
        let rest = parts.skip(i + 1);
        crate::laws::texts::concatenation_adds_up(first, seq![parts[i]], parts[i]);
        crate::laws::texts::concatenation_adds_up(first + seq![parts[i]], rest, parts[i]);
        assert(first + seq![parts[i]] + rest =~= parts);
        let a = concat(first);
        let b = concat(rest);
        assert(text =~= head + a + parts[i] + b);
    }
}

/// The line of a tool in the index has its name and its description.
pub proof fn index_line_names_and_describes(name: Seq<char>, description: Seq<char>)
    ensures
        index_line(name, description) == "- **"@ + name + "** — "@ + description,
{
}

// ---------------------------------------------------------------------------
// How-to documents
// ---------------------------------------------------------------------------

/// What a how-to document calls a kind of file.
pub open spec fn kind_word(kind: FileKind) -> Seq<char> {
    match kind {
        FileKind::ReadInvoke => "read_invoke"@,
        FileKind::Readonly => "readonly"@,
        FileKind::WriteInvoke => "write_invoke"@,
        FileKind::Passthrough => "passthrough"@,
    }
}

/// What a how-to document calls what an endpoint takes.
pub open spec fn input_word(kind: InputKind) -> Seq<char> {
    match kind {
        InputKind::Empty => "nothing (read-only endpoint)"@,
        InputKind::String => "plain text"@,
        InputKind::Json => "JSON"@,
    }
}

/// The line of a file in a how-to document: its name and kind, its handler where it has one,
/// and what it takes where that is declared.
pub proof fn how_to_line_describes_a_file(f: FileSpec)
    ensures
        ({
            let head = "- **"@ + f.name@ + "** (`"@ + kind_word(f.kind) + "`)"@;
            let line = how_to_file_line(f);
            match (f.handler, f.input) {
                (None, None) => line == head + "\n"@,
                (Some(h), None) => line == head + " — handler: `"@ + h@ + "`\n"@,
                (None, Some(i)) => line == head + ", input: "@ + input_word(i.kind) + "\n"@,
                (Some(h), Some(i)) => line == head + " — handler: `"@ + h@ + "`, input: "@
                    + input_word(i.kind) + "\n"@,
            }
        }),
{
    reveal_strlit("");
    reveal_strlit("`");
    reveal_strlit("\n");
    reveal_strlit("`\n");
    reveal_strlit(", input: ");
    reveal_strlit("`, input: ");
    let head = "- **"@ + f.name@ + "** (`"@ + kind_word(f.kind) + "`)"@;
    let line = how_to_file_line(f);
    match (f.handler, f.input) {
        (None, None) => {
            assert(line =~= head + "\n"@);
        },
        (Some(h), None) => {
            assert(line =~= head + " — handler: `"@ + h@ + "`\n"@);
        },
        (None, Some(i)) => {
            assert(line =~= head + ", input: "@ + input_word(i.kind) + "\n"@);
        },
        (Some(h), Some(i)) => {
            assert(line =~= head + " — handler: `"@ + h@ + "`, input: "@ + input_word(i.kind)
                + "\n"@);
        },
    }
}

/// The line of a variable in a how-to document: its name, what it means where that is
/// declared, and whether it is required or what it is otherwise.
pub proof fn how_to_line_describes_a_variable(e: EnvDecl)
    ensures
        ({
            let head = "- `"@ + e.name@ + "`"@ + (match e.description {
                Some(d) => " — "@ + d@,
                None => Seq::<char>::empty(),
            });
            let line = how_to_env_line(e);
            &&& e.required ==> line == head + " *(required)*\n"@
            &&& !e.required && e.default is None ==> line == head + "\n"@
            &&& !e.required && e.default is Some ==> line == head + " (default: `"@
                + e.default->0@ + "`)\n"@
        }),
{
    reveal_strlit("");
    reveal_strlit("\n");
    reveal_strlit(" *(required)*");
    reveal_strlit(" *(required)*\n");
    reveal_strlit("`)");
    reveal_strlit("`)\n");
    let head = "- `"@ + e.name@ + "`"@ + (match e.description {
        Some(d) => " — "@ + d@,
        None => Seq::<char>::empty(),
    });
    let line = how_to_env_line(e);
    if e.required {
        assert(line =~= head + " *(required)*\n"@);
    } else if e.default is None {
        assert(line =~= head + "\n"@);
    } else {
        assert(line =~= head + " (default: `"@ + e.default->0@ + "`)\n"@);
    }
}

/// A how-to document is headed by the name of the tool, then says what the tool does, what
/// files it has, and what variables it reads; what it has none of is left out.
pub proof fn how_to_has_its_parts(m: Manifest)
    ensures
        ({
            let title = "# "@ + (match m.name {
                Some(n) => n@,
                None => "this tool"@,
            }) + "\n\n"@;
            let intro = match m.description {
                Some(d) => d@ + "\n\n"@,
                None => Seq::<char>::empty(),
            };
            let files = if m.files@.len() > 0 {
                "## Files\n\n"@ + concat(m.files@.map_values(|f: FileSpec| how_to_file_line(f)))
                    + "\n"@
            } else {
                Seq::<char>::empty()
            };
            let secrets = if m.env@.len() > 0 {
                "## Required secrets\n\n"@ + concat(
                    m.env@.map_values(|e: EnvDecl| how_to_env_line(e)),
                )
            } else {
                Seq::<char>::empty()
            };
            how_to_document(m) == title + intro + files + secrets
        }),
{
    reveal_strlit("");
    assert(""@ =~= Seq::<char>::empty());
}

// ---------------------------------------------------------------------------
// Descriptions for machines
// ---------------------------------------------------------------------------

/// The description of an endpoint says its name and its kind as the manifest spells it, and
/// of its input, state file and stages what the manifest declares: no more and no less.
pub proof fn endpoint_description_says_what_is_declared(f: FileSpec)
    ensures
        field_str(endpoint_tree(f), "name"@) == Some(f.name@),
        field_str(endpoint_tree(f), "kind"@) == Some(kind_word(f.kind)),
        field(endpoint_tree(f), "input"@) is Some <==> f.input is Some,
        f.input matches Some(i) ==> field(endpoint_tree(f), "input"@) == Some(input_tree(i@)),
        field(endpoint_tree(f), "state_file"@) is Some <==> f.state_file is Some,
        f.state_file matches Some(s) ==> field_str(endpoint_tree(f), "state_file"@) == Some(s@),
        field(endpoint_tree(f), "pipe"@) is Some <==> f.pipe is Some,
        f.pipe matches Some(p) ==> field_array(endpoint_tree(f), "pipe"@) == Some(
            p@.map_values(|s: String| JsonTree::Str(s@)),
        ),
{
    lemma_field_names();
}

/// The description of an input says its type, and of its bounds, pattern and schema what is
/// declared.
pub proof fn input_description_says_what_is_declared(i: InputModel)
    ensures
        field_str(input_tree(i), "type"@) == Some(
            match i.kind {
                InputKind::Json => "json"@,
                InputKind::Empty => "none"@,
                InputKind::String => "string"@,
            },
        ),
        field(input_tree(i), "min_length"@) == (match i.min_length {
            Some(n) => Some(JsonTree::Number(number_of_u64(n as u64))),
            None => None,
        }),
        field(input_tree(i), "max_length"@) == (match i.max_length {
            Some(n) => Some(JsonTree::Number(number_of_u64(n as u64))),
            None => None,
        }),
        field(input_tree(i), "pattern"@) == (match i.pattern {
            Some(p) => Some(JsonTree::Str(p)),
            None => None,
        }),
        field(input_tree(i), "schema"@) == i.schema,
{
    lemma_input_names();
}

proof fn lemma_field_names()
    ensures
        "name"@ != "kind"@,
        "name"@ != "pipe"@,
        "kind"@ != "pipe"@,
        "input"@.len() == 5,
        "name"@.len() == 4,
        "kind"@.len() == 4,
        "pipe"@.len() == 4,
        "state_file"@.len() == 10,
{
    reveal_strlit("name");
    reveal_strlit("kind");
    reveal_strlit("input");
    reveal_strlit("state_file");
    reveal_strlit("pipe");
    assert("name"@[0] == 'n' && "kind"@[0] == 'k' && "pipe"@[0] == 'p');
}

proof fn lemma_input_names()
    ensures
        "type"@.len() == 4,
        "min_length"@ != "max_length"@,
        "min_length"@.len() == 10,
        "max_length"@.len() == 10,
        "pattern"@.len() == 7,
        "schema"@.len() == 6,
{
    reveal_strlit("type");
    reveal_strlit("min_length");
    reveal_strlit("max_length");
    reveal_strlit("pattern");
    reveal_strlit("schema");
    assert("min_length"@[1] == 'i' && "max_length"@[1] == 'a');
}

/// The description of a tool says its name and what it does, and has one entry for every
/// file that runs something, in the order of the manifest, and for no other file.
pub proof fn tool_description_has_every_endpoint(m: Manifest, i: int, f: FileSpec)
    ensures
        field_str(schema_tree(m), "name"@) == Some(
            match m.name {
                Some(n) => n@,
                None => "unknown"@,
            },
        ),
        field_str(schema_tree(m), "description"@) == Some(
            match m.description {
                Some(d) => d@,
                None => Seq::<char>::empty(),
            },
        ),
        field_array(schema_tree(m), "endpoints"@) matches Some(eps) && eps.len() == endpoints_of(
            m.files@,
        ).len() && (0 <= i < eps.len() ==> eps[i] == endpoint_tree(endpoints_of(m.files@)[i])),
        endpoints_of(m.files@.push(f)) == (if f.kind == FileKind::WriteInvoke || f.kind
            == FileKind::ReadInvoke {
            endpoints_of(m.files@).push(f)
        } else {
            endpoints_of(m.files@)
        }),
        endpoints_of(Seq::empty()) == Seq::<FileSpec>::empty(),
{
    reveal(Seq::filter);
    reveal_strlit("name");
    reveal_strlit("description");
    reveal_strlit("endpoints");
    reveal_strlit("");
    assert(""@ =~= Seq::<char>::empty());
    assert("name"@.len() == 4 && "description"@.len() == 11 && "endpoints"@.len() == 9);
    assert(m.files@.push(f).drop_last() =~= m.files@);
    assert(endpoints_of(Seq::<FileSpec>::empty()) =~= Seq::<FileSpec>::empty());
}

/// The descriptor of an endpoint for a client of the messages API: it is named after the
/// tool and the endpoint, described by itself or else by its tool, and requires the one
/// argument `input`, a text, exactly if the endpoint runs when it is written to.
pub proof fn api_descriptor_asks_for_input(tool: Seq<char>, m: Manifest, f: FileSpec)
    ensures
        ({
            let d = anthropic_tree(tool, m, f);
            let s = field(d, "input_schema"@)->0;
            &&& field_str(d, "name"@) == Some(tool + "__"@ + f.name@)
            &&& field_str(d, "description"@) == Some(
                match (f.description, m.description) {
                    (Some(own), _) => own@,
                    (None, Some(of_tool)) => of_tool@,
                    (None, None) => Seq::<char>::empty(),
                },
            )
            &&& field(d, "input_schema"@) is Some
            &&& takes_input_argument(s, f.kind == FileKind::WriteInvoke)
        }),
{
    reveal_strlit("name");
    reveal_strlit("description");
    reveal_strlit("input_schema");
    reveal_strlit("");
    assert(""@ =~= Seq::<char>::empty());
    assert("name"@.len() == 4 && "description"@.len() == 11 && "input_schema"@.len() == 12);
    lemma_arguments(f.kind == FileKind::WriteInvoke);
}

/// Whether a schema of arguments is that of an object with one required text `input`, or
/// with nothing.
pub open spec fn takes_input_argument(s: JsonTree, takes: bool) -> bool {
    &&& field_str(s, "type"@) == Some("object"@)
    &&& if takes {
        &&& field_array(s, "required"@) == Some(seq![JsonTree::Str("input"@)])
        &&& field(s, "properties"@) matches Some(p) && field(p, "input"@) matches Some(i)
            && field_str(i, "type"@) == Some("string"@)
    } else {
        &&& field_array(s, "required"@) == Some(Seq::<JsonTree>::empty())
        &&& field(s, "properties"@) == Some(
            JsonTree::Object(Map::<Seq<char>, JsonTree>::empty()),
        )
    }
}

/// The schema of the arguments of an endpoint.
pub proof fn lemma_arguments(takes: bool)
    ensures
        takes_input_argument(crate::fs::schema_gen::arguments_tree(takes), takes),
{
    reveal_strlit("type");
    reveal_strlit("properties");
    reveal_strlit("required");
    assert("type"@.len() == 4 && "properties"@.len() == 10 && "required"@.len() == 8);
    assert(seq![] =~= Seq::<JsonTree>::empty());
}

/// The descriptors of a tool are those of its endpoints, in order.
pub proof fn api_descriptors_are_in_order(tool: Seq<char>, m: Manifest, i: int)
    requires
        0 <= i < endpoints_of(m.files@).len(),
    ensures
        anthropic_tools(tool, m) matches JsonTree::Array(a) && a.len() == endpoints_of(
            m.files@,
        ).len() && a[i] == anthropic_tree(tool, m, endpoints_of(m.files@)[i]),
{
}

/// The descriptions for machines say nothing beyond that.
pub proof fn descriptions_have_no_other_fields(
    tool: Seq<char>,
    m: Manifest,
    f: FileSpec,
    i: InputModel,
    takes: bool,
    key: Seq<char>,
)
    ensures
        key != "name"@ && key != "kind"@ && key != "input"@ && key != "state_file"@ && key
            != "pipe"@ ==> field(endpoint_tree(f), key) is None,
        key != "type"@ && key != "min_length"@ && key != "max_length"@ && key != "pattern"@ && key
            != "schema"@ ==> field(input_tree(i), key) is None,
        key != "name"@ && key != "description"@ && key != "endpoints"@ ==> field(
            schema_tree(m),
            key,
        ) is None,
        key != "name"@ && key != "description"@ && key != "input_schema"@ ==> field(
            anthropic_tree(tool, m, f),
            key,
        ) is None,
        key != "type"@ && key != "properties"@ && key != "required"@ ==> field(
            crate::fs::schema_gen::arguments_tree(takes),
            key,
        ) is None,
{
}

} // verus!
