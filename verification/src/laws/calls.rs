//! What the messages of the MCP server say, and what a call of a tool does.
use super::documents::takes_input_argument;
use crate::fs::schema_gen::{endpoint_tree, endpoints_of, schema_tree};
use crate::json::{field, field_array, field_str, json_read, number_of_i64, JsonTree};
use crate::manifest::{FileKind, FileSpec, Manifest};
use crate::mcp::{
    all_descriptors, call_input, call_result, descriptor, descriptors, endpoint_descriptor,
    endpoint_named, initialize_result, line_action, not_mounted, request_action, rpc_error, rpc_ok,
    schema_descriptors, text_descriptors, tool_place, ActionModel,
};
use vstd::prelude::*;

verus! {

proof fn lemma_first_of_its_name(eps: Seq<JsonTree>, name: Seq<char>, i: int)
    requires
        0 <= i < eps.len(),
        field_str(eps[i], "name"@) == Some(name),
        forall|j: int| 0 <= j < i ==> field_str(#[trigger] eps[j], "name"@) != Some(name),
    ensures
        endpoint_named(eps, name) == Some(eps[i]),
    decreases eps.len(),
{
    if i > 0 {
        assert(field_str(eps[0], "name"@) != Some(name));
        let rest = eps.drop_first();
        assert(rest[i - 1] == eps[i]);
        assert forall|j: int| 0 <= j < i - 1 implies field_str(#[trigger] rest[j], "name"@) != Some(
            name,
        ) by {
            assert(rest[j] == eps[j + 1]);
        }
        lemma_first_of_its_name(rest, name, i - 1);
    }
}

proof fn lemma_no_such_name(eps: Seq<JsonTree>, name: Seq<char>)
    requires
        forall|j: int| 0 <= j < eps.len() ==> field_str(#[trigger] eps[j], "name"@) != Some(name),
    ensures
        endpoint_named(eps, name) is None,
    decreases eps.len(),
{
    if eps.len() > 0 {
        assert(field_str(eps[0], "name"@) != Some(name));
        let rest = eps.drop_first();
        assert forall|j: int| 0 <= j < rest.len() implies field_str(#[trigger] rest[j], "name"@)
            != Some(name) by {
            assert(rest[j] == eps[j + 1]);
        }
        lemma_no_such_name(rest, name);
    }
}

/// A call finds its endpoint wherever it is described: the first description of its name
/// decides, and the `input` argument, or nothing where there is none, is written before the
/// endpoint is read exactly if that description says `write_invoke`.
pub proof fn calls_find_their_endpoint(
    schema: JsonTree,
    eps: Seq<JsonTree>,
    ep: Seq<char>,
    i: int,
    arguments: JsonTree,
)
    requires
        field_array(schema, "endpoints"@) == Some(eps),
        0 <= i < eps.len(),
        field_str(eps[i], "name"@) == Some(ep),
        forall|j: int| 0 <= j < i ==> field_str(#[trigger] eps[j], "name"@) != Some(ep),
    ensures
        call_input(schema, ep, arguments) is Some <==> field_str(eps[i], "kind"@) == Some(
            "write_invoke"@,
        ),
        call_input(schema, ep, arguments) matches Some(text) ==> text == (match field_str(
            arguments,
            "input"@,
        ) {
            Some(s) => s,
            None => Seq::<char>::empty(),
        }),
{
    reveal_strlit("write_invoke");
    reveal_strlit("read_invoke");
    reveal_strlit("");
    assert("write_invoke"@.len() != "read_invoke"@.len());
    assert(""@ =~= Seq::<char>::empty());
    lemma_first_of_its_name(eps, ep, i);
}

/// Before an endpoint that is not described nothing is written.
pub proof fn undescribed_endpoints_are_only_read(
    schema: JsonTree,
    ep: Seq<char>,
    arguments: JsonTree,
)
    requires
        field_array(schema, "endpoints"@) matches Some(eps) ==> forall|j: int|
            0 <= j < eps.len() ==> field_str(#[trigger] eps[j], "name"@) != Some(ep),
    ensures
        call_input(schema, ep, arguments) is None,
{
    reveal_strlit("write_invoke");
    reveal_strlit("read_invoke");
    assert("write_invoke"@.len() != "read_invoke"@.len());
    if let Some(eps) = field_array(schema, "endpoints"@) {
        lemma_no_such_name(eps, ep);
    }
}

/// What a manifest declares is what a call does: of a tool whose files have different names
/// every endpoint that runs when it is written to is written to before it is read, and no
/// other one is. The descriptor of an endpoint asks for the argument that is written, and
/// its name leads back to the tool and the endpoint.
pub proof fn calls_follow_the_manifest(tool: Seq<char>, m: Manifest, i: int, arguments: JsonTree)
    requires
        0 <= i < endpoints_of(m.files@).len(),
        forall|a: int, b: int|
            0 <= a < b < endpoints_of(m.files@).len() ==> (#[trigger] endpoints_of(
                m.files@,
            )[a]).name@ != (#[trigger] endpoints_of(m.files@)[b]).name@,
    ensures
        ({
            let f = endpoints_of(m.files@)[i];
            let d = schema_descriptors(tool, schema_tree(m));
            &&& call_input(schema_tree(m), f.name@, arguments) is Some <==> f.kind
                == FileKind::WriteInvoke
            &&& i < d.len()
            &&& field_str(d[i], "name"@) == Some(tool + "__"@ + f.name@)
            &&& field_str(d[i], "description"@) == Some(
                match m.description {
                    Some(t) => t@,
                    None => Seq::<char>::empty(),
                },
            )
            &&& field(d[i], "inputSchema"@) matches Some(s) && takes_input_argument(
                s,
                call_input(schema_tree(m), f.name@, arguments) is Some,
            )
        }),
{
    let files = endpoints_of(m.files@);
    let f = files[i];
    let eps = files.map_values(|f: FileSpec| endpoint_tree(f));
    super::documents::tool_description_has_every_endpoint(m, i, f);
    assert(field_array(schema_tree(m), "endpoints"@)->0 =~= eps) by {
        assert forall|k: int| 0 <= k < files.len() implies field_array(
            schema_tree(m),
            "endpoints"@,
        )->0[k] == eps[k] by {
            super::documents::tool_description_has_every_endpoint(m, k, f);
        }
    }
    assert forall|k: int| 0 <= k < files.len() implies field_str(#[trigger] eps[k], "name"@)
        == Some(files[k].name@) by {
        super::documents::endpoint_description_says_what_is_declared(files[k]);
    }
    super::documents::endpoint_description_says_what_is_declared(f);
    assert(eps[i] == endpoint_tree(f));
    assert forall|j: int| 0 <= j < i implies field_str(#[trigger] eps[j], "name"@) != Some(
        f.name@,
    ) by {
        assert(files[j].name@ != files[i].name@);
    }
    calls_find_their_endpoint(schema_tree(m), eps, f.name@, i, arguments);
    lemma_kind_words();
    crate::mcp::endpoints_become_mcp_tools(tool, m);
    reveal_strlit("name");
    reveal_strlit("description");
    reveal_strlit("inputSchema");
    reveal_strlit("");
    assert("name"@.len() == 4 && "description"@.len() == 11 && "inputSchema"@.len() == 11);
    assert("description"@[0] == 'd' && "inputSchema"@[0] == 'i');
    assert(""@ =~= Seq::<char>::empty());
    super::documents::lemma_arguments(f.kind == FileKind::WriteInvoke);
    assert(schema_descriptors(tool, schema_tree(m))[i] == endpoint_descriptor(tool, m, f));
}

proof fn lemma_kind_words()
    ensures
        "write_invoke"@ != "read_invoke"@,
        "write_invoke"@ != "readonly"@,
        "write_invoke"@ != "passthrough"@,
{
    reveal_strlit("write_invoke");
    reveal_strlit("read_invoke");
    reveal_strlit("readonly");
    reveal_strlit("passthrough");
    assert("write_invoke"@.len() == 12 && "read_invoke"@.len() == 11);
    assert("readonly"@.len() == 8 && "passthrough"@.len() == 11);
}

/// Whether a description of an endpoint has a name and says that the endpoint runs
/// something.
pub open spec fn is_callable(ep: JsonTree) -> bool {
    field_str(ep, "name"@) is Some && (field_str(ep, "kind"@) == Some("write_invoke"@) || field_str(
        ep,
        "kind"@,
    ) == Some("read_invoke"@))
}

/// The descriptor that a client sees of an endpoint: there is one exactly if the endpoint
/// has a name and runs something. It is named after the tool and the endpoint, has the
/// endpoint's own description or else the tool's, and asks for the `input` argument exactly
/// if the endpoint is written to.
pub proof fn descriptors_say_what_to_call(tool: Seq<char>, schema: JsonTree, ep: JsonTree)
    ensures
        descriptor(tool, schema, ep) is Some <==> is_callable(ep),
        descriptor(tool, schema, ep) matches Some(d) ==> {
            &&& field_str(d, "name"@) == Some(tool + "__"@ + field_str(ep, "name"@)->0)
            &&& field_str(d, "description"@) == Some(
                match (field_str(ep, "description"@), field_str(schema, "description"@)) {
                    (Some(own), _) => own,
                    (None, Some(of_tool)) => of_tool,
                    (None, None) => Seq::<char>::empty(),
                },
            )
            &&& field(d, "inputSchema"@) matches Some(s) && takes_input_argument(
                s,
                field_str(ep, "kind"@) == Some("write_invoke"@),
            )
        },
{
    lemma_kind_words();
    reveal_strlit("write_invoke");
    reveal_strlit("read_invoke");
    reveal_strlit("name");
    reveal_strlit("description");
    reveal_strlit("inputSchema");
    reveal_strlit("");
    assert("name"@.len() == 4 && "description"@.len() == 11 && "inputSchema"@.len() == 11);
    assert("description"@[0] == 'd' && "inputSchema"@[0] == 'i');
    assert(""@ =~= Seq::<char>::empty());
    assert(""@.len() == 0 && "write_invoke"@.len() == 12 && "read_invoke"@.len() == 11);
    super::documents::lemma_arguments(true);
    super::documents::lemma_arguments(false);
}

/// The descriptors of a list of endpoints, or of a list of tools, are those of its parts,
/// one behind the other.
pub proof fn descriptors_add_up(
    tool: Seq<char>,
    schema: JsonTree,
    a: Seq<JsonTree>,
    b: Seq<JsonTree>,
    s: Seq<(String, Option<String>)>,
    t: Seq<(String, Option<String>)>,
)
    ensures
        descriptors(tool, schema, a + b) == descriptors(tool, schema, a) + descriptors(
            tool,
            schema,
            b,
        ),
        all_descriptors(s + t) == all_descriptors(s) + all_descriptors(t),
    decreases b.len() + t.len(),
{
    if b.len() > 0 {
        descriptors_add_up(tool, schema, a, b.drop_last(), s, t);
        assert((a + b).drop_last() =~= a + b.drop_last());
        assert((a + b).last() == b.last());
        assert(descriptors(tool, schema, a + b) =~= descriptors(tool, schema, a) + descriptors(
            tool,
            schema,
            b,
        ));
    } else {
        assert(a + b =~= a);
        assert(descriptors(tool, schema, a) + descriptors(tool, schema, b) =~= descriptors(
            tool,
            schema,
            a,
        ));
        if t.len() > 0 {
            descriptors_add_up(tool, schema, a, b, s, t.drop_last());
            assert((s + t).drop_last() =~= s + t.drop_last());
            assert((s + t).last() == t.last());
            assert(all_descriptors(s + t) =~= all_descriptors(s) + all_descriptors(t));
        } else {
            assert(s + t =~= s);
            assert(all_descriptors(s) + all_descriptors(t) =~= all_descriptors(s));
        }
    }
    if b.len() > 0 && t.len() == 0 {
        assert(s + t =~= s);
        assert(all_descriptors(s) + all_descriptors(t) =~= all_descriptors(s));
    }
}

/// The descriptors of one tool: those of the endpoints that its description holds; one
/// endpoint gives at most one.
pub proof fn one_tool_has_its_descriptors(
    tool: (String, Option<String>),
    schema: JsonTree,
    eps: Seq<JsonTree>,
    ep: JsonTree,
)
    requires
        tool.1 matches Some(text) && json_read(text@) == Ok::<JsonTree, Seq<char>>(schema),
        field_array(schema, "endpoints"@) == Some(eps),
    ensures
        all_descriptors(seq![tool]) == descriptors(tool.0@, schema, eps),
        descriptors(tool.0@, schema, seq![ep]) == (match descriptor(tool.0@, schema, ep) {
            Some(d) => seq![d],
            None => Seq::<JsonTree>::empty(),
        }),
{
    let one = seq![tool];
    assert(one.drop_last() =~= seq![]);
    assert(one.last() == tool);
    assert(all_descriptors(Seq::empty()) =~= Seq::<JsonTree>::empty());
    assert(all_descriptors(one) == all_descriptors(one.drop_last()) + text_descriptors(
        tool.0@,
        tool.1,
    ));
    assert(text_descriptors(tool.0@, tool.1) == descriptors(tool.0@, schema, eps));
    assert(all_descriptors(one) =~= descriptors(tool.0@, schema, eps));
    let single = seq![ep];
    assert(single.drop_last() =~= seq![]);
    assert(single.last() == ep);
    assert(descriptors(tool.0@, schema, Seq::empty()) =~= Seq::<JsonTree>::empty());
    assert(descriptors(tool.0@, schema, single.drop_last()) =~= Seq::<JsonTree>::empty());
    assert(descriptors(tool.0@, schema, single) =~= (match descriptor(tool.0@, schema, ep) {
        Some(d) => seq![d],
        None => Seq::<JsonTree>::empty(),
    }));
}

// ---------------------------------------------------------------------------
// Messages
// ---------------------------------------------------------------------------

/// Whether a message is an answer with a result.
pub open spec fn answers_with(t: JsonTree, id: JsonTree, result: JsonTree) -> bool {
    &&& field_str(t, "jsonrpc"@) == Some("2.0"@)
    &&& field(t, "id"@) == Some(id)
    &&& field(t, "result"@) == Some(result)
    &&& field(t, "error"@) is None
}

/// Whether a message is an answer with an error.
pub open spec fn refuses_with(t: JsonTree, id: JsonTree, code: int, message: Seq<char>) -> bool {
    &&& field_str(t, "jsonrpc"@) == Some("2.0"@)
    &&& field(t, "id"@) == Some(id)
    &&& field(t, "result"@) is None
    &&& field(t, "error"@) matches Some(e) && field(e, "code"@) == Some(
        JsonTree::Number(number_of_i64(code as i64)),
    ) && field_str(e, "message"@) == Some(message)
}

proof fn lemma_message_keys()
    ensures
        "jsonrpc"@.len() == 7,
        "id"@.len() == 2,
        "result"@.len() == 6,
        "error"@.len() == 5,
        "code"@.len() == 4,
        "message"@.len() == 7,
{
    reveal_strlit("jsonrpc");
    reveal_strlit("id");
    reveal_strlit("result");
    reveal_strlit("error");
    reveal_strlit("code");
    reveal_strlit("message");
}

/// An answer carries the number of its request and either a result or an error, never both.
pub proof fn answers_carry_their_request(
    id: JsonTree,
    result: JsonTree,
    code: i32,
    message: Seq<char>,
)
    ensures
        answers_with(rpc_ok(id, result), id, result),
        refuses_with(rpc_error(id, code as int, message), id, code as int, message),
{
    lemma_message_keys();
}

proof fn lemma_methods()
    ensures
        "initialize"@.len() == 10,
        "notifications/initialized"@.len() == 25,
        "notifications/cancelled"@.len() == 23,
        "tools/list"@.len() == 10,
        "tools/call"@.len() == 10,
        "initialize"@[0] == 'i',
        "tools/list"@[0] == 't',
        "tools/call"@[0] == 't',
        "tools/list"@[6] == 'l',
        "tools/call"@[6] == 'c',
        ""@ == Seq::<char>::empty(),
{
    reveal_strlit("initialize");
    reveal_strlit("notifications/initialized");
    reveal_strlit("notifications/cancelled");
    reveal_strlit("tools/list");
    reveal_strlit("tools/call");
    reveal_strlit("");
    assert(""@ =~= Seq::<char>::empty());
}

/// What is done with a request of each method. A request without a number has `null` for
/// one; one with an unknown method and without a number is not answered.
pub proof fn requests_are_answered_by_method(req: JsonTree, version: Seq<char>, method: Seq<char>)
    requires
        field_str(req, "method"@) == Some(method),
    ensures
        ({
            let id = match field(req, "id"@) {
                Some(i) => i,
                None => JsonTree::Null,
            };
            let done = request_action(req, version);
            &&& method == "initialize"@ ==> (done matches ActionModel::Reply(t) && answers_with(
                t,
                id,
                initialize_result(version),
            ))
            &&& method == "tools/list"@ ==> done == ActionModel::List(id)
            &&& method == "notifications/initialized"@ || method == "notifications/cancelled"@
                ==> done == ActionModel::Ignore
            &&& method == "tools/call"@ ==> match field(req, "params"@) {
                None => done matches ActionModel::Reply(t) && refuses_with(
                    t,
                    id,
                    -32602,
                    "Missing 'name' in params"@,
                ),
                Some(params) => match field_str(params, "name"@) {
                    None => done matches ActionModel::Reply(t) && refuses_with(
                        t,
                        id,
                        -32602,
                        "Missing 'name' in params"@,
                    ),
                    Some(name) => done == (ActionModel::Call {
                        id,
                        name,
                        arguments: match field(params, "arguments"@) {
                            Some(a) => a,
                            None => JsonTree::Object(Map::empty()),
                        },
                    }),
                },
            }
            &&& method != "initialize"@ && method != "tools/list"@ && method != "tools/call"@
                && method != "notifications/initialized"@ && method != "notifications/cancelled"@
                ==> match field(req, "id"@) {
                None => done == ActionModel::Ignore,
                Some(_) => done matches ActionModel::Reply(t) && refuses_with(
                    t,
                    id,
                    -32601,
                    "Method not found: "@ + method,
                ),
            }
        }),
{
    lemma_methods();
    lemma_message_keys();
}

/// A request without a method is answered like one of an unknown method.
pub proof fn requests_without_a_method_are_refused(req: JsonTree, version: Seq<char>)
    requires
        field_str(req, "method"@) is None,
    ensures
        match field(req, "id"@) {
            None => request_action(req, version) == ActionModel::Ignore,
            Some(id) => request_action(req, version) matches ActionModel::Reply(t)
                && refuses_with(t, id, -32601, "Method not found: "@),
        },
{
    lemma_methods();
    lemma_message_keys();
    assert("Method not found: "@ + Seq::<char>::empty() =~= "Method not found: "@);
}

/// A line of white space is passed over, a line that is no JSON is answered with an error
/// that has no request, and any other line is the request that it holds.
pub proof fn lines_are_requests(line: Seq<char>, version: Seq<char>)
    ensures
        super::texts::blank(line) ==> line_action(line, version) == ActionModel::Ignore,
        !super::texts::blank(line) ==> match json_read(line) {
            Ok(req) => line_action(line, version) == request_action(req, version),
            Err(e) => line_action(line, version) matches ActionModel::Reply(t) && refuses_with(
                t,
                JsonTree::Null,
                -32700,
                "Parse error: "@ + e,
            ),
        },
{
    super::texts::trimming_takes_white_space_only(line);
    lemma_message_keys();
}

/// The answer to a client that starts: which protocol is spoken, who speaks, and that there
/// are tools.
pub proof fn greeting_names_the_server(version: Seq<char>)
    ensures
        ({
            let t = initialize_result(version);
            &&& field_str(t, "protocolVersion"@) == Some("2024-11-05"@)
            &&& field(t, "serverInfo"@) matches Some(s) && field_str(s, "name"@) == Some(
                "livefolders"@,
            ) && field_str(s, "version"@) == Some(version)
            &&& field(t, "capabilities"@) matches Some(c) && field(c, "tools"@) is Some
        }),
{
    reveal_strlit("protocolVersion");
    reveal_strlit("serverInfo");
    reveal_strlit("capabilities");
    reveal_strlit("name");
    reveal_strlit("version");
    assert("protocolVersion"@.len() == 15 && "serverInfo"@.len() == 10 && "capabilities"@.len()
        == 12);
    assert("name"@.len() == 4 && "version"@.len() == 7);
}

/// The result of a call is one text, as it is, with a mark that says whether the call failed.
pub proof fn call_results_hold_the_text(text: Seq<char>, failed: bool)
    ensures
        field_array(call_result(text, failed), "content"@) matches Some(c) && c.len() == 1
            && field_str(c[0], "type"@) == Some("text"@) && field_str(c[0], "text"@) == Some(text),
        field(call_result(text, failed), "isError"@) == Some(JsonTree::Bool(failed)),
{
    reveal_strlit("content");
    reveal_strlit("isError");
    reveal_strlit("type");
    reveal_strlit("text");
    assert("content"@[0] == 'c' && "isError"@[0] == 'i');
    assert("type"@[1] == 'y' && "text"@[1] == 'e');
}

/// The message where nothing is mounted names the mount.
pub proof fn the_missing_mount_is_named(mount: Seq<char>)
    ensures
        not_mounted(mount) == "livefolders is not mounted at '"@ + mount
            + "' — run 'livefolders mount' first"@,
{
}

/// The directory of a tool lies in the directory of tools of its mount.
pub proof fn tools_lie_below_their_mount(mount: Seq<char>, tool: Seq<char>)
    requires
        mount.len() > 0,
        mount.last() != '/',
        tool.len() == 0 || tool[0] != '/',
    ensures
        tool_place(mount, tool) == mount + "/tools/"@ + tool,
{
    reveal_strlit("tools");
    reveal_strlit("/tools/");
    super::texts::paths_are_joined_by_one_slash(mount, "tools"@);
    let dir = mount + seq!['/'] + "tools"@;
    assert(dir.last() == 's');
    super::texts::paths_are_joined_by_one_slash(dir, tool);
    assert("/tools/"@ =~= seq!['/'] + "tools"@ + seq!['/']);
    assert(dir + seq!['/'] + tool =~= mount + "/tools/"@ + tool);
}

/// The messages say nothing beyond that.
pub proof fn messages_have_no_other_fields(
    id: JsonTree,
    result: JsonTree,
    code: int,
    message: Seq<char>,
    failed: bool,
    tool: Seq<char>,
    ep: JsonTree,
    key: Seq<char>,
)
    ensures
        key != "jsonrpc"@ && key != "id"@ && key != "result"@ ==> field(
            rpc_ok(id, result),
            key,
        ) is None,
        key != "jsonrpc"@ && key != "id"@ && key != "error"@ ==> field(
            rpc_error(id, code, message),
            key,
        ) is None,
        key != "content"@ && key != "isError"@ ==> field(call_result(message, failed), key) is None,
        key != "protocolVersion"@ && key != "serverInfo"@ && key != "capabilities"@ ==> field(
            initialize_result(message),
            key,
        ) is None,
        key != "name"@ && key != "description"@ && key != "inputSchema"@ ==> (descriptor(
            tool,
            result,
            ep,
        ) matches Some(d) ==> field(d, key) is None),
{
}

} // verus!
