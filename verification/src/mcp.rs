//! MCP (Model Context Protocol) server: tools as MCP tools.
//!
//! JSON-RPC 2.0, one message per line.
use crate::fs::schema_gen::{
    arguments_json, arguments_tree, call_name, call_name_of, endpoint_tree, endpoints_of, schema_tree,
};
use crate::json::{
    field, field_array, field_str, is_plain, json_compact, json_read, nests_within, number_of_i64,
    parse, tree, trees, Json, JsonTree, MAX_DEPTH,
};
use crate::manifest::{invokes, FileKind, FileSpec, Manifest};
use crate::order::{
    lemma_filter_multiset, lemma_sorted_filter, lemma_sorted_once, names_of, sorted, sorted_by_name,
};
use crate::paths::{join_text, joined_text};
use crate::split::{cut_once, split_once, trim, trimmed};
use crate::text::{lemma_find_from, lemma_find_is, occurs_at, same};
use vstd::prelude::*;

verus! {

/// An object without fields.
pub open spec fn no_fields() -> Map<Seq<char>, JsonTree> {
    Map::empty()
}

/// A message with a result.
pub open spec fn rpc_ok(id: JsonTree, result: JsonTree) -> JsonTree {
    JsonTree::Object(
        no_fields().insert("jsonrpc"@, JsonTree::Str("2.0"@)).insert("id"@, id).insert(
            "result"@,
            result,
        ),
    )
}

/// A message with an error.
pub open spec fn rpc_error(id: JsonTree, code: int, message: Seq<char>) -> JsonTree {
    JsonTree::Object(
        no_fields().insert("jsonrpc"@, JsonTree::Str("2.0"@)).insert("id"@, id).insert(
            "error"@,
            JsonTree::Object(
                no_fields().insert("code"@, JsonTree::Number(number_of_i64(code as i64))).insert(
                    "message"@,
                    JsonTree::Str(message),
                ),
            ),
        ),
    )
}

/// A message with a result.
pub fn json_rpc_ok(id: Json, result: Json) -> (r: Json)
    ensures
        r@ == rpc_ok(id@, result@),
        is_plain(id@, (MAX_DEPTH - 1) as nat) && is_plain(result@, (MAX_DEPTH - 1) as nat)
            ==> is_plain(r@, MAX_DEPTH as nat),
{
    proof {
        reveal_with_fuel(is_plain, 2);
    }
    Json::object().with("jsonrpc", Json::text("2.0")).with("id", id).with("result", result)
}

/// A message with an error.
pub fn json_rpc_error(id: Json, code: i32, message: &str) -> (r: Json)
    ensures
        r@ == rpc_error(id@, code as int, message@),
        is_plain(id@, (MAX_DEPTH - 1) as nat) ==> is_plain(r@, MAX_DEPTH as nat),
{
    proof {
        reveal_with_fuel(is_plain, 3);
    }
    let error = Json::object().with("code", Json::sint(code as i64)).with(
        "message",
        Json::text(message),
    );
    Json::object().with("jsonrpc", Json::text("2.0")).with("id", id).with("error", error)
}

/// What the server says of itself.
pub open spec fn initialize_result(version: Seq<char>) -> JsonTree {
    JsonTree::Object(
        no_fields().insert("protocolVersion"@, JsonTree::Str("2024-11-05"@)).insert(
            "serverInfo"@,
            JsonTree::Object(
                no_fields().insert("name"@, JsonTree::Str("livefolders"@)).insert(
                    "version"@,
                    JsonTree::Str(version),
                ),
            ),
        ).insert(
            "capabilities"@,
            JsonTree::Object(no_fields().insert("tools"@, JsonTree::Object(no_fields()))),
        ),
    )
}

/// The answer to `initialize`.
pub fn handle_initialize(id: &Json, version: &str) -> (r: Json)
    ensures
        r@ == rpc_ok(id@, initialize_result(version@)),
        is_plain(id@, (MAX_DEPTH - 1) as nat) ==> is_plain(r@, MAX_DEPTH as nat),
{
    proof {
        reveal_with_fuel(is_plain, 4);
    }
    let info = Json::object().with("name", Json::text("livefolders")).with(
        "version",
        Json::text(version),
    );
    json_rpc_ok(
        id.copy(),
        Json::object().with("protocolVersion", Json::text("2024-11-05")).with(
            "serverInfo",
            info,
        ).with("capabilities", Json::object().with("tools", Json::object())),
    )
}

// ---------------------------------------------------------------------------
// Requests
// ---------------------------------------------------------------------------

/// What has to be done about a message.
#[derive(Debug)]
pub enum McpAction {
    /// Nothing.
    Ignore,
    /// Send this message.
    Reply(Json),
    /// List the tools and answer the request of this id.
    List(Json),
    /// Call a tool and answer the request of this id.
    Call { id: Json, name: String, arguments: Json },
}

/// What has to be done about a message, as a value.
pub enum ActionModel {
    Ignore,
    Reply(JsonTree),
    List(JsonTree),
    Call { id: JsonTree, name: Seq<char>, arguments: JsonTree },
}

impl View for McpAction {
    type V = ActionModel;

    open spec fn view(&self) -> ActionModel {
        match *self {
            McpAction::Ignore => ActionModel::Ignore,
            McpAction::Reply(j) => ActionModel::Reply(j@),
            McpAction::List(j) => ActionModel::List(j@),
            McpAction::Call { id, name, arguments } => ActionModel::Call {
                id: id@,
                name: name@,
                arguments: arguments@,
            },
        }
    }
}

/// A tree or, where there is none, another one.
pub open spec fn tree_or(t: Option<JsonTree>, other: JsonTree) -> JsonTree {
    match t {
        Some(t) => t,
        None => other,
    }
}

/// A text or, where there is none, another one.
pub open spec fn text_or(s: Option<Seq<char>>, other: Seq<char>) -> Seq<char> {
    match s {
        Some(s) => s,
        None => other,
    }
}

/// What has to be done about a call of a tool.
pub open spec fn call_action(id: JsonTree, params: JsonTree) -> ActionModel {
    match field_str(params, "name"@) {
        None => ActionModel::Reply(rpc_error(id, -32602, "Missing 'name' in params"@)),
        Some(name) => ActionModel::Call {
            id,
            name,
            arguments: tree_or(field(params, "arguments"@), JsonTree::Object(no_fields())),
        },
    }
}

/// What has to be done about a request. A request without an id is a notification:
/// one of an unknown method is ignored.
pub open spec fn request_action(req: JsonTree, version: Seq<char>) -> ActionModel {
    let id = tree_or(field(req, "id"@), JsonTree::Null);
    let method = text_or(field_str(req, "method"@), ""@);
    if method == "initialize"@ {
        ActionModel::Reply(rpc_ok(id, initialize_result(version)))
    } else if method == "notifications/initialized"@ || method == "notifications/cancelled"@ {
        ActionModel::Ignore
    } else if method == "tools/list"@ {
        ActionModel::List(id)
    } else if method == "tools/call"@ {
        call_action(id, tree_or(field(req, "params"@), JsonTree::Null))
    } else if field(req, "id"@) is None {
        ActionModel::Ignore
    } else {
        ActionModel::Reply(rpc_error(id, -32601, "Method not found: "@ + method))
    }
}

/// What has to be done about a line: blank ones are ignored, and one that is no JSON
/// is answered with an error.
pub open spec fn line_action(line: Seq<char>, version: Seq<char>) -> ActionModel {
    if trim(line).len() == 0 {
        ActionModel::Ignore
    } else {
        match json_read(line) {
            Err(e) => ActionModel::Reply(rpc_error(JsonTree::Null, -32700, "Parse error: "@ + e)),
            Ok(req) => request_action(req, version),
        }
    }
}

/// A copy of a document or, where there is none, another one.
fn json_or(j: Option<&Json>, other: Json) -> (r: Json)
    ensures
        r@ == tree_or(crate::json::opt_tree(j), other@),
{
    match j {
        Some(j) => j.copy(),
        None => other,
    }
}

/// What has to be done about a request.
pub fn handle_request(req: &Json, version: &str) -> (r: McpAction)
    ensures
        r@ == request_action(req@, version@),
{
    let id = json_or(req.get("id"), Json::Null);
    let method = match req.get_str("method") {
        Some(m) => m,
        None => "",
    };
    if same(method, "initialize") {
        McpAction::Reply(handle_initialize(&id, version))
    } else if same(method, "notifications/initialized") || same(
        method,
        "notifications/cancelled",
    ) {
        McpAction::Ignore
    } else if same(method, "tools/list") {
        McpAction::List(id)
    } else if same(method, "tools/call") {
        let params = json_or(req.get("params"), Json::Null);
        match params.get_str("name") {
            None => McpAction::Reply(json_rpc_error(id, -32602, "Missing 'name' in params")),
            Some(name) => McpAction::Call {
                id,
                name: name.to_string(),
                arguments: json_or(params.get("arguments"), Json::object()),
            },
        }
    } else if req.get("id").is_none() {
        McpAction::Ignore
    } else {
        let mut m = "Method not found: ".to_string();
        m.push_str(method);
        McpAction::Reply(json_rpc_error(id, -32601, &m))
    }
}

/// What has to be done about a line.
pub fn handle_line(line: &str, version: &str) -> (r: McpAction)
    ensures
        r@ == line_action(line@, version@),
{
    if crate::text::chars_of(&trimmed(line)).len() == 0 {
        return McpAction::Ignore;
    }
    match parse(line) {
        Err(e) => {
            let mut m = "Parse error: ".to_string();
            m.push_str(&e);
            McpAction::Reply(json_rpc_error(Json::Null, -32700, &m))
        },
        Ok(req) => handle_request(&req, version),
    }
}

/// The line that a message is sent as.
pub fn message_line(message: &Json) -> (r: String)
    ensures
        r@ == json_compact(message@) + "\n"@,
        !r@.drop_last().contains('\n'),
        nests_within(message@, MAX_DEPTH as nat) ==> json_read(r@.drop_last()) is Ok,
        is_plain(message@, MAX_DEPTH as nat) ==> json_read(r@.drop_last()) == Ok::<
            JsonTree,
            Seq<char>,
        >(message@),
{
    let mut s = message.compact();
    let ghost text = s@;
    s.push_str("\n");
    proof {
        reveal_strlit("\n");
        assert(s@.drop_last() =~= text);
    }
    s
}

/// The answer to a request for the list of tools.
pub fn handle_tools_list(id: &Json, tools: Result<Vec<Json>, String>) -> (r: Json)
    ensures
        r@ == (match tools {
            Ok(t) => rpc_ok(
                id@,
                JsonTree::Object(no_fields().insert("tools"@, JsonTree::Array(trees(t@)))),
            ),
            Err(e) => rpc_error(id@, -32603, "Internal error: "@ + e@),
        }),
{
    match tools {
        Ok(t) => json_rpc_ok(id.copy(), Json::object().with("tools", Json::array(t))),
        Err(e) => {
            let mut m = "Internal error: ".to_string();
            m.push_str(&e);
            json_rpc_error(id.copy(), -32603, &m)
        },
    }
}

/// What a call of a tool gave, as a result.
pub open spec fn call_result(text: Seq<char>, is_error: bool) -> JsonTree {
    JsonTree::Object(
        no_fields().insert(
            "content"@,
            JsonTree::Array(
                seq![
                    JsonTree::Object(
                        no_fields().insert("type"@, JsonTree::Str("text"@)).insert(
                            "text"@,
                            JsonTree::Str(text),
                        ),
                    ),
                ],
            ),
        ).insert("isError"@, JsonTree::Bool(is_error)),
    )
}

/// The answer to a call of a tool. A call that failed is answered with a result that
/// says so.
pub fn handle_tools_call(id: &Json, outcome: Result<String, String>) -> (r: Json)
    ensures
        r@ == rpc_ok(
            id@,
            match outcome {
                Ok(t) => call_result(t@, false),
                Err(e) => call_result("[ERROR] "@ + e@, true),
            },
        ),
        is_plain(id@, (MAX_DEPTH - 1) as nat) ==> is_plain(r@, MAX_DEPTH as nat),
{
    proof {
        reveal_with_fuel(is_plain, 5);
    }
    let (text, is_error) = match outcome {
        Ok(t) => (t, false),
        Err(e) => {
            let mut m = "[ERROR] ".to_string();
            m.push_str(&e);
            (m, true)
        },
    };
    let mut content: Vec<Json> = Vec::new();
    let ghost said = text@;
    content.push(Json::object().with("type", Json::text("text")).with("text", Json::Str(text)));
    proof {
        assert(trees(content@) =~= seq![
            JsonTree::Object(
                no_fields().insert("type"@, JsonTree::Str("text"@)).insert(
                    "text"@,
                    JsonTree::Str(said),
                ),
            ),
        ]);
    }
    json_rpc_ok(
        id.copy(),
        Json::object().with("content", Json::array(content)).with("isError", Json::Bool(is_error)),
    )
}

// ---------------------------------------------------------------------------
// Tool discovery
// ---------------------------------------------------------------------------

/// The message where nothing is mounted.
pub open spec fn not_mounted(mount: Seq<char>) -> Seq<char> {
    "livefolders is not mounted at '"@ + mount + "' — run 'livefolders mount' first"@
}

/// The message where nothing is mounted.
pub fn not_mounted_message(mount: &str) -> (r: String)
    ensures
        r@ == not_mounted(mount@),
{
    let mut m = "livefolders is not mounted at '".to_string();
    m.push_str(mount);
    m.push_str("' — run 'livefolders mount' first");
    m
}

/// The descriptor of an endpoint that runs something: its description is its own or
/// that of its tool.
pub open spec fn descriptor(tool: Seq<char>, schema: JsonTree, ep: JsonTree) -> Option<JsonTree> {
    match field_str(ep, "name"@) {
        None => None,
        Some(name) => {
            let kind = text_or(field_str(ep, "kind"@), ""@);
            if kind != "write_invoke"@ && kind != "read_invoke"@ {
                None
            } else {
                Some(
                    JsonTree::Object(
                        no_fields().insert("name"@, JsonTree::Str(call_name(tool, name))).insert(
                            "description"@,
                            JsonTree::Str(
                                match field_str(ep, "description"@) {
                                    Some(d) => d,
                                    None => text_or(field_str(schema, "description"@), ""@),
                                },
                            ),
                        ).insert("inputSchema"@, arguments_tree(kind == "write_invoke"@)),
                    ),
                )
            }
        },
    }
}

/// The descriptors of some endpoints of a tool, in order.
pub open spec fn descriptors(
    tool: Seq<char>,
    schema: JsonTree,
    eps: Seq<JsonTree>,
) -> Seq<JsonTree>
    decreases eps.len(),
{
    if eps.len() == 0 {
        seq![]
    } else {
        match descriptor(tool, schema, eps.last()) {
            None => descriptors(tool, schema, eps.drop_last()),
            Some(d) => descriptors(tool, schema, eps.drop_last()).push(d),
        }
    }
}

/// The descriptors that the description of a tool gives.
pub open spec fn schema_descriptors(tool: Seq<char>, schema: JsonTree) -> Seq<JsonTree> {
    match field_array(schema, "endpoints"@) {
        None => seq![],
        Some(eps) => descriptors(tool, schema, eps),
    }
}

/// The descriptors that the text of a tool's `schema.json` gives. A tool whose file is
/// missing or no JSON is skipped.
pub open spec fn text_descriptors(tool: Seq<char>, text: Option<String>) -> Seq<JsonTree> {
    match text {
        None => seq![],
        Some(t) => match json_read(t@) {
            Err(_) => seq![],
            Ok(schema) => schema_descriptors(tool, schema),
        },
    }
}

/// The descriptors of some tools, in order.
pub open spec fn all_descriptors(tools: Seq<(String, Option<String>)>) -> Seq<JsonTree>
    decreases tools.len(),
{
    if tools.len() == 0 {
        seq![]
    } else {
        all_descriptors(tools.drop_last()) + text_descriptors(tools.last().0@, tools.last().1)
    }
}

/// The descriptor of an endpoint that runs something.
fn describe(tool: &str, schema: &Json, ep: &Json) -> (r: Option<Json>)
    ensures
        match r {
            None => descriptor(tool@, schema@, ep@) is None,
            Some(d) => descriptor(tool@, schema@, ep@) == Some(d@),
        },
{
    let name = match ep.get_str("name") {
        None => {
            return None;
        },
        Some(n) => n,
    };
    let kind = match ep.get_str("kind") {
        None => "",
        Some(k) => k,
    };
    let writes: bool = same(kind, "write_invoke");
    if !writes && !same(kind, "read_invoke") {
        return None;
    }
    let description = match ep.get_str("description") {
        Some(d) => d,
        None => match schema.get_str("description") {
            Some(d) => d,
            None => "",
        },
    };
    Some(
        Json::object().with("name", Json::Str(call_name_of(tool, name))).with(
            "description",
            Json::text(description),
        ).with("inputSchema", arguments_json(writes)),
    )
}

/// The descriptors that the description of a tool gives.
pub fn describe_tool(tool: &str, schema: &Json) -> (r: Vec<Json>)
    ensures
        trees(r@) == schema_descriptors(tool@, schema@),
{
    let mut out: Vec<Json> = Vec::new();
    match schema.get_array("endpoints") {
        None => {
            proof {
                assert(trees(out@) =~= seq![]);
            }
        },
        Some(eps) => {
            let ghost all = trees(eps@);
            let mut i: usize = 0;
            proof {
                assert(all.take(0) =~= seq![]);
                assert(trees(out@) =~= seq![]);
            }
            while i < eps.len()
                invariant
                    i <= eps@.len(),
                    all == trees(eps@),
                    trees(out@) == descriptors(tool@, schema@, all.take(i as int)),
                decreases eps@.len() - i,
            {
                let ghost before = trees(out@);
                proof {
                    assert(all.take(i + 1).drop_last() =~= all.take(i as int));
                    assert(all.take(i + 1).last() == tree(eps@[i as int]));
                }
                if let Some(d) = describe(tool, schema, &eps[i]) {
                    out.push(d);
                    proof {
                        assert(trees(out@) =~= before.push(d@));
                    }
                }
                i = i + 1;
            }
            proof {
                assert(all.take(all.len() as int) =~= all);
            }
        },
    }
    out
}

/// The descriptors of some tools, in order. Each tool comes with the text of its
/// `schema.json`, where that can be read.
pub fn describe_tools(tools: &Vec<(String, Option<String>)>) -> (r: Vec<Json>)
    ensures
        trees(r@) == all_descriptors(tools@),
{
    let mut out: Vec<Json> = Vec::new();
    let mut i: usize = 0;
    proof {
        assert(tools@.take(0) =~= seq![]);
        assert(trees(out@) =~= seq![]);
    }
    while i < tools.len()
        invariant
            i <= tools@.len(),
            trees(out@) == all_descriptors(tools@.take(i as int)),
        decreases tools@.len() - i,
    {
        let ghost before = out@;
        proof {
            assert(tools@.take(i + 1).drop_last() =~= tools@.take(i as int));
            assert(tools@.take(i + 1).last() == tools@[i as int]);
        }
        let mut found: Vec<Json> = Vec::new();
        proof {
            assert(trees(found@) =~= seq![]);
        }
        if let Some(text) = &tools[i].1 {
            if let Ok(schema) = parse(text) {
                found = describe_tool(&tools[i].0, &schema);
            }
        }
        let ghost added = found@;
        out.append(&mut found);
        proof {
            assert(trees(out@) =~= trees(before) + trees(added));
        }
        i = i + 1;
    }
    proof {
        assert(tools@.take(tools@.len() as int) =~= tools@);
    }
    out
}

/// Whether some descriptors are those of the tools in the order of their names.
pub open spec fn lists_in_order(
    tools: Seq<(String, Option<String>)>,
    found: Seq<JsonTree>,
) -> bool {
    exists|s: Seq<(String, Option<String>)>| #[trigger]
        all_descriptors(s) == found && sorted(names_of(s)) && s.to_multiset()
            == tools.to_multiset()
}

/// Lists the tools of a mount, one descriptor for each endpoint, in the order of the
/// names of the tools. `tools` holds the tools with the text of their `schema.json`;
/// it is missing where nothing is mounted.
pub fn list_tools(mount: &str, tools: Option<Vec<(String, Option<String>)>>) -> (r: Result<
    Vec<Json>,
    String,
>)
    ensures
        match tools {
            None => r matches Err(m) && m@ == not_mounted(mount@),
            Some(t) => r matches Ok(v) && lists_in_order(t@, trees(v@)),
        },
{
    match tools {
        None => Err(not_mounted_message(mount)),
        Some(t) => {
            let ordered = sorted_by_name(t);
            let found = describe_tools(&ordered);
            proof {
                assert(all_descriptors(ordered@) == trees(found@));
            }
            Ok(found)
        },
    }
}

// ---------------------------------------------------------------------------
// Tool invocation
// ---------------------------------------------------------------------------

/// The names of the tool and of the endpoint that a call names.
pub fn split_tool_name(mcp_name: &str) -> (r: Result<(String, String), String>)
    ensures
        match split_once(mcp_name@, "__"@) {
            None => r matches Err(m) && m@ == "invalid tool name '"@ + mcp_name@
                + "': expected 'toolname__endpoint'"@,
            Some((t, e)) => r matches Ok(p) && p.0@ == t && p.1@ == e,
        },
{
    match cut_once(mcp_name, "__") {
        Some(p) => Ok(p),
        None => {
            let mut m = "invalid tool name '".to_string();
            m.push_str(mcp_name);
            m.push_str("': expected 'toolname__endpoint'");
            Err(m)
        },
    }
}

/// The first endpoint of a name.
pub open spec fn endpoint_named(eps: Seq<JsonTree>, name: Seq<char>) -> Option<JsonTree>
    decreases eps.len(),
{
    if eps.len() == 0 {
        None
    } else if field_str(eps[0], "name"@) == Some(name) {
        Some(eps[0])
    } else {
        endpoint_named(eps.drop_first(), name)
    }
}

/// The kind of an endpoint; one that is not described is only read.
pub open spec fn endpoint_kind(schema: JsonTree, name: Seq<char>) -> Seq<char> {
    match field_array(schema, "endpoints"@) {
        None => "read_invoke"@,
        Some(eps) => match endpoint_named(eps, name) {
            None => "read_invoke"@,
            Some(ep) => text_or(field_str(ep, "kind"@), "read_invoke"@),
        },
    }
}

/// What has to be written to an endpoint before it is read, for a call.
pub open spec fn call_input(schema: JsonTree, ep: Seq<char>, arguments: JsonTree) -> Option<
    Seq<char>,
> {
    if endpoint_kind(schema, ep) == "write_invoke"@ {
        Some(text_or(field_str(arguments, "input"@), ""@))
    } else {
        None
    }
}

/// What has to be written to an endpoint before it is read, for a call.
pub fn plan_call(schema: &Json, ep: &str, arguments: &Json) -> (r: Option<String>)
    ensures
        crate::text::opt_view(r) == call_input(schema@, ep@, arguments@),
{
    proof {
        reveal_strlit("write_invoke");
        reveal_strlit("read_invoke");
        assert("write_invoke"@.len() != "read_invoke"@.len());
    }
    let eps = match schema.get_array("endpoints") {
        None => {
            return None;
        },
        Some(e) => e,
    };
    let ghost all = trees(eps@);
    let mut i: usize = 0;
    proof {
        assert(all.skip(0) =~= all);
    }
    while i < eps.len()
        invariant
            i <= eps@.len(),
            all == trees(eps@),
            field_array(schema@, "endpoints"@) == Some(all),
            "write_invoke"@ != "read_invoke"@,
            endpoint_named(all, ep@) == endpoint_named(all.skip(i as int), ep@),
        decreases eps@.len() - i,
    {
        proof {
            assert(all.skip(i as int)[0] == tree(eps@[i as int]));
            assert(all.skip(i as int).drop_first() =~= all.skip(i + 1));
        }
        let hit: bool = match eps[i].get_str("name") {
            Some(n) => same(n, ep),
            None => false,
        };
        if hit {
            let writes: bool = match eps[i].get_str("kind") {
                Some(k) => same(k, "write_invoke"),
                None => false,
            };
            if !writes {
                return None;
            }
            return Some(
                match arguments.get_str("input") {
                    Some(s) => s.to_string(),
                    None => "".to_string(),
                },
            );
        }
        i = i + 1;
    }
    None
}

/// What a call of a tool does to the files of a mount.
#[derive(Debug)]
pub struct CallPlan {
    /// The file of the endpoint.
    pub path: String,
    /// What has to be written to it before it is read.
    pub input: Option<String>,
}

/// The directory of a tool of a mount.
pub open spec fn tool_place(mount: Seq<char>, tool: Seq<char>) -> Seq<char> {
    join_text(join_text(mount, "tools"@), tool)
}

/// Where the description of the tool that a call names stands; a call of another form names
/// none.
pub fn schema_path(mount: &str, mcp_name: &str) -> (r: Option<String>)
    ensures
        match split_once(mcp_name@, "__"@) {
            None => r is None,
            Some((tool, _)) => r matches Some(p) && p@ == join_text(
                tool_place(mount@, tool),
                "schema.json"@,
            ),
        },
{
    match cut_once(mcp_name, "__") {
        None => None,
        Some((tool, _)) => Some(
            joined_text(&joined_text(&joined_text(mount, "tools"), &tool), "schema.json"),
        ),
    }
}

/// Plans a call of a tool by its MCP name. `mounted` says whether the mount has a directory
/// of tools, `schema` is the text of the tool's `schema.json`, where that can be read.
pub fn call_tool(
    mount: &str,
    mcp_name: &str,
    mounted: bool,
    schema: Option<&str>,
    arguments: &Json,
) -> (r: Result<CallPlan, String>)
    ensures
        match split_once(mcp_name@, "__"@) {
            None => r matches Err(m) && m@ == "invalid tool name '"@ + mcp_name@
                + "': expected 'toolname__endpoint'"@,
            Some((tool, ep)) => if !mounted {
                r matches Err(m) && m@ == not_mounted(mount@)
            } else {
                match schema {
                    None => r matches Err(m) && m@ == "reading schema.json for '"@ + tool + "'"@,
                    Some(text) => match json_read(text@) {
                        Err(e) => r matches Err(m) && m@ == e,
                        Ok(t) => r matches Ok(p) && p.path@ == join_text(
                            tool_place(mount@, tool),
                            ep,
                        ) && crate::text::opt_view(p.input) == call_input(t, ep, arguments@),
                    },
                }
            },
        },
{
    let (tool, ep) = match split_tool_name(mcp_name) {
        Err(m) => {
            return Err(m);
        },
        Ok(p) => p,
    };
    if !mounted {
        return Err(not_mounted_message(mount));
    }
    let text = match schema {
        None => {
            let mut m = "reading schema.json for '".to_string();
            m.push_str(&tool);
            m.push_str("'");
            return Err(m);
        },
        Some(t) => t,
    };
    match parse(text) {
        Err(e) => Err(e),
        Ok(t) => {
            let path = joined_text(&joined_text(&joined_text(mount, "tools"), &tool), &ep);
            Ok(CallPlan { path, input: plan_call(&t, &ep, arguments) })
        },
    }
}

/// The name of a call is taken apart into the tool and the endpoint that it was made
/// of, as long as the name of the tool holds no two underscores in a row and does not
/// end with one.
pub proof fn call_names_split(tool: Seq<char>, ep: Seq<char>)
    requires
        crate::text::find(tool, "__"@) is None,
        tool.len() > 0 ==> tool.last() != '_',
    ensures
        split_once(call_name(tool, ep), "__"@) == Some((tool, ep)),
{
    reveal_strlit("__");
    let sep = "__"@;
    let whole = call_name(tool, ep);
    let k = tool.len() as int;
    assert(whole.subrange(k, k + 2) =~= sep);
    lemma_find_from(tool, sep, 0);
    assert forall|j: int| 0 <= j < k implies !occurs_at(whole, sep, j) by {
        if occurs_at(whole, sep, j) {
            assert(whole.subrange(j, j + 2)[0] == whole[j]);
            assert(whole.subrange(j, j + 2)[1] == whole[j + 1]);
            assert(whole[j] == tool[j]);
            if j + 1 < k {
                assert(whole[j + 1] == tool[j + 1]);
                assert(tool.subrange(j, j + 2) =~= sep);
                assert(occurs_at(tool, sep, j));
            }
        }
    }
    lemma_find_is(whole, sep, k);
    assert(whole.subrange(0, k) =~= tool);
    assert(whole.subrange(k + 2, whole.len() as int) =~= ep);
}

// ---------------------------------------------------------------------------
// Descriptions and descriptors
// ---------------------------------------------------------------------------

/// The keys of a description differ from each other.
proof fn lemma_keys_differ()
    ensures
        "name"@ != "kind"@,
        "name"@ != "input"@,
        "name"@ != "state_file"@,
        "name"@ != "pipe"@,
        "kind"@ != "input"@,
        "kind"@ != "state_file"@,
        "kind"@ != "pipe"@,
        "description"@ != "name"@,
        "description"@ != "kind"@,
        "description"@ != "input"@,
        "description"@ != "state_file"@,
        "description"@ != "pipe"@,
        "description"@ != "endpoints"@,
        "write_invoke"@ != "read_invoke"@,
{
    reveal_strlit("name");
    reveal_strlit("kind");
    reveal_strlit("input");
    reveal_strlit("state_file");
    reveal_strlit("pipe");
    reveal_strlit("description");
    reveal_strlit("endpoints");
    reveal_strlit("write_invoke");
    reveal_strlit("read_invoke");
    assert("name"@[0] != "kind"@[0]);
    assert("name"@[0] != "pipe"@[0]);
    assert("kind"@[0] != "pipe"@[0]);
    assert("name"@.len() == 4 && "kind"@.len() == 4 && "pipe"@.len() == 4);
    assert("input"@.len() == 5 && "state_file"@.len() == 10 && "description"@.len() == 11);
    assert("endpoints"@.len() == 9);
    assert("write_invoke"@.len() == 12 && "read_invoke"@.len() == 11);
}

/// The descriptor of a declared endpoint.
pub open spec fn endpoint_descriptor(tool: Seq<char>, m: Manifest, f: FileSpec) -> JsonTree {
    JsonTree::Object(
        no_fields().insert("name"@, JsonTree::Str(call_name(tool, f.name@))).insert(
            "description"@,
            JsonTree::Str(crate::fs::schema_gen::text_or(m.description, ""@)),
        ).insert("inputSchema"@, arguments_tree(f.kind == FileKind::WriteInvoke)),
    )
}

proof fn lemma_descriptor(tool: Seq<char>, m: Manifest, f: FileSpec)
    requires
        invokes(f.kind),
    ensures
        descriptor(tool, schema_tree(m), endpoint_tree(f)) == Some(
            endpoint_descriptor(tool, m, f),
        ),
{
    lemma_keys_differ();
    assert(field_str(endpoint_tree(f), "name"@) == Some(f.name@));
    assert(field_str(endpoint_tree(f), "kind"@) == Some(crate::manifest::kind_key(f.kind)));
    assert(field_str(endpoint_tree(f), "description"@) is None);
    assert(field_str(schema_tree(m), "description"@) == Some(
        crate::fs::schema_gen::text_or(m.description, ""@),
    ));
}

proof fn lemma_descriptors(tool: Seq<char>, m: Manifest, eps: Seq<FileSpec>)
    requires
        forall|i: int| 0 <= i < eps.len() ==> invokes((#[trigger] eps[i]).kind),
    ensures
        descriptors(tool, schema_tree(m), eps.map_values(|f: FileSpec| endpoint_tree(f)))
            == eps.map_values(|f: FileSpec| endpoint_descriptor(tool, m, f)),
    decreases eps.len(),
{
    let all = eps.map_values(|f: FileSpec| endpoint_tree(f));
    let made = eps.map_values(|f: FileSpec| endpoint_descriptor(tool, m, f));
    if eps.len() > 0 {
        let rest = eps.drop_last();
        lemma_descriptors(tool, m, rest);
        lemma_descriptor(tool, m, eps.last());
        assert(all.drop_last() =~= rest.map_values(|f: FileSpec| endpoint_tree(f)));
        assert(made =~= rest.map_values(|f: FileSpec| endpoint_descriptor(tool, m, f)).push(
            endpoint_descriptor(tool, m, eps.last()),
        ));
    } else {
        assert(made =~= seq![]);
    }
}

/// Each endpoint that runs something becomes one MCP tool, named after the tool and the
/// endpoint: the description of a tool that its manifest gives makes the descriptors of
/// its endpoints, in the order of the manifest.
pub proof fn endpoints_become_mcp_tools(tool: Seq<char>, m: Manifest)
    ensures
        schema_descriptors(tool, schema_tree(m)) == endpoints_of(m.files@).map_values(
            |f: FileSpec| endpoint_descriptor(tool, m, f),
        ),
{
    let eps = endpoints_of(m.files@);
    assert forall|i: int| 0 <= i < eps.len() implies invokes((#[trigger] eps[i]).kind) by {
        crate::fs::schema_gen::schema_lists_what_runs(m.files@, eps[i]);
        assert(eps.contains(eps[i]));
    }
    lemma_descriptors(tool, m, eps);
}

/// Whether a tool has a description that can be listed: its `schema.json` can be read, is
/// JSON and has an array of endpoints.
pub open spec fn is_usable(tool: (String, Option<String>)) -> bool {
    tool.1 matches Some(text) && json_read(text@) matches Ok(schema) && field_array(
        schema,
        "endpoints"@,
    ) is Some
}

proof fn lemma_usable(tools: Seq<(String, Option<String>)>)
    ensures
        all_descriptors(tools.filter(|t: (String, Option<String>)| is_usable(t)))
            == all_descriptors(tools),
    decreases tools.len(),
{
    reveal(Seq::filter);
    let f = |t: (String, Option<String>)| is_usable(t);
    if tools.len() > 0 {
        let rest = tools.drop_last();
        lemma_usable(rest);
        if is_usable(tools.last()) {
            assert(tools.filter(f).drop_last() =~= rest.filter(f));
        } else {
            assert(all_descriptors(tools) =~= all_descriptors(rest));
        }
    } else {
        assert(tools.filter(f) =~= tools);
    }
}

/// Tools without a usable description do not matter: a list of tools is the list of the
/// same tools without those whose `schema.json` cannot be read, is no JSON or has no array
/// of endpoints; and there is no other list of those, as long as no two tools have the
/// same name.
pub proof fn unusable_tools_do_not_matter(
    tools: Seq<(String, Option<String>)>,
    found: Seq<JsonTree>,
    other: Seq<JsonTree>,
)
    requires
        lists_in_order(tools, found),
        names_of(tools).no_duplicates(),
        lists_in_order(tools.filter(|t: (String, Option<String>)| is_usable(t)), other),
    ensures
        lists_in_order(tools.filter(|t: (String, Option<String>)| is_usable(t)), found),
        other == found,
{
    let f = |t: (String, Option<String>)| is_usable(t);
    let s = choose|s: Seq<(String, Option<String>)>| #[trigger]
        all_descriptors(s) == found && sorted(names_of(s)) && s.to_multiset()
            == tools.to_multiset();
    let kept = s.filter(f);
    lemma_usable(s);
    lemma_sorted_filter(s, f);
    lemma_filter_multiset(s, f);
    lemma_filter_multiset(tools, f);
    assert(all_descriptors(kept) == found);
    let t = choose|t: Seq<(String, Option<String>)>| #[trigger]
        all_descriptors(t) == other && sorted(names_of(t)) && t.to_multiset()
            == tools.filter(f).to_multiset();
    lemma_names_apart(tools, s);
    lemma_filter_apart(s, f);
    lemma_sorted_once(kept, t);
}

/// Different names stay different when their values are brought into another order.
proof fn lemma_names_apart<V>(a: Seq<(String, V)>, b: Seq<(String, V)>)
    requires
        names_of(a).no_duplicates(),
        a.to_multiset() == b.to_multiset(),
    ensures
        names_of(b).no_duplicates(),
{
    broadcast use vstd::seq_lib::group_to_multiset_ensures;

    assert(a.no_duplicates()) by {
        assert forall|i: int, j: int| 0 <= i < a.len() && 0 <= j < a.len() && i != j implies a[i]
            != a[j] by {
            assert(names_of(a)[i] != names_of(a)[j]);
        }
    }
    a.lemma_multiset_has_no_duplicates();
    b.lemma_multiset_has_no_duplicates_conv();
    assert forall|i: int, j: int| 0 <= i < b.len() && 0 <= j < b.len() && i != j implies names_of(
        b,
    )[i] != names_of(b)[j] by {
        assert(b[i] != b[j]);
        assert(b.contains(b[i]) && b.contains(b[j]));
        assert(b.to_multiset().count(b[i]) > 0 && b.to_multiset().count(b[j]) > 0);
        assert(a.contains(b[i]) && a.contains(b[j]));
        let k = a.index_of(b[i]);
        let m = a.index_of(b[j]);
        assert(names_of(a)[k] == b[i].0@ && names_of(a)[m] == b[j].0@);
    }
}

/// Different names stay different when some of their values are dropped.
proof fn lemma_filter_apart<V>(s: Seq<(String, V)>, f: spec_fn((String, V)) -> bool)
    requires
        names_of(s).no_duplicates(),
    ensures
        names_of(s.filter(f)).no_duplicates(),
        forall|i: int| 0 <= i < s.filter(f).len() ==> s.contains(#[trigger] s.filter(f)[i]),
    decreases s.len(),
{
    reveal(Seq::filter);
    if s.len() > 0 {
        let rest = s.drop_last();
        assert(names_of(rest) =~= names_of(s).drop_last());
        lemma_filter_apart(rest, f);
        let kept = rest.filter(f);
        let all = s.filter(f);
        assert forall|i: int| 0 <= i < all.len() implies s.contains(#[trigger] all[i]) by {
            if i < kept.len() {
                assert(all[i] == kept[i]);
                assert(rest.contains(kept[i]));
                let j = rest.index_of(kept[i]);
                assert(s[j] == all[i]);
            } else {
                assert(s[s.len() - 1] == all[i]);
            }
        }
        assert forall|i: int, j: int|
            0 <= i < all.len() && 0 <= j < all.len() && i != j implies names_of(all)[i]
            != names_of(all)[j] by {
            let lo = if i < j {
                i
            } else {
                j
            };
            let hi = if i < j {
                j
            } else {
                i
            };
            assert(all[lo] == kept[lo]);
            if hi < kept.len() {
                assert(all[hi] == kept[hi]);
                assert(names_of(kept)[lo] != names_of(kept)[hi]);
                assert(names_of(kept)[lo] == names_of(all)[lo]);
                assert(names_of(kept)[hi] == names_of(all)[hi]);
            } else {
                assert(rest.contains(kept[lo]));
                let k = rest.index_of(kept[lo]);
                assert(names_of(s)[k] == names_of(all)[lo]);
                assert(names_of(s)[s.len() - 1] == names_of(all)[hi]);
            }
        }
    }
}

/// Endpoints that cannot be listed do not matter: those without a name, or of a kind that
/// runs nothing, add no descriptor and leave the others as they are.
pub proof fn unusable_endpoints_do_not_matter(
    tool: Seq<char>,
    schema: JsonTree,
    eps: Seq<JsonTree>,
)
    ensures
        descriptors(
            tool,
            schema,
            eps.filter(|ep: JsonTree| descriptor(tool, schema, ep) is Some),
        ) == descriptors(tool, schema, eps),
    decreases eps.len(),
{
    reveal(Seq::filter);
    let f = |ep: JsonTree| descriptor(tool, schema, ep) is Some;
    if eps.len() > 0 {
        unusable_endpoints_do_not_matter(tool, schema, eps.drop_last());
        if f(eps.last()) {
            assert(eps.filter(f).drop_last() =~= eps.drop_last().filter(f));
        }
    } else {
        assert(eps.filter(f) =~= eps);
    }
}

} // verus!
