//! What the proxy and its clients say to each other, and what a client says to a server.
use super::texts::blank;
use crate::json::{
    field, field_array, field_str, json_compact, json_read, number_of_u64, JsonTree,
};
use crate::mcp_proxy::client::{
    answer_in, answer_text, call_params, first_text, initialize_params, initialized_tree, request,
    ClientAction, ClientEvent, ClientPhase, McpClient,
};
use crate::mcp_proxy::server_pool::not_registered;
use crate::mcp_proxy::socket_protocol::{
    answered, request_fields, request_of, requested, response_fields, response_of, RequestModel,
    ResponseModel,
};
use crate::split::trim;
use vstd::prelude::*;

verus! {

// ---------------------------------------------------------------------------
// Requests and answers of the proxy
// ---------------------------------------------------------------------------

proof fn lemma_operations()
    ensures
        "call"@.len() == 4 && "call"@[0] == 'c',
        "stop"@.len() == 4 && "stop"@[0] == 's',
        "status"@.len() == 6,
{
    reveal_strlit("call");
    reveal_strlit("stop");
    reveal_strlit("status");
}

/// A request is written with its operation first, and a call with its server, its tool and
/// its arguments behind that.
pub proof fn requests_begin_with_their_operation(
    server: Seq<char>,
    tool: Seq<char>,
    args: JsonTree,
)
    ensures
        request_fields(RequestModel::Status) == seq![("op"@, JsonTree::Str("status"@))],
        request_fields(RequestModel::Stop) == seq![("op"@, JsonTree::Str("stop"@))],
        request_fields(RequestModel::Call { server, tool, args }) == seq![
            ("op"@, JsonTree::Str("call"@)),
            ("server"@, JsonTree::Str(server)),
            ("tool"@, JsonTree::Str(tool)),
            ("args"@, args),
        ],
{
}

/// An object is a request exactly if its operation is known and, for a call, a server, a
/// tool and arguments are named; an array is one if it holds the same in order.
pub proof fn requests_are_read(t: JsonTree, server: Seq<char>, tool: Seq<char>, args: JsonTree)
    ensures
        t is Object ==> (request_of(t) == Some(RequestModel::Call { server, tool, args })
            <==> field_str(t, "op"@) == Some("call"@) && field_str(t, "server"@) == Some(server)
            && field_str(t, "tool"@) == Some(tool) && field(t, "args"@) == Some(args)),
        t is Object ==> (request_of(t) == Some(RequestModel::Status) <==> field_str(t, "op"@)
            == Some("status"@)),
        t is Object ==> (request_of(t) == Some(RequestModel::Stop) <==> field_str(t, "op"@) == Some(
            "stop"@,
        )),
        t is Array ==> (request_of(t) == Some(RequestModel::Call { server, tool, args })
            <==> t->Array_0 == seq![
            JsonTree::Str("call"@),
            JsonTree::Str(server),
            JsonTree::Str(tool),
            args,
        ]),
        t is Array ==> (request_of(t) == Some(RequestModel::Status) <==> t->Array_0 == seq![
            JsonTree::Str("status"@),
        ]),
        t is Array ==> (request_of(t) == Some(RequestModel::Stop) <==> t->Array_0 == seq![
            JsonTree::Str("stop"@),
        ]),
        !(t is Object) && !(t is Array) ==> request_of(t) is None,
{
    lemma_operations();
    if let JsonTree::Array(items) = t {
        let called = seq![
            JsonTree::Str("call"@),
            JsonTree::Str(server),
            JsonTree::Str(tool),
            args,
        ];
        if request_of(t) == Some(RequestModel::Call { server, tool, args }) {
            assert(items =~= called);
        }
        if items == called {
            assert(items[0] == JsonTree::Str("call"@) && items[1] == JsonTree::Str(server)
                && items[2] == JsonTree::Str(tool) && items[3] == args);
        }
        if request_of(t) == Some(RequestModel::Status) {
            assert(items =~= seq![JsonTree::Str("status"@)]);
        }
        if items == seq![JsonTree::Str("status"@)] {
            assert(items.len() == 1 && items[0] == JsonTree::Str("status"@));
        }
        if request_of(t) == Some(RequestModel::Stop) {
            assert(items =~= seq![JsonTree::Str("stop"@)]);
        }
        if items == seq![JsonTree::Str("stop"@)] {
            assert(items.len() == 1 && items[0] == JsonTree::Str("stop"@));
        }
    }
}

/// An answer is written with what it has: whether it is one of success, its result and its
/// error, in this order.
pub proof fn answers_are_written_in_order(ok: bool, result: Seq<char>, error: Seq<char>)
    ensures
        response_fields(ResponseModel { ok, result: None, error: None }) == seq![
            ("ok"@, JsonTree::Bool(ok)),
        ],
        response_fields(ResponseModel { ok, result: Some(result), error: None }) == seq![
            ("ok"@, JsonTree::Bool(ok)),
            ("result"@, JsonTree::Str(result)),
        ],
        response_fields(ResponseModel { ok, result: None, error: Some(error) }) == seq![
            ("ok"@, JsonTree::Bool(ok)),
            ("error"@, JsonTree::Str(error)),
        ],
        response_fields(ResponseModel { ok, result: Some(result), error: Some(error) }) == seq![
            ("ok"@, JsonTree::Bool(ok)),
            ("result"@, JsonTree::Str(result)),
            ("error"@, JsonTree::Str(error)),
        ],
{
    assert(response_fields(ResponseModel { ok, result: Some(result), error: None }) =~= seq![
        ("ok"@, JsonTree::Bool(ok)),
        ("result"@, JsonTree::Str(result)),
    ]);
    assert(response_fields(ResponseModel { ok, result: None, error: Some(error) }) =~= seq![
        ("ok"@, JsonTree::Bool(ok)),
        ("error"@, JsonTree::Str(error)),
    ]);
    assert(response_fields(ResponseModel { ok, result: Some(result), error: Some(error) })
        =~= seq![
        ("ok"@, JsonTree::Bool(ok)),
        ("result"@, JsonTree::Str(result)),
        ("error"@, JsonTree::Str(error)),
    ]);
}

/// What an optional text of an answer says: nothing where it is missing or `null`.
pub open spec fn says(t: Option<JsonTree>, s: Option<Seq<char>>) -> bool {
    match s {
        None => t is None || t == Some(JsonTree::Null),
        Some(s) => t == Some(JsonTree::Str(s)),
    }
}

/// An object is an answer exactly if it says whether it is one of success, and its result
/// and its error are texts where they are there; an array if it holds these three.
pub proof fn answers_are_read(t: JsonTree, r: ResponseModel)
    ensures
        t is Object ==> (response_of(t) == Some(r) <==> field(t, "ok"@) == Some(
            JsonTree::Bool(r.ok),
        ) && says(field(t, "result"@), r.result) && says(field(t, "error"@), r.error)),
        t is Array ==> (response_of(t) == Some(r) <==> t->Array_0.len() == 3 && t->Array_0[0]
            == JsonTree::Bool(r.ok) && says(Some(t->Array_0[1]), r.result) && says(
            Some(t->Array_0[2]),
            r.error,
        )),
        !(t is Object) && !(t is Array) ==> response_of(t) is None,
{
}

/// A text that is no JSON asks and answers nothing; any other is what its document is.
pub proof fn texts_are_read_as_documents(text: Seq<char>)
    ensures
        json_read(text) matches Ok(t) ==> requested(text) == request_of(t) && answered(text)
            == response_of(t),
        json_read(text) is Err ==> requested(text) is None && answered(text) is None,
{
}

/// The message about a server that is not configured names it.
pub proof fn unknown_servers_are_named(server: Seq<char>)
    ensures
        not_registered(server) == "MCP server '"@ + server
            + "' not registered in mcp-servers.yaml"@,
{
}

// ---------------------------------------------------------------------------
// The conversation with a server
// ---------------------------------------------------------------------------

proof fn lemma_keys()
    ensures
        "jsonrpc"@.len() == 7,
        "id"@.len() == 2,
        "method"@.len() == 6 && "method"@[0] == 'm',
        "params"@.len() == 6 && "params"@[0] == 'p',
        "name"@.len() == 4,
        "version"@.len() == 7,
        "arguments"@.len() == 9,
        "protocolVersion"@.len() == 15,
        "capabilities"@.len() == 12,
        "clientInfo"@.len() == 10,
{
    reveal_strlit("jsonrpc");
    reveal_strlit("id");
    reveal_strlit("method");
    reveal_strlit("params");
    reveal_strlit("name");
    reveal_strlit("version");
    reveal_strlit("arguments");
    reveal_strlit("protocolVersion");
    reveal_strlit("capabilities");
    reveal_strlit("clientInfo");
}

/// Whether a message is a request with a number, a method and parameters.
pub open spec fn asks(m: JsonTree, id: u64, method: Seq<char>, params: JsonTree) -> bool {
    &&& field_str(m, "jsonrpc"@) == Some("2.0"@)
    &&& field(m, "id"@) == Some(JsonTree::Number(number_of_u64(id)))
    &&& field_str(m, "method"@) == Some(method)
    &&& field(m, "params"@) == Some(params)
}

/// A request has its number, its method and its parameters; the notice that a server was
/// initialized has no number; a call names its tool and has its arguments.
pub proof fn requests_to_servers_are_complete(
    id: u64,
    method: Seq<char>,
    params: JsonTree,
    tool: Seq<char>,
    version: Seq<char>,
)
    ensures
        asks(request(id, method, params), id, method, params),
        field_str(initialized_tree(), "jsonrpc"@) == Some("2.0"@),
        field_str(initialized_tree(), "method"@) == Some("notifications/initialized"@),
        field(initialized_tree(), "id"@) is None,
        field_str(call_params(tool, params), "name"@) == Some(tool),
        field(call_params(tool, params), "arguments"@) == Some(params),
        field_str(initialize_params(version), "protocolVersion"@) == Some("2024-11-05"@),
        field(initialize_params(version), "capabilities"@) is Some,
        field(initialize_params(version), "clientInfo"@) matches Some(c) && field_str(c, "name"@)
            == Some("livefolders-proxy"@) && field_str(c, "version"@) == Some(version),
{
    lemma_keys();
}

/// A line is an answer exactly if it is a JSON document with a number, whatever white space
/// is around it.
pub proof fn answers_have_a_number(line: Seq<char>)
    ensures
        blank(line) ==> answer_in(line) is None,
        !blank(line) ==> (json_read(trim(line)) matches Ok(t) ==> (answer_in(line) is Some <==> field(
            t,
            "id"@,
        ) is Some) && (answer_in(line) is Some ==> answer_in(line) == Some(t))),
        !blank(line) && json_read(trim(line)) is Err ==> answer_in(line) is None,
{
    super::texts::trimming_takes_white_space_only(line);
}

proof fn lemma_first_text(content: Seq<JsonTree>, i: int)
    requires
        0 <= i <= content.len(),
        forall|j: int| 0 <= j < i ==> field_str(#[trigger] content[j], "type"@) != Some("text"@),
        i < content.len() ==> field_str(content[i], "type"@) == Some("text"@),
    ensures
        first_text(content) == (if i < content.len() {
            Some(content[i])
        } else {
            None
        }),
    decreases content.len(),
{
    if content.len() > 0 && i > 0 {
        assert(field_str(content[0], "type"@) != Some("text"@));
        let rest = content.drop_first();
        assert forall|j: int| 0 <= j < i - 1 implies field_str(#[trigger] rest[j], "type"@) != Some(
            "text"@,
        ) by {
            assert(rest[j] == content[j + 1]);
        }
        if i < content.len() {
            assert(rest[i - 1] == content[i]);
        }
        lemma_first_text(rest, i - 1);
    }
}

/// What a call gave is the first text among its contents, and nothing where there is none.
pub proof fn the_first_text_is_the_answer(
    answer: JsonTree,
    result: JsonTree,
    content: Seq<JsonTree>,
    i: int,
)
    requires
        field(answer, "result"@) == Some(result),
        field_array(result, "content"@) == Some(content),
        0 <= i <= content.len(),
        forall|j: int| 0 <= j < i ==> field_str(#[trigger] content[j], "type"@) != Some("text"@),
        i < content.len() ==> field_str(content[i], "type"@) == Some("text"@),
    ensures
        i == content.len() ==> answer_text(answer) == Seq::<char>::empty(),
        i < content.len() ==> (field_str(content[i], "text"@) matches Some(s) ==> answer_text(
            answer,
        ) == s),
        i < content.len() && field_str(content[i], "text"@) is None ==> answer_text(answer)
            == Seq::<char>::empty(),
{
    reveal_strlit("");
    assert(""@ =~= Seq::<char>::empty());
    lemma_first_text(content, i);
}

/// An answer without contents gives nothing.
pub proof fn answers_without_contents_are_empty(answer: JsonTree)
    requires
        field(answer, "result"@) matches Some(r) ==> field_array(r, "content"@) is None,
    ensures
        answer_text(answer) == Seq::<char>::empty(),
{
    reveal_strlit("");
    assert(""@ =~= Seq::<char>::empty());
}

/// How a conversation goes on: the server is greeted once, before the first call; each
/// request has a number of its own; lines that are no answer are passed over; an answer with
/// an error ends the call with that error, and any other with its text.
pub proof fn conversations_go_step_by_step(
    before: McpClient,
    event: ClientEvent,
    version: Seq<char>,
    after: McpClient,
    a: ClientAction,
)
    requires
        before.wf(),
        before.follows(event, version, after, a),
    ensures
        before.phase == ClientPhase::Idle ==> (event matches ClientEvent::Call(c) ==> if before.initialized {
            after.phase == ClientPhase::SendingCall && after.next_id == before.next_id + 1 && (
            a matches ClientAction::Send(m) && asks(
                m@,
                before.next_id,
                "tools/call"@,
                call_params(c.tool@, c.arguments@),
            ))
        } else {
            after.phase == ClientPhase::SendingHello && after.pending == Some(c) && after.next_id
                == before.next_id + 1 && (a matches ClientAction::Send(m) && asks(
                m@,
                before.next_id,
                "initialize"@,
                initialize_params(version),
            ))
        }),
        before.phase == ClientPhase::Idle && event is Initialize ==> after.phase
            == ClientPhase::SendingHello && after.pending is None && after.next_id == before.next_id
            + 1 && (a matches ClientAction::Send(m) && asks(
            m@,
            before.next_id,
            "initialize"@,
            initialize_params(version),
        )),
        before.phase != ClientPhase::Idle ==> (event matches ClientEvent::Failed(m) ==> after.phase
            == ClientPhase::Idle && (a matches ClientAction::Fail(t) && t@ == m@)),
        before.phase == ClientPhase::SendingHello && event is Sent ==> after.phase
            == ClientPhase::AwaitingHello && a is Receive && after.pending == before.pending,
        before.phase == ClientPhase::SendingCall && event is Sent ==> after.phase
            == ClientPhase::AwaitingCall && a is Receive,
        before.phase == ClientPhase::AwaitingHello ==> (event matches ClientEvent::Line(
            l,
        ) ==> match answer_in(l@) {
            None => after.phase == ClientPhase::AwaitingHello && a is Receive,
            Some(t) => if field(t, "error"@) is Some {
                after.phase == ClientPhase::Idle && !after.initialized == !before.initialized && (
                a matches ClientAction::Fail(m) && m@ == "MCP initialize error: "@ + json_compact(
                    field(t, "error"@)->0,
                ))
            } else {
                after.phase == ClientPhase::SendingNotice && after.pending == before.pending && (
                a matches ClientAction::Send(m) && m@ == initialized_tree())
            },
        }),
        before.phase == ClientPhase::SendingNotice && event is Sent ==> after.initialized && (
        before.pending matches Some(c) ==> after.phase == ClientPhase::SendingCall && (
        a matches ClientAction::Send(m) && asks(
            m@,
            before.next_id,
            "tools/call"@,
            call_params(c.tool@, c.arguments@),
        ))),
        before.phase == ClientPhase::SendingNotice && event is Sent && before.pending is None
            ==> after.phase == ClientPhase::Idle && a is Ready,
        before.phase == ClientPhase::AwaitingCall ==> (event matches ClientEvent::Line(
            l,
        ) ==> match answer_in(l@) {
            None => after.phase == ClientPhase::AwaitingCall && a is Receive,
            Some(t) => if field(t, "error"@) is Some {
                after.phase == ClientPhase::Idle && (a matches ClientAction::Fail(m) && m@
                    == "HANDLER: MCP tool error: "@ + json_compact(field(t, "error"@)->0))
            } else {
                after.phase == ClientPhase::Idle && (a matches ClientAction::Done(s) && s@
                    == answer_text(t))
            },
        }),
        after.next_id == before.next_id || after.next_id == before.next_id + 1,
        before.initialized ==> after.initialized,
{
    lemma_keys();
}

} // verus!
