//! What the proxy is asked and how it answers.
use crate::json::{
    are_apart, field, field_str, fields_map, fields_text, is_plain, json_fields, json_read,
    lemma_trees, object_of, pair_fields, parse, tree, trees, Json, JsonTree, MAX_DEPTH,
};
use crate::text::{opt_view, same};
use vstd::prelude::*;

verus! {

/// What the proxy is asked.
#[derive(Debug)]
pub enum ProxyRequest {
    /// Call a tool of a server.
    Call { server: String, tool: String, args: Json },
    /// Say which servers run.
    Status,
    /// Stop.
    Stop,
}

/// What the proxy is asked, as a value.
pub enum RequestModel {
    Call { server: Seq<char>, tool: Seq<char>, args: JsonTree },
    Status,
    Stop,
}

impl View for ProxyRequest {
    type V = RequestModel;

    open spec fn view(&self) -> RequestModel {
        match *self {
            ProxyRequest::Call { server, tool, args } => RequestModel::Call {
                server: server@,
                tool: tool@,
                args: args@,
            },
            ProxyRequest::Status => RequestModel::Status,
            ProxyRequest::Stop => RequestModel::Stop,
        }
    }
}

/// How the proxy answers.
#[derive(Debug)]
pub struct ProxyResponse {
    pub ok: bool,
    pub result: Option<String>,
    pub error: Option<String>,
}

/// How the proxy answers, as a value.
pub struct ResponseModel {
    pub ok: bool,
    pub result: Option<Seq<char>>,
    pub error: Option<Seq<char>>,
}

impl View for ProxyResponse {
    type V = ResponseModel;

    open spec fn view(&self) -> ResponseModel {
        ResponseModel {
            ok: self.ok,
            result: opt_view(self.result),
            error: opt_view(self.error),
        }
    }
}

/// The fields of a request: its field `op` says what is asked.
pub open spec fn request_fields(r: RequestModel) -> Seq<(Seq<char>, JsonTree)> {
    match r {
        RequestModel::Call { server, tool, args } => seq![
            ("op"@, JsonTree::Str("call"@)),
            ("server"@, JsonTree::Str(server)),
            ("tool"@, JsonTree::Str(tool)),
            ("args"@, args),
        ],
        RequestModel::Status => seq![("op"@, JsonTree::Str("status"@))],
        RequestModel::Stop => seq![("op"@, JsonTree::Str("stop"@))],
    }
}

/// What an array asks: what is asked comes first, behind it the rest in order.
pub open spec fn request_in(items: Seq<JsonTree>) -> Option<RequestModel> {
    if items.len() == 4 && items[0] == JsonTree::Str("call"@) {
        match (items[1], items[2]) {
            (JsonTree::Str(server), JsonTree::Str(tool)) => Some(
                RequestModel::Call { server, tool, args: items[3] },
            ),
            _ => None,
        }
    } else if items.len() == 1 && items[0] == JsonTree::Str("status"@) {
        Some(RequestModel::Status)
    } else if items.len() == 1 && items[0] == JsonTree::Str("stop"@) {
        Some(RequestModel::Stop)
    } else {
        None
    }
}

/// What a document asks, as an object or as an array; `None` where it is no request.
pub open spec fn request_of(t: JsonTree) -> Option<RequestModel> {
    if let JsonTree::Array(items) = t {
        request_in(items)
    } else {
        match field_str(t, "op"@) {
            None => None,
            Some(op) => if op == "call"@ {
                match (field_str(t, "server"@), field_str(t, "tool"@), field(t, "args"@)) {
                    (Some(server), Some(tool), Some(args)) => Some(
                        RequestModel::Call { server, tool, args },
                    ),
                    _ => None,
                }
            } else if op == "status"@ {
                Some(RequestModel::Status)
            } else if op == "stop"@ {
                Some(RequestModel::Stop)
            } else {
                None
            },
        }
    }
}

/// The fields with one more text where there is one.
pub open spec fn with_text(
    fields: Seq<(Seq<char>, JsonTree)>,
    key: Seq<char>,
    value: Option<Seq<char>>,
) -> Seq<(Seq<char>, JsonTree)> {
    match value {
        None => fields,
        Some(v) => fields.push((key, JsonTree::Str(v))),
    }
}

/// The fields of an answer; what is missing has no field.
pub open spec fn response_fields(r: ResponseModel) -> Seq<(Seq<char>, JsonTree)> {
    with_text(
        with_text(seq![("ok"@, JsonTree::Bool(r.ok))], "result"@, r.result),
        "error"@,
        r.error,
    )
}

/// An optional text that a document is; the outer option is missing where it is something
/// else.
pub open spec fn text_or_null(t: JsonTree) -> Option<Option<Seq<char>>> {
    match t {
        JsonTree::Null => Some(None),
        JsonTree::Str(s) => Some(Some(s)),
        _ => None,
    }
}

/// An optional text of a document; the outer option is missing where the field holds
/// something else.
pub open spec fn text_field(t: JsonTree, key: Seq<char>) -> Option<Option<Seq<char>>> {
    match field(t, key) {
        None => Some(None),
        Some(t) => text_or_null(t),
    }
}

/// What a document answers, as an object or as an array; `None` where it is no answer.
pub open spec fn response_of(t: JsonTree) -> Option<ResponseModel> {
    let (ok, result, error) = if let JsonTree::Array(items) = t {
        if items.len() == 3 {
            (Some(items[0]), text_or_null(items[1]), text_or_null(items[2]))
        } else {
            (None, None, None)
        }
    } else {
        (field(t, "ok"@), text_field(t, "result"@), text_field(t, "error"@))
    };
    match (ok, result, error) {
        (Some(JsonTree::Bool(ok)), Some(result), Some(error)) => Some(
            ResponseModel { ok, result, error },
        ),
        _ => None,
    }
}

/// What a text asks; `None` where it is no request.
pub open spec fn requested(text: Seq<char>) -> Option<RequestModel> {
    match json_read(text) {
        Err(_) => None,
        Ok(t) => request_of(t),
    }
}

/// What a text answers; `None` where it is no answer.
pub open spec fn answered(text: Seq<char>) -> Option<ResponseModel> {
    match json_read(text) {
        Err(_) => None,
        Ok(t) => response_of(t),
    }
}

/// The object of the fields of a request is a request, and plain where its arguments are.
proof fn lemma_request_object(r: RequestModel)
    ensures
        are_apart(request_fields(r)),
        request_of(object_of(request_fields(r))) == Some(r),
        (r matches RequestModel::Call { args, .. } ==> is_plain(args, (MAX_DEPTH - 1) as nat))
            ==> is_plain(object_of(request_fields(r)), MAX_DEPTH as nat),
{
    reveal_strlit("op");
    reveal_strlit("server");
    reveal_strlit("tool");
    reveal_strlit("args");
    reveal_strlit("call");
    reveal_strlit("status");
    reveal_strlit("stop");
    assert("tool"@[0] != "args"@[0]);
    assert("call"@[0] != "stop"@[0]);
    assert("op"@.len() == 2 && "server"@.len() == 6 && "tool"@.len() == 4 && "args"@.len() == 4);
    assert("call"@.len() == 4 && "status"@.len() == 6 && "stop"@.len() == 4);
    reveal_with_fuel(is_plain, 2);
    reveal_with_fuel(fields_map, 5);
    let f = request_fields(r);
    if let RequestModel::Call { server, tool, args } = r {
        assert(f.drop_last() =~= f.take(3));
        assert(f.take(3).drop_last() =~= f.take(2));
        assert(f.take(2).drop_last() =~= f.take(1));
        assert(f.take(1).drop_last() =~= f.take(0));
    } else {
        assert(f.drop_last() =~= f.take(0));
    }
}

/// The object of the fields of an answer is that answer, and plain.
proof fn lemma_response_object(r: ResponseModel)
    ensures
        are_apart(response_fields(r)),
        response_of(object_of(response_fields(r))) == Some(r),
        is_plain(object_of(response_fields(r)), MAX_DEPTH as nat),
{
    reveal_strlit("ok");
    reveal_strlit("result");
    reveal_strlit("error");
    assert("ok"@.len() == 2 && "result"@.len() == 6 && "error"@.len() == 5);
    reveal_with_fuel(is_plain, 2);
    reveal_with_fuel(fields_map, 4);
    let f0 = seq![("ok"@, JsonTree::Bool(r.ok))];
    let f1 = with_text(f0, "result"@, r.result);
    let f2 = with_text(f1, "error"@, r.error);
    assert(f0.drop_last() =~= seq![]);
    if r.result is Some {
        assert(f1.drop_last() =~= f0);
    }
    if r.error is Some {
        assert(f2.drop_last() =~= f1);
    }
}

impl ProxyRequest {
    /// The fields of the request.
    fn fields(&self) -> (r: Vec<(String, Json)>)
        ensures
            pair_fields(r@) == request_fields(self@),
    {
        let mut out: Vec<(String, Json)> = Vec::new();
        match self {
            ProxyRequest::Call { server, tool, args } => {
                out.push(("op".to_string(), Json::text("call")));
                out.push(("server".to_string(), Json::text(server)));
                out.push(("tool".to_string(), Json::text(tool)));
                out.push(("args".to_string(), args.copy()));
            },
            ProxyRequest::Status => {
                out.push(("op".to_string(), Json::text("status")));
            },
            ProxyRequest::Stop => {
                out.push(("op".to_string(), Json::text("stop")));
            },
        }
        proof {
            assert(pair_fields(out@) =~= request_fields(self@));
        }
        out
    }

    /// What an array asks.
    fn from_items(items: &Vec<Json>) -> (r: Option<ProxyRequest>)
        ensures
            match r {
                None => request_in(trees(items@)) is None,
                Some(q) => request_in(trees(items@)) == Some(q@),
            },
    {
        proof {
            assert(trees(items@).len() == items@.len());
            assert forall|i: int| 0 <= i < items@.len() implies trees(items@)[i] == tree(
                items@[i],
            ) by {}
        }
        if items.len() == 0 {
            return None;
        }
        let op = match items[0].as_str() {
            Some(s) => s,
            None => {
                return None;
            },
        };
        if items.len() == 4 && same(op, "call") {
            return match (items[1].as_str(), items[2].as_str()) {
                (Some(server), Some(tool)) => Some(
                    ProxyRequest::Call {
                        server: server.to_string(),
                        tool: tool.to_string(),
                        args: items[3].copy(),
                    },
                ),
                _ => None,
            };
        }
        if items.len() == 1 && same(op, "status") {
            return Some(ProxyRequest::Status);
        }
        if items.len() == 1 && same(op, "stop") {
            return Some(ProxyRequest::Stop);
        }
        None
    }

    /// What a document asks.
    pub fn from_json(doc: &Json) -> (r: Option<ProxyRequest>)
        ensures
            match r {
                None => request_of(doc@) is None,
                Some(q) => request_of(doc@) == Some(q@),
            },
    {
        if let Json::Array(items) = doc {
            proof {
                lemma_trees(*items);
            }
            return ProxyRequest::from_items(items);
        }
        match doc.get_str("op") {
            None => None,
            Some(op) => {
                if same(op, "call") {
                    match (doc.get_str("server"), doc.get_str("tool"), doc.get("args")) {
                        (Some(server), Some(tool), Some(args)) => Some(
                            ProxyRequest::Call {
                                server: server.to_string(),
                                tool: tool.to_string(),
                                args: args.copy(),
                            },
                        ),
                        _ => None,
                    }
                } else if same(op, "status") {
                    Some(ProxyRequest::Status)
                } else if same(op, "stop") {
                    Some(ProxyRequest::Stop)
                } else {
                    None
                }
            },
        }
    }

    /// The text that the request is sent as: one line, from which the request is read
    /// back.
    pub fn encode(&self) -> (r: String)
        ensures
            r@ == json_fields(request_fields(self@)),
            !r@.contains('\n'),
            self.is_plain() ==> requested(r@) == Some(self@),
    {
        proof {
            lemma_request_object(self@);
        }
        fields_text(&self.fields())
    }

    /// Whether the arguments of a call are nested less deep than a document can be, and
    /// their numbers are integers.
    pub open spec fn is_plain(&self) -> bool {
        self@ matches RequestModel::Call { args, .. } ==> is_plain(args, (MAX_DEPTH - 1) as nat)
    }

    /// What a text asks.
    pub fn decode(text: &str) -> (r: Option<ProxyRequest>)
        ensures
            match r {
                None => requested(text@) is None,
                Some(q) => requested(text@) == Some(q@),
            },
    {
        match parse(text) {
            Err(_) => None,
            Ok(doc) => ProxyRequest::from_json(&doc),
        }
    }
}

/// An optional text of a document.
fn read_text_field(doc: &Json, key: &str) -> (r: Option<Option<String>>)
    ensures
        match r {
            None => text_field(doc@, key@) is None,
            Some(s) => text_field(doc@, key@) == Some(opt_view(s)),
        },
{
    match doc.get(key) {
        None => Some(None),
        Some(t) => read_text(t),
    }
}

/// An optional text that a document is.
fn read_text(doc: &Json) -> (r: Option<Option<String>>)
    ensures
        match r {
            None => text_or_null(doc@) is None,
            Some(s) => text_or_null(doc@) == Some(opt_view(s)),
        },
{
    match doc {
        Json::Null => Some(None),
        Json::Str(s) => Some(Some(s.clone())),
        _ => None,
    }
}

impl ProxyResponse {
    /// An answer with a result.
    pub fn success(result: String) -> (r: Self)
        ensures
            r.ok,
            r.result == Some(result),
            r.error is None,
    {
        ProxyResponse { ok: true, result: Some(result), error: None }
    }

    /// An answer with an error.
    pub fn failure(msg: String) -> (r: Self)
        ensures
            !r.ok,
            r.result is None,
            r.error == Some(msg),
    {
        ProxyResponse { ok: false, result: None, error: Some(msg) }
    }

    /// The answer to a call, from what it gave.
    pub fn of_call(outcome: Result<String, String>) -> (r: Self)
        ensures
            match outcome {
                Ok(s) => r.ok && r.result == Some(s) && r.error is None,
                Err(e) => !r.ok && r.result is None && r.error == Some(e),
            },
    {
        match outcome {
            Ok(s) => ProxyResponse::success(s),
            Err(e) => ProxyResponse::failure(e),
        }
    }

    /// The fields of the answer.
    fn fields(&self) -> (r: Vec<(String, Json)>)
        ensures
            pair_fields(r@) == response_fields(self@),
    {
        let mut out: Vec<(String, Json)> = Vec::new();
        out.push(("ok".to_string(), Json::Bool(self.ok)));
        if let Some(s) = &self.result {
            out.push(("result".to_string(), Json::text(s)));
        }
        if let Some(s) = &self.error {
            out.push(("error".to_string(), Json::text(s)));
        }
        proof {
            assert(pair_fields(out@) =~= response_fields(self@));
        }
        out
    }

    /// What a document answers.
    pub fn from_json(doc: &Json) -> (r: Option<ProxyResponse>)
        ensures
            match r {
                None => response_of(doc@) is None,
                Some(a) => response_of(doc@) == Some(a@),
            },
    {
        let parts = if let Json::Array(items) = doc {
            proof {
                lemma_trees(*items);
                assert(trees(items@).len() == items@.len());
                assert forall|i: int| 0 <= i < items@.len() implies trees(items@)[i] == tree(
                    items@[i],
                ) by {}
            }
            if items.len() == 3 {
                (Some(&items[0]), read_text(&items[1]), read_text(&items[2]))
            } else {
                (None, None, None)
            }
        } else {
            (doc.get("ok"), read_text_field(doc, "result"), read_text_field(doc, "error"))
        };
        match parts {
            (Some(Json::Bool(ok)), Some(result), Some(error)) => Some(
                ProxyResponse { ok: *ok, result, error },
            ),
            _ => None,
        }
    }

    /// The text that the answer is sent as: one line, from which the answer is read
    /// back.
    pub fn encode(&self) -> (r: String)
        ensures
            r@ == json_fields(response_fields(self@)),
            !r@.contains('\n'),
            answered(r@) == Some(self@),
    {
        proof {
            lemma_response_object(self@);
        }
        fields_text(&self.fields())
    }

    /// What a text answers.
    pub fn decode(text: &str) -> (r: Option<ProxyResponse>)
        ensures
            match r {
                None => answered(text@) is None,
                Some(a) => answered(text@) == Some(a@),
            },
    {
        match parse(text) {
            Err(_) => None,
            Ok(doc) => ProxyResponse::from_json(&doc),
        }
    }
}

} // verus!
