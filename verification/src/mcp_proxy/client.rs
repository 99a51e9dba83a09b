//! The client side of MCP: what is sent to a server and what its answers mean.
use crate::json::{
    field, field_array, field_str, json_compact, json_read, number_of_u64, parse, tree, trees, Json,
    JsonTree,
};
use crate::mcp::no_fields;
use crate::split::{trim, trimmed};
use crate::text::same;
use vstd::prelude::*;

verus! {

/// What a conversation with an MCP server waits for.
#[derive(Clone, Copy, Debug, PartialEq, Eq, Structural)]
pub enum ClientPhase {
    /// Something to do.
    Idle,
    /// The request that initializes the server to be sent.
    SendingHello,
    /// The answer to it.
    AwaitingHello,
    /// The notice that the server was initialized to be sent.
    SendingNotice,
    /// A call to be sent.
    SendingCall,
    /// The answer to it.
    AwaitingCall,
}

/// A call of a tool.
#[derive(Debug)]
pub struct ToolCall {
    pub tool: String,
    pub arguments: Json,
}

/// The state of a conversation with an MCP server.
#[derive(Debug)]
pub struct McpClient {
    /// The id of the next request.
    pub next_id: u64,
    /// Whether the server was initialized.
    pub initialized: bool,
    pub phase: ClientPhase,
    /// The call to be made once the server was initialized.
    pub pending: Option<ToolCall>,
}

/// What happened in a conversation.
#[derive(Debug)]
pub enum ClientEvent {
    /// The server has to be initialized.
    Initialize,
    /// A tool has to be called.
    Call(ToolCall),
    /// What had to be sent was sent.
    Sent,
    /// The server wrote a line.
    Line(String),
    /// The server cannot be reached any more.
    Failed(String),
}

/// What has to be done next.
#[derive(Debug)]
pub enum ClientAction {
    /// Nothing: what happened was not waited for.
    Nothing,
    /// Send a message.
    Send(Json),
    /// Read a line.
    Receive,
    /// Nothing more: the server was initialized.
    Ready,
    /// Nothing more: this is what the call gave.
    Done(String),
    /// Nothing more: this is what went wrong.
    Fail(String),
}

/// A request of a method.
pub open spec fn request(id: u64, method: Seq<char>, params: JsonTree) -> JsonTree {
    JsonTree::Object(
        no_fields().insert("jsonrpc"@, JsonTree::Str("2.0"@)).insert(
            "id"@,
            JsonTree::Number(number_of_u64(id)),
        ).insert("method"@, JsonTree::Str(method)).insert("params"@, params),
    )
}

/// What a server is told when it is initialized.
pub open spec fn initialize_params(version: Seq<char>) -> JsonTree {
    JsonTree::Object(
        no_fields().insert("protocolVersion"@, JsonTree::Str("2024-11-05"@)).insert(
            "capabilities"@,
            JsonTree::Object(no_fields()),
        ).insert(
            "clientInfo"@,
            JsonTree::Object(
                no_fields().insert("name"@, JsonTree::Str("livefolders-proxy"@)).insert(
                    "version"@,
                    JsonTree::Str(version),
                ),
            ),
        ),
    )
}

/// What a server is told when a tool is called.
pub open spec fn call_params(tool: Seq<char>, arguments: JsonTree) -> JsonTree {
    JsonTree::Object(
        no_fields().insert("name"@, JsonTree::Str(tool)).insert("arguments"@, arguments),
    )
}

/// The notice that a server was initialized.
pub open spec fn initialized_tree() -> JsonTree {
    JsonTree::Object(
        no_fields().insert("jsonrpc"@, JsonTree::Str("2.0"@)).insert(
            "method"@,
            JsonTree::Str("notifications/initialized"@),
        ).insert("params"@, JsonTree::Object(no_fields())),
    )
}

/// A request of a method.
fn request_json(id: u64, method: &str, params: Json) -> (r: Json)
    ensures
        r@ == request(id, method@, params@),
{
    Json::object().with("jsonrpc", Json::text("2.0")).with("id", Json::uint(id)).with(
        "method",
        Json::text(method),
    ).with("params", params)
}

/// The notice that a server was initialized.
pub fn initialized_notice() -> (r: Json)
    ensures
        r@ == initialized_tree(),
{
    Json::object().with("jsonrpc", Json::text("2.0")).with(
        "method",
        Json::text("notifications/initialized"),
    ).with("params", Json::object())
}

/// Whether a document that a server sent is an answer: it has an id.
pub open spec fn is_answer(t: JsonTree) -> bool {
    field(t, "id"@) is Some
}

/// The answer in a line that a server sent, where it holds one. Blank lines, lines that
/// are no JSON, and notifications are skipped.
pub open spec fn answer_in(line: Seq<char>) -> Option<JsonTree> {
    let l = trim(line);
    if l.len() == 0 {
        None
    } else {
        match json_read(l) {
            Err(_) => None,
            Ok(t) => if is_answer(t) {
                Some(t)
            } else {
                None
            },
        }
    }
}

/// The answer in a line that a server sent, where it holds one.
pub fn read_answer(line: &str) -> (r: Option<Json>)
    ensures
        match r {
            None => answer_in(line@) is None,
            Some(j) => answer_in(line@) == Some(j@),
        },
{
    let l = trimmed(line);
    if crate::text::chars_of(&l).len() == 0 {
        return None;
    }
    match parse(&l) {
        Err(_) => None,
        Ok(v) => if v.get("id").is_some() {
            Some(v)
        } else {
            None
        },
    }
}

/// The first text among the parts of a result.
pub open spec fn first_text(content: Seq<JsonTree>) -> Option<JsonTree>
    decreases content.len(),
{
    if content.len() == 0 {
        None
    } else if field(content[0], "type"@) == Some(JsonTree::Str("text"@)) {
        Some(content[0])
    } else {
        first_text(content.drop_first())
    }
}

/// The parts of the result of an answer.
pub open spec fn content_of(answer: JsonTree) -> Option<Seq<JsonTree>> {
    match field(answer, "result"@) {
        None => None,
        Some(r) => field_array(r, "content"@),
    }
}

/// What an answer to a call says: the first text of its result, or nothing.
pub open spec fn answer_text(answer: JsonTree) -> Seq<char> {
    match content_of(answer) {
        None => ""@,
        Some(c) => match first_text(c) {
            None => ""@,
            Some(t) => match field_str(t, "text"@) {
                None => ""@,
                Some(s) => s,
            },
        },
    }
}

/// What an answer to a call says.
fn text_of(answer: &Json) -> (r: String)
    ensures
        r@ == answer_text(answer@),
{
    let content = match answer.get("result") {
        None => {
            return "".to_string();
        },
        Some(res) => match res.get_array("content") {
            None => {
                return "".to_string();
            },
            Some(c) => c,
        },
    };
    let ghost all = trees(content@);
    let mut i: usize = 0;
    proof {
        assert(all.skip(0) =~= all);
    }
    while i < content.len()
        invariant
            i <= content@.len(),
            all == trees(content@),
            content_of(answer@) == Some(all),
            first_text(all) == first_text(all.skip(i as int)),
        decreases content@.len() - i,
    {
        proof {
            assert(all.skip(i as int)[0] == tree(content@[i as int]));
            assert(all.skip(i as int).drop_first() =~= all.skip(i + 1));
        }
        let hit: bool = match content[i].get_str("type") {
            Some(t) => same(t, "text"),
            None => false,
        };
        if hit {
            return match content[i].get_str("text") {
                Some(s) => s.to_string(),
                None => "".to_string(),
            };
        }
        i = i + 1;
    }
    "".to_string()
}

impl McpClient {
    /// A tool is called only on a server that was initialized, and a call waits only
    /// while a server is being initialized.
    pub open spec fn wf(&self) -> bool {
        &&& (self.phase == ClientPhase::SendingCall || self.phase == ClientPhase::AwaitingCall)
            ==> self.initialized
        &&& (self.phase == ClientPhase::Idle || self.phase == ClientPhase::SendingCall || self.phase
            == ClientPhase::AwaitingCall) ==> self.pending is None
    }

    /// Whether a conversation sends a request of the next id.
    pub open spec fn sends_request(
        &self,
        after: McpClient,
        a: ClientAction,
        method: Seq<char>,
        params: JsonTree,
    ) -> bool {
        &&& after.next_id == self.next_id + 1
        &&& a matches ClientAction::Send(m) && m@ == request(self.next_id, method, params)
    }

    /// Whether a conversation ended with an error; it can begin again.
    pub open spec fn gives_up(&self, after: McpClient, a: ClientAction, m: Seq<char>) -> bool {
        &&& after.phase == ClientPhase::Idle
        &&& after.pending is None
        &&& after.next_id == self.next_id
        &&& after.initialized == self.initialized
        &&& a matches ClientAction::Fail(t) && t@ == m
    }

    /// Whether a conversation goes on in a phase without a new request.
    pub open spec fn goes_on(&self, after: McpClient, phase: ClientPhase) -> bool {
        &&& after.phase == phase
        &&& after.next_id == self.next_id
        &&& after.initialized == self.initialized
        &&& after.pending == self.pending
    }

    /// Whether `after` and `a` are what has to follow from an event. A server is
    /// initialized before the first call: the request, its answer, and the notice come
    /// first. Lines that hold no answer are skipped.
    pub open spec fn follows(
        &self,
        event: ClientEvent,
        version: Seq<char>,
        after: McpClient,
        a: ClientAction,
    ) -> bool {
        match (self.phase, event) {
            (ClientPhase::Idle, ClientEvent::Initialize) => {
                &&& after.phase == ClientPhase::SendingHello
                &&& after.initialized == self.initialized
                &&& after.pending is None
                &&& self.sends_request(after, a, "initialize"@, initialize_params(version))
            },
            (ClientPhase::Idle, ClientEvent::Call(c)) => if self.initialized {
                &&& after.phase == ClientPhase::SendingCall
                &&& after.initialized
                &&& after.pending is None
                &&& self.sends_request(
                    after,
                    a,
                    "tools/call"@,
                    call_params(c.tool@, c.arguments@),
                )
            } else {
                &&& after.phase == ClientPhase::SendingHello
                &&& !after.initialized
                &&& after.pending == Some(c)
                &&& self.sends_request(after, a, "initialize"@, initialize_params(version))
            },
            (ClientPhase::Idle, _) => self.goes_on(after, self.phase) && a is Nothing,
            (_, ClientEvent::Failed(m)) => self.gives_up(after, a, m@),
            (ClientPhase::SendingHello, ClientEvent::Sent) => self.goes_on(
                after,
                ClientPhase::AwaitingHello,
            ) && a is Receive,
            (ClientPhase::AwaitingHello, ClientEvent::Line(l)) => match answer_in(l@) {
                None => self.goes_on(after, self.phase) && a is Receive,
                Some(t) => match field(t, "error"@) {
                    Some(e) => self.gives_up(
                        after,
                        a,
                        "MCP initialize error: "@ + json_compact(e),
                    ),
                    None => self.goes_on(after, ClientPhase::SendingNotice) && (
                    a matches ClientAction::Send(m) && m@ == initialized_tree()),
                },
            },
            (ClientPhase::SendingNotice, ClientEvent::Sent) => {
                &&& after.initialized
                &&& after.pending is None
                &&& match self.pending {
                    None => after.phase == ClientPhase::Idle && after.next_id == self.next_id
                        && a is Ready,
                    Some(c) => after.phase == ClientPhase::SendingCall && self.sends_request(
                        after,
                        a,
                        "tools/call"@,
                        call_params(c.tool@, c.arguments@),
                    ),
                }
            },
            (ClientPhase::SendingCall, ClientEvent::Sent) => self.goes_on(
                after,
                ClientPhase::AwaitingCall,
            ) && a is Receive,
            (ClientPhase::AwaitingCall, ClientEvent::Line(l)) => match answer_in(l@) {
                None => self.goes_on(after, self.phase) && a is Receive,
                Some(t) => match field(t, "error"@) {
                    Some(e) => self.gives_up(
                        after,
                        a,
                        "HANDLER: MCP tool error: "@ + json_compact(e),
                    ),
                    None => self.goes_on(after, ClientPhase::Idle) && (
                    a matches ClientAction::Done(s) && s@ == answer_text(t)),
                },
            },
            _ => self.goes_on(after, self.phase) && a is Nothing,
        }
    }

    /// A conversation that has not begun.
    pub fn new() -> (r: Self)
        ensures
            r.wf(),
            r.next_id == 1,
            !r.initialized,
            r.phase == ClientPhase::Idle,
            r.pending is None,
    {
        McpClient { next_id: 1, initialized: false, phase: ClientPhase::Idle, pending: None }
    }

    /// A request of the next id.
    fn send(&mut self, method: &str, params: Json) -> (a: ClientAction)
        requires
            old(self).next_id < u64::MAX,
        ensures
            final(self).initialized == old(self).initialized,
            final(self).phase == old(self).phase,
            final(self).pending == old(self).pending,
            old(self).sends_request(*final(self), a, method@, params@),
    {
        let id: u64 = self.next_id;
        self.next_id = self.next_id + 1;
        ClientAction::Send(request_json(id, method, params))
    }

    /// The request that initializes a server.
    fn send_hello(&mut self, version: &str) -> (a: ClientAction)
        requires
            old(self).next_id < u64::MAX,
        ensures
            final(self).initialized == old(self).initialized,
            final(self).phase == ClientPhase::SendingHello,
            final(self).pending == old(self).pending,
            old(self).sends_request(*final(self), a, "initialize"@, initialize_params(version@)),
    {
        let info = Json::object().with("name", Json::text("livefolders-proxy")).with(
            "version",
            Json::text(version),
        );
        let params = Json::object().with("protocolVersion", Json::text("2024-11-05")).with(
            "capabilities",
            Json::object(),
        ).with("clientInfo", info);
        let a = self.send("initialize", params);
        self.phase = ClientPhase::SendingHello;
        a
    }

    /// The request that calls a tool.
    fn send_call(&mut self, c: ToolCall) -> (a: ClientAction)
        requires
            old(self).next_id < u64::MAX,
        ensures
            final(self).initialized == old(self).initialized,
            final(self).phase == ClientPhase::SendingCall,
            final(self).pending == old(self).pending,
            old(self).sends_request(
                *final(self),
                a,
                "tools/call"@,
                call_params(c.tool@, c.arguments@),
            ),
    {
        let params = Json::object().with("name", Json::text(&c.tool)).with(
            "arguments",
            c.arguments,
        );
        let a = self.send("tools/call", params);
        self.phase = ClientPhase::SendingCall;
        a
    }

    fn fail(&mut self, m: String) -> (a: ClientAction)
        ensures
            old(self).gives_up(*final(self), a, m@),
    {
        self.phase = ClientPhase::Idle;
        self.pending = None;
        ClientAction::Fail(m)
    }

    /// Takes in what happened: what has to be done next.
    pub fn advance(&mut self, event: ClientEvent, version: &str) -> (a: ClientAction)
        requires
            old(self).wf(),
            old(self).next_id < u64::MAX,
        ensures
            final(self).wf(),
            old(self).follows(event, version@, *final(self), a),
    {
        match (self.phase, event) {
            (ClientPhase::Idle, ClientEvent::Initialize) => self.send_hello(version),
            (ClientPhase::Idle, ClientEvent::Call(c)) => {
                if self.initialized {
                    self.send_call(c)
                } else {
                    self.pending = Some(c);
                    self.send_hello(version)
                }
            },
            (ClientPhase::Idle, _) => ClientAction::Nothing,
            (_, ClientEvent::Failed(m)) => self.fail(m),
            (ClientPhase::SendingHello, ClientEvent::Sent) => {
                self.phase = ClientPhase::AwaitingHello;
                ClientAction::Receive
            },
            (ClientPhase::AwaitingHello, ClientEvent::Line(l)) => match read_answer(&l) {
                None => ClientAction::Receive,
                Some(answer) => {
                    if let Some(e) = answer.get("error") {
                        let mut m = "MCP initialize error: ".to_string();
                        m.push_str(&e.compact());
                        return self.fail(m);
                    }
                    self.phase = ClientPhase::SendingNotice;
                    ClientAction::Send(initialized_notice())
                },
            },
            (ClientPhase::SendingNotice, ClientEvent::Sent) => {
                self.initialized = true;
                let mut pending: Option<ToolCall> = None;
                std::mem::swap(&mut pending, &mut self.pending);
                match pending {
                    None => {
                        self.phase = ClientPhase::Idle;
                        ClientAction::Ready
                    },
                    Some(c) => self.send_call(c),
                }
            },
            (ClientPhase::SendingCall, ClientEvent::Sent) => {
                self.phase = ClientPhase::AwaitingCall;
                ClientAction::Receive
            },
            (ClientPhase::AwaitingCall, ClientEvent::Line(l)) => match read_answer(&l) {
                None => ClientAction::Receive,
                Some(answer) => {
                    if let Some(e) = answer.get("error") {
                        let mut m = "HANDLER: MCP tool error: ".to_string();
                        m.push_str(&e.compact());
                        return self.fail(m);
                    }
                    self.phase = ClientPhase::Idle;
                    ClientAction::Done(text_of(&answer))
                },
            },
            _ => ClientAction::Nothing,
        }
    }

    /// Begins to initialize a server.
    pub fn initialize(&mut self, version: &str) -> (a: ClientAction)
        requires
            old(self).wf(),
            old(self).next_id < u64::MAX,
        ensures
            final(self).wf(),
            old(self).follows(ClientEvent::Initialize, version@, *final(self), a),
    {
        self.advance(ClientEvent::Initialize, version)
    }

    /// Begins to call a tool. A server that was not initialized is initialized first.
    pub fn call_tool(&mut self, tool: &str, arguments: Json, version: &str) -> (a: ClientAction)
        requires
            old(self).wf(),
            old(self).next_id < u64::MAX,
        ensures
            final(self).wf(),
            exists|c: ToolCall|
                c.tool@ == tool@ && c.arguments == arguments && #[trigger] old(self).follows(
                    ClientEvent::Call(c),
                    version@,
                    *final(self),
                    a,
                ),
    {
        let c = ToolCall { tool: tool.to_string(), arguments };
        self.advance(ClientEvent::Call(c), version)
    }
}

/// No tool is called on a server that was not initialized: a call is sent only after the
/// server has answered the request to be initialized without an error and the notice of
/// that was sent.
pub proof fn calls_come_after_initialization(
    before: McpClient,
    event: ClientEvent,
    version: Seq<char>,
    after: McpClient,
    a: ClientAction,
)
    requires
        before.wf(),
        before.follows(event, version, after, a),
    ensures
        after.phase == ClientPhase::SendingCall && before.phase != ClientPhase::SendingCall ==> (
        after.initialized && a is Send && (before.initialized || (before.phase
            == ClientPhase::SendingNotice && event is Sent))),
        after.initialized && !before.initialized ==> before.phase == ClientPhase::SendingNotice
            && event is Sent,
        after.phase == ClientPhase::SendingNotice && before.phase != ClientPhase::SendingNotice
            ==> before.phase == ClientPhase::AwaitingHello && (event matches ClientEvent::Line(l)
            && answer_in(l@) is Some && field(answer_in(l@)->0, "error"@) is None),
        before.initialized ==> after.initialized,
{
}

impl Default for McpClient {
    fn default() -> (r: Self)
        ensures
            r.wf(),
            r.next_id == 1,
            !r.initialized,
            r.phase == ClientPhase::Idle,
            r.pending is None,
    {
        McpClient::new()
    }
}

} // verus!
