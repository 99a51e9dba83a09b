use std::cell::RefCell;
use std::rc::Rc;
use livefolders::fs::schema_gen::generate_schema_json;
use livefolders::json::{parse, Json};
use livefolders::manifest::{FileKind, FileSpec, Manifest};
use livefolders::mcp::{
    call_tool, handle_initialize, handle_line, handle_tools_call, handle_tools_list, json_rpc_error,
    json_rpc_ok, list_tools, message_line, schema_path, split_tool_name, McpAction,
};
use livefolders::mcp_proxy::client::{
    initialized_notice, read_answer, ClientAction, ClientEvent,
};
use livefolders::mcp_proxy::server_pool::{load_entry, PoolAction};
use livefolders::mcp_proxy::{
    default_config_path, default_socket_path, handle_request, McpClient, ProxyAction, ProxyRequest,
    ProxyResponse, ServerEntry, ServerPool,
};
use livefolders::text_map::TextMap;
use serde_json::Value;

fn value(j: &Json) -> Value {
    serde_json::from_str(&j.compact()).unwrap()
}

fn tool(name: &str, schema: &str) -> (String, Option<String>) {
    (name.to_string(), Some(schema.to_string()))
}

fn listed(tools: Vec<(String, Option<String>)>) -> Vec<Value> {
    list_tools("/mnt", Some(tools)).unwrap().iter().map(value).collect()
}

#[test]
fn split_on_double_underscore() {
    let (tool, ep) = split_tool_name("hackernews__top_stories").unwrap();
    assert_eq!(tool, "hackernews");
    assert_eq!(ep, "top_stories");
}

#[test]
fn split_uses_first_double_underscore() {
    let (tool, ep) = split_tool_name("svc__ep__extra").unwrap();
    assert_eq!(tool, "svc");
    assert_eq!(ep, "ep__extra");
}

#[test]
fn split_errors_without_separator() {
    assert!(split_tool_name("no_separator").is_err());
}

#[test]
fn split_takes_names_apart_as_they_were_made() {
    assert_eq!(split_tool_name("a_b__c"), Ok(("a_b".to_string(), "c".to_string())));
    assert_eq!(split_tool_name("a___c"), Ok(("a".to_string(), "_c".to_string())));
    assert_eq!(split_tool_name("____"), Ok(("".to_string(), "__".to_string())));
}

#[test]
fn json_rpc_ok_shape() {
    let v = value(&json_rpc_ok(Json::uint(1), parse("{\"x\": 42}").unwrap()));
    assert_eq!(v["jsonrpc"], "2.0");
    assert_eq!(v["id"], 1);
    assert_eq!(v["result"]["x"], 42);
    assert!(v.get("error").is_none());
}

#[test]
fn json_rpc_error_shape() {
    let v = value(&json_rpc_error(Json::uint(2), -32601, "Method not found"));
    assert_eq!(v["jsonrpc"], "2.0");
    assert_eq!(v["error"]["code"], -32601);
    assert_eq!(v["error"]["message"], "Method not found");
    assert!(v.get("result").is_none());
}

#[test]
fn initialize_returns_capabilities() {
    let v = value(&handle_initialize(&Json::uint(1), "0.1.0"));
    assert_eq!(v["result"]["protocolVersion"], "2024-11-05");
    assert!(v["result"]["capabilities"]["tools"].is_object());
    assert_eq!(v["result"]["serverInfo"]["name"], "livefolders");
    assert_eq!(v["result"]["serverInfo"]["version"], "0.1.0");
}

#[test]
fn list_tools_one_entry_per_endpoint() {
    let tools = listed(vec![tool(
        "hackernews",
        r#"{"name":"hackernews","description":"HN tool","endpoints":[
            {"name":"top_stories","kind":"read_invoke"},{"name":"item","kind":"write_invoke"}]}"#,
    )]);
    assert_eq!(tools.len(), 2);
    assert_eq!(tools[0]["name"], "hackernews__top_stories");
    assert_eq!(tools[1]["name"], "hackernews__item");
}

#[test]
fn list_tools_prefers_endpoint_description() {
    let tools = listed(vec![tool(
        "svc",
        r#"{"name":"svc","description":"tool-level","endpoints":[
            {"name":"ep","kind":"read_invoke","description":"ep-level"}]}"#,
    )]);
    assert_eq!(tools[0]["description"], "ep-level");
}

#[test]
fn list_tools_falls_back_to_tool_description() {
    let tools = listed(vec![tool(
        "svc",
        r#"{"name":"svc","description":"tool-level","endpoints":[{"name":"ep","kind":"read_invoke"}]}"#,
    )]);
    assert_eq!(tools[0]["description"], "tool-level");
}

#[test]
fn list_tools_read_invoke_input_schema() {
    let tools = listed(vec![tool(
        "svc",
        r#"{"name":"svc","description":"d","endpoints":[{"name":"status","kind":"read_invoke"}]}"#,
    )]);
    assert_eq!(tools[0]["inputSchema"]["required"].as_array().unwrap().len(), 0);
    assert!(tools[0]["inputSchema"]["properties"].as_object().unwrap().is_empty());
}

#[test]
fn list_tools_write_invoke_input_schema() {
    let tools = listed(vec![tool(
        "svc",
        r#"{"name":"svc","description":"d","endpoints":[{"name":"search","kind":"write_invoke"}]}"#,
    )]);
    assert_eq!(tools[0]["inputSchema"]["properties"]["input"]["type"], "string");
    assert_eq!(tools[0]["inputSchema"]["required"][0], "input");
}

#[test]
fn list_tools_skips_invalid_schema_json() {
    let tools = listed(vec![tool("bad", "not valid json")]);
    assert!(tools.is_empty());
}

#[test]
fn list_tools_error_when_tools_dir_missing() {
    let e = list_tools("/mnt", None).unwrap_err();
    assert_eq!(e, "livefolders is not mounted at '/mnt' — run 'livefolders mount' first");
}

#[test]
fn list_tools_sorted_alphabetically() {
    let schema = r#"{"name":"x","description":"d","endpoints":[{"name":"ep","kind":"read_invoke"}]}"#;
    let tools = listed(vec![tool("zebra", schema), tool("alpha", schema), tool("mango", schema)]);
    let names: Vec<&str> = tools.iter().map(|t| t["name"].as_str().unwrap()).collect();
    assert_eq!(names, vec!["alpha__ep", "mango__ep", "zebra__ep"]);
}

#[test]
fn list_tools_skips_what_it_cannot_use() {
    let tools = listed(vec![
        ("gone".to_string(), None),
        tool("flat", "{\"endpoints\": 3}"),
        tool("bare", "[]"),
        tool(
            "odd",
            r#"{"endpoints":[{"kind":"read_invoke"},{"name":"p","kind":"passthrough"},{"name":"k"},{"name":"ok","kind":"read_invoke"}]}"#,
        ),
    ]);
    assert_eq!(tools.len(), 1);
    assert_eq!(tools[0]["name"], "odd__ok");
    assert_eq!(tools[0]["description"], "");
}

#[test]
fn declared_endpoints_become_mcp_tools() {
    let file = |name: &str, kind: FileKind| FileSpec {
        name: name.to_string(),
        kind,
        handler: None,
        input: None,
        state_file: None,
        pipe: None,
        hidden: false,
        description: None,
    };
    let m = Manifest {
        description: Some("d".to_string()),
        files: vec![
            file("a", FileKind::ReadInvoke),
            file("b", FileKind::Readonly),
            file("c", FileKind::WriteInvoke),
        ],
        ..Default::default()
    };
    let tools = listed(vec![tool("t", &generate_schema_json(&m))]);
    let names: Vec<&str> = tools.iter().map(|t| t["name"].as_str().unwrap()).collect();
    assert_eq!(names, vec!["t__a", "t__c"]);
    assert_eq!(tools[1]["inputSchema"]["required"][0], "input");
}

#[test]
fn call_tool_read_invoke_reads_file() {
    let schema = r#"{"name":"svc","description":"","endpoints":[{"name":"status","kind":"read_invoke"}]}"#;
    let plan = call_tool("/mnt", "svc__status", true, Some(schema), &parse("{}").unwrap()).unwrap();
    assert_eq!(schema_path("/mnt", "svc__status").unwrap(), "/mnt/tools/svc/schema.json");
    assert_eq!(plan.path, "/mnt/tools/svc/status");
    assert!(plan.input.is_none());
}

#[test]
fn call_tool_write_invoke_writes_then_reads() {
    let schema = r#"{"name":"svc","description":"","endpoints":[{"name":"echo","kind":"write_invoke"}]}"#;
    let args = parse("{\"input\": \"hello world\"}").unwrap();
    let plan = call_tool("/mnt", "svc__echo", true, Some(schema), &args).unwrap();
    assert_eq!(plan.path, "/mnt/tools/svc/echo");
    assert_eq!(plan.input.as_deref(), Some("hello world"));
    let without = call_tool("/mnt", "svc__echo", true, Some(schema), &parse("{}").unwrap()).unwrap();
    assert_eq!(without.input.as_deref(), Some(""));
}

#[test]
fn call_tool_error_on_bad_name() {
    assert!(call_tool("/mnt", "no_separator", true, Some("{}"), &parse("{}").unwrap()).is_err());
    assert!(schema_path("/mnt", "no_separator").is_none());
}

#[test]
fn call_tool_error_when_schema_missing() {
    let none = parse("{}").unwrap();
    assert_eq!(
        call_tool("/mnt", "svc__status", true, None, &none).unwrap_err(),
        "reading schema.json for 'svc'"
    );
    assert!(call_tool("/mnt", "svc__status", false, Some("{}"), &none)
        .unwrap_err()
        .starts_with("livefolders is not mounted at '/mnt'"));
}

#[test]
fn call_tool_reads_what_is_not_described() {
    let none = parse("{}").unwrap();
    for schema in ["{}", "{\"endpoints\":[]}", "{\"endpoints\":[{\"name\":\"e\"}]}", "[1]"] {
        assert!(call_tool("/m", "t__e", true, Some(schema), &none).unwrap().input.is_none());
    }
    assert!(call_tool("/m", "t__e", true, Some("nope"), &none).is_err());
}

#[test]
fn requests_are_dispatched() {
    let act = |line: &str| handle_line(line, "0.1.0");
    assert!(matches!(act("   "), McpAction::Ignore));
    assert!(matches!(act(r#"{"method":"notifications/initialized"}"#), McpAction::Ignore));
    assert!(matches!(act(r#"{"method":"whatever"}"#), McpAction::Ignore));
    match act("{oops") {
        McpAction::Reply(j) => {
            let v = value(&j);
            assert_eq!(v["error"]["code"], -32700);
            assert!(v["id"].is_null());
            assert!(v["error"]["message"].as_str().unwrap().starts_with("Parse error: "));
        }
        a => panic!("got {:?}", a),
    }
    match act(r#"{"id":4,"method":"nope"}"#) {
        McpAction::Reply(j) => {
            let v = value(&j);
            assert_eq!(v["error"]["code"], -32601);
            assert_eq!(v["error"]["message"], "Method not found: nope");
            assert_eq!(v["id"], 4);
        }
        a => panic!("got {:?}", a),
    }
    match act(r#"{"id":1,"method":"initialize"}"#) {
        McpAction::Reply(j) => assert_eq!(value(&j)["result"]["protocolVersion"], "2024-11-05"),
        a => panic!("got {:?}", a),
    }
    assert!(matches!(act(r#"{"id":5,"method":"tools/list"}"#), McpAction::List(_)));
    match act(r#"{"id":"x","method":"tools/call","params":{"name":"a__b","arguments":{"input":"i"}}}"#) {
        McpAction::Call { id, name, arguments } => {
            assert_eq!(id.compact(), "\"x\"");
            assert_eq!(name, "a__b");
            assert_eq!(arguments.get_str("input"), Some("i"));
        }
        a => panic!("got {:?}", a),
    }
    match act(r#"{"id":6,"method":"tools/call"}"#) {
        McpAction::Reply(j) => assert_eq!(value(&j)["error"]["code"], -32602),
        a => panic!("got {:?}", a),
    }
}

#[test]
fn answers_have_their_shape() {
    let id = Json::uint(9);
    let v = value(&handle_tools_list(&id, Ok(vec![Json::text("t")])));
    assert_eq!(v["result"]["tools"][0], "t");
    let v = value(&handle_tools_list(&id, Err("e".to_string())));
    assert_eq!(v["error"]["code"], -32603);
    assert_eq!(v["error"]["message"], "Internal error: e");
    let v = value(&handle_tools_call(&id, Ok("out".to_string())));
    assert_eq!(v["result"]["content"][0]["text"], "out");
    assert_eq!(v["result"]["isError"], false);
    let v = value(&handle_tools_call(&id, Err("bad".to_string())));
    assert_eq!(v["result"]["content"][0]["text"], "[ERROR] bad");
    assert_eq!(v["result"]["isError"], true);
    assert_eq!(message_line(&Json::uint(3)), "3\n");
}

/// What a server answers to a message, as a list of lines.
fn serve(message: &Json) -> Vec<String> {
    let v = value(message);
    let id = v["id"].to_string();
    match v["method"].as_str().unwrap() {
        "initialize" => vec![format!(
            "{{\"jsonrpc\":\"2.0\",\"id\":{},\"result\":{{\"protocolVersion\":\"2024-11-05\"}}}}\n",
            id
        )],
        "tools/call" => vec![
            "{\"jsonrpc\":\"2.0\",\"method\":\"notifications/progress\"}\n".to_string(),
            format!(
                "{{\"jsonrpc\":\"2.0\",\"id\":{},\"result\":{{\"content\":[{{\"type\":\"image\"}},{{\"type\":\"text\",\"text\":\"called:{}\"}}]}}}}\n",
                id,
                v["params"]["name"].as_str().unwrap()
            ),
        ],
        _ => vec![],
    }
}

/// Plays the server until a conversation has nothing more to do.
fn converse(client: &mut McpClient, first: ClientAction) -> ClientAction {
    let mut lines: Vec<String> = Vec::new();
    let mut action = first;
    loop {
        let event = match action {
            ClientAction::Send(m) => {
                lines.extend(serve(&m));
                ClientEvent::Sent
            }
            ClientAction::Receive => ClientEvent::Line(lines.remove(0)),
            done => return done,
        };
        action = client.advance(event, "0.1.0");
    }
}

fn call(client: &mut McpClient, tool: &str, arguments: &str) -> Result<String, String> {
    let first = client.call_tool(tool, parse(arguments).unwrap(), "0.1.0");
    match converse(client, first) {
        ClientAction::Done(s) => Ok(s),
        ClientAction::Fail(m) => Err(m),
        a => panic!("got {:?}", a),
    }
}

#[test]
fn client_spawn_and_call_tool() {
    let mut client = McpClient::new();
    let first = client.initialize("0.1.0");
    match &first {
        ClientAction::Send(hello) => {
            assert_eq!(value(hello)["params"]["clientInfo"]["name"], "livefolders-proxy");
            assert_eq!(value(hello)["id"], 1);
        }
        a => panic!("got {:?}", a),
    }
    assert!(matches!(converse(&mut client, first), ClientAction::Ready));
    let result = call(&mut client, "echo", "{\"msg\": \"hi\"}").unwrap();
    assert!(result.contains("called:echo"), "got: {}", result);
}

#[test]
fn client_initialize_sets_initialized_flag() {
    let mut client = McpClient::default();
    assert!(!client.initialized);
    let first = client.initialize("0.1.0");
    assert!(!client.initialized);
    assert!(matches!(client.advance(ClientEvent::Sent, "0.1.0"), ClientAction::Receive));
    let line = match first {
        ClientAction::Send(m) => serve(&m).into_iter().find(|l| read_answer(l).is_some()).unwrap(),
        a => panic!("got {:?}", a),
    };
    match client.advance(ClientEvent::Line(line), "0.1.0") {
        ClientAction::Send(notice) => assert_eq!(notice.compact(), initialized_notice().compact()),
        a => panic!("got {:?}", a),
    }
    assert!(!client.initialized);
    assert!(matches!(client.advance(ClientEvent::Sent, "0.1.0"), ClientAction::Ready));
    assert!(client.initialized);
    assert_eq!(client.next_id, 2);
}

#[test]
fn client_call_tool_auto_initializes() {
    let mut client = McpClient::new();
    let result = call(&mut client, "ping", "{}").unwrap();
    assert!(result.contains("called:ping"), "got: {}", result);
    assert!(client.initialized);
    assert_eq!(client.next_id, 3);
    match client.call_tool("ping", parse("{}").unwrap(), "0.1.0") {
        ClientAction::Send(m) => assert_eq!(value(&m)["method"], "tools/call"),
        a => panic!("got {:?}", a),
    }
}

#[test]
fn client_skips_non_json_startup_noise() {
    assert!(read_answer("Starting MCP server...\n").is_none());
    assert!(read_answer("\n").is_none());
    assert!(read_answer("{\"method\":\"x\"}\n").is_none());
    assert_eq!(read_answer(" {\"id\":1} \n").unwrap().compact(), "{\"id\":1}");
}

#[test]
fn client_reports_errors() {
    let line = |s: &str| ClientEvent::Line(s.to_string());
    let failed = "{\"id\":1,\"error\":{\"code\":1}}";
    let mut client = McpClient::new();
    client.call_tool("t", parse("{}").unwrap(), "0.1.0");
    client.advance(ClientEvent::Sent, "0.1.0");
    match client.advance(line(failed), "0.1.0") {
        ClientAction::Fail(m) => assert_eq!(m, "MCP initialize error: {\"code\":1}"),
        a => panic!("got {:?}", a),
    }
    assert!(!client.initialized);
    call(&mut client, "ping", "{}").unwrap();
    for (answer, text) in [
        ("{\"id\":1}", Ok("")),
        ("{\"id\":1,\"result\":{\"content\":[{\"type\":\"text\"}]}}", Ok("")),
        (failed, Err("HANDLER: MCP tool error: {\"code\":1}")),
    ] {
        client.call_tool("t", parse("{}").unwrap(), "0.1.0");
        client.advance(ClientEvent::Sent, "0.1.0");
        match client.advance(line(answer), "0.1.0") {
            ClientAction::Done(s) => assert_eq!(Ok(s.as_str()), text),
            ClientAction::Fail(m) => assert_eq!(Err(m.as_str()), text),
            a => panic!("got {:?}", a),
        }
    }
    assert!(matches!(client.advance(ClientEvent::Sent, "0.1.0"), ClientAction::Nothing));
    client.call_tool("t", parse("{}").unwrap(), "0.1.0");
    let closed = ClientEvent::Failed("closed".to_string());
    assert!(matches!(client.advance(closed, "0.1.0"), ClientAction::Fail(m) if m == "closed"));
}

type Pool = ServerPool<Rc<RefCell<McpClient>>>;

/// The client of a server, which is started where it does not run, as a proxy does it.
fn reach(pool: &mut Pool, server: &str, started: &mut usize) -> Result<Rc<RefCell<McpClient>>, String> {
    match pool.get_or_spawn(server) {
        PoolAction::Use(c) => return Ok(c.clone()),
        PoolAction::Start(path) => assert_eq!(path, "/c.yaml"),
    }
    assert_eq!(load_entry(&servers(), server)?.command, "python3");
    *started += 1;
    pool.spawned(server, Ok(Rc::new(RefCell::new(McpClient::new()))))?;
    reach(pool, server, started)
}

fn pool_call(pool: &mut Pool, server: &str, tool: &str, started: &mut usize) -> Result<String, String> {
    let client = reach(pool, server, started)?;
    let mut c = client.borrow_mut();
    call(&mut c, tool, "{\"x\": 1}")
}

fn servers() -> TextMap<ServerEntry> {
    let mut m = TextMap::new();
    m.insert(
        "fake-tool".to_string(),
        ServerEntry { command: "python3".to_string(), args: vec!["fake.py".to_string()], env: vec![] },
    );
    m
}

#[test]
fn pool_call_spawns_on_demand() {
    let mut pool: Pool = ServerPool::new("/c.yaml".to_string());
    assert_eq!(pool.config_path(), "/c.yaml");
    assert!(pool.get("fake-tool").is_none());
    let mut started = 0;
    let result = pool_call(&mut pool, "fake-tool", "any_tool", &mut started).unwrap();
    assert!(result.contains("called:any_tool"), "got: {}", result);
    assert_eq!(started, 1);
    assert_eq!(pool.running_servers(), vec!["fake-tool".to_string()]);
}

#[test]
fn pool_unknown_server_errors() {
    let mut pool: Pool = ServerPool::new("/c.yaml".to_string());
    let err = pool_call(&mut pool, "nonexistent", "tool", &mut 0).unwrap_err();
    assert!(err.contains("nonexistent"), "got: {}", err);
    assert_eq!(err, "MCP server 'nonexistent' not registered in mcp-servers.yaml");
    let failed = pool.spawned("x", Err("no such file".to_string()));
    assert_eq!(failed.unwrap_err(), "failed to spawn MCP server 'x'");
    assert!(pool.running_servers().is_empty());
}

#[test]
fn pool_reuses_existing_client() {
    let mut pool: Pool = ServerPool::new("/c.yaml".to_string());
    let mut started = 0;
    let r1 = pool_call(&mut pool, "fake-tool", "tool_a", &mut started).unwrap();
    let r2 = pool_call(&mut pool, "fake-tool", "tool_b", &mut started).unwrap();
    assert!(r1.contains("tool_a"), "got: {}", r1);
    assert!(r2.contains("tool_b"), "got: {}", r2);
    assert_eq!(started, 1);
    assert_eq!(pool.get("fake-tool").unwrap().borrow().next_id, 4);
    pool.spawned("fake-tool", Ok(Rc::new(RefCell::new(McpClient::new())))).unwrap();
    assert_eq!(pool.get("fake-tool").unwrap().borrow().next_id, 4);
    pool.spawned("a", Ok(Rc::new(RefCell::new(McpClient::new())))).unwrap();
    assert_eq!(pool.running_servers(), vec!["a".to_string(), "fake-tool".to_string()]);
}

#[test]
fn call_request_roundtrip() {
    let req = ProxyRequest::Call {
        server: "brave".to_string(),
        tool: "web_search".to_string(),
        args: parse("{\"query\": \"hello\"}").unwrap(),
    };
    let json = req.encode();
    assert_eq!(
        json,
        "{\"op\":\"call\",\"server\":\"brave\",\"tool\":\"web_search\",\"args\":{\"query\":\"hello\"}}"
    );
    assert_eq!(value(&parse(&json).unwrap())["op"], "call");
    match ProxyRequest::decode(&json).unwrap() {
        ProxyRequest::Call { server, tool, args } => {
            assert_eq!(server, "brave");
            assert_eq!(tool, "web_search");
            assert_eq!(args.get_str("query"), Some("hello"));
        }
        _ => panic!("wrong variant"),
    }
}

fn nested(depth: usize) -> Json {
    let mut j = Json::Array(vec![]);
    for _ in 1..depth {
        j = Json::Array(vec![j]);
    }
    j
}

#[test]
fn deep_requests_roundtrip() {
    let call = |args: Json| ProxyRequest::Call { server: "a\nb".to_string(), tool: "t".to_string(), args };
    let text = call(nested(126)).encode();
    assert!(!text.contains('\n'));
    match ProxyRequest::decode(&text).unwrap() {
        ProxyRequest::Call { server, args, .. } => {
            assert_eq!(server, "a\nb");
            assert_eq!(args.compact(), nested(126).compact());
            assert_eq!(parse(&args.pretty()).unwrap().compact(), args.compact());
        }
        _ => panic!("wrong variant"),
    }
    assert!(ProxyRequest::decode(&call(nested(127)).encode()).is_none());
    for n in ["0", "18446744073709551615", "-1", "-9223372036854775808"] {
        assert_eq!(parse(n).unwrap().compact(), n);
    }
    for n in ["1.7976931348623157e308", "-1.7976931348623157e308", "5e-324", "0.1", "1.5e300"] {
        let text = parse(n).unwrap().compact();
        assert!(parse(&text).is_ok(), "{}", text);
    }
}

#[test]
fn other_requests_roundtrip() {
    assert_eq!(ProxyRequest::Status.encode(), "{\"op\":\"status\"}");
    assert!(matches!(ProxyRequest::decode("{\"op\":\"status\"}"), Some(ProxyRequest::Status)));
    assert!(matches!(
        ProxyRequest::decode(&ProxyRequest::Stop.encode()),
        Some(ProxyRequest::Stop)
    ));
    for bad in ["", "{}", "{\"op\":\"other\"}", "{\"op\":\"call\",\"server\":\"s\"}", "{\"op\":1}"] {
        assert!(ProxyRequest::decode(bad).is_none(), "{}", bad);
    }
}

#[test]
fn messages_can_be_arrays() {
    assert!(matches!(ProxyRequest::decode("[\"status\"]"), Some(ProxyRequest::Status)));
    assert!(matches!(ProxyRequest::decode("[\"stop\"]"), Some(ProxyRequest::Stop)));
    match ProxyRequest::decode("[\"call\", \"s\", \"t\", [1]]").unwrap() {
        ProxyRequest::Call { server, tool, args } => {
            assert_eq!((server.as_str(), tool.as_str(), args.compact().as_str()), ("s", "t", "[1]"));
        }
        r => panic!("got {:?}", r),
    }
    for bad in ["[]", "[\"status\", 1]", "[\"call\", \"s\", \"t\"]", "[1]", "[\"call\", 1, \"t\", {}]"] {
        assert!(ProxyRequest::decode(bad).is_none(), "{}", bad);
    }
    let r = ProxyResponse::decode("[false, null, \"e\"]").unwrap();
    assert_eq!((r.ok, r.result, r.error.as_deref()), (false, None, Some("e")));
    assert!(ProxyResponse::decode("[true, null]").is_none());
    assert!(ProxyResponse::decode("[true, 1, null]").is_none());
}

#[test]
fn success_response_roundtrip() {
    let resp = ProxyResponse { ok: true, result: Some("output".to_string()), error: None };
    let json = resp.encode();
    assert_eq!(json, "{\"ok\":true,\"result\":\"output\"}");
    let decoded = ProxyResponse::decode(&json).unwrap();
    assert!(decoded.ok);
    assert_eq!(decoded.result.as_deref(), Some("output"));
}

#[test]
fn error_response_roundtrip() {
    let resp = ProxyResponse { ok: false, result: None, error: Some("SPAWN: fail".to_string()) };
    assert_eq!(resp.encode(), "{\"ok\":false,\"error\":\"SPAWN: fail\"}");
    let decoded = ProxyResponse::decode(&resp.encode()).unwrap();
    assert!(!decoded.ok);
    assert_eq!(decoded.error.as_deref(), Some("SPAWN: fail"));
    assert!(ProxyResponse::decode("{\"result\":\"x\"}").is_none());
    assert!(ProxyResponse::decode("{\"ok\":true,\"result\":1}").is_none());
    assert!(ProxyResponse::decode("{\"ok\":true,\"result\":null}").unwrap().result.is_none());
}

#[test]
fn proxy_decides_what_to_do() {
    let running = vec!["a".to_string(), "b".to_string()];
    match handle_request(ProxyRequest::Status, &running) {
        ProxyAction::Answer(r) => assert_eq!(r.result.as_deref(), Some("a\nb")),
        a => panic!("got {:?}", a),
    }
    assert!(matches!(
        handle_request(ProxyRequest::Stop, &running),
        ProxyAction::AnswerAndStop(r) if r.ok
    ));
    let c = ProxyRequest::Call { server: "s".to_string(), tool: "t".to_string(), args: Json::Null };
    assert!(matches!(handle_request(c, &running), ProxyAction::Call { server, .. } if server == "s"));
    let r = ProxyResponse::of_call(Err("e".to_string()));
    assert!(!r.ok && r.error.as_deref() == Some("e"));
    assert!(ProxyResponse::of_call(Ok("o".to_string())).ok);
    assert_eq!(
        default_socket_path(Some("/home/u")),
        "/home/u/.local/share/livefolders/mcp-proxy.sock"
    );
    assert_eq!(
        default_config_path(Some("/home/u")),
        "/home/u/.config/livefolders/mcp-servers.yaml"
    );
}
