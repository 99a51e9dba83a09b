use livefolders::cli::{
    agent_choice, agent_file, agent_question, build_registry, call_arguments, call_output, cmd_init_silent,
    cmd_mcp, list_installed_tools, load_external_tools, mount_location, parse_command,
    parse_mcp_call_args, parse_mount_args, project_name, register_claude_mcp, resolve_mountpoint,
    resolve_served_mount, sanitize_mcp_name, server_name, snippet_to_append, status_report,
    tools_list, validation_error_for_tool, AgentChoice, AgentNames, Command, InstalledTool, McpCommand,
    AGENT_SNIPPET,
};
use livefolders::config::Config;
use livefolders::manifest::{FileKind, FileSpec, Manifest};
use livefolders::mcp_proxy::ProxyResponse;
use livefolders::paths::DiskPath;
use livefolders::registry::{ToolHandle, ToolRegistry};
use livefolders::tools::{EchoTool, ExternalTool};
use serde_json::Value;
use std::sync::Arc;

fn words(args: &[&str]) -> Vec<String> {
    args.iter().map(|s| s.to_string()).collect()
}

fn installed(name: &str, has_manifest: bool, description: Option<&str>) -> InstalledTool {
    InstalledTool {
        name: name.to_string(),
        has_manifest,
        description: description.map(|d| d.to_string()),
    }
}

#[test]
fn list_tools_returns_name_and_description() {
    let mut out = list_installed_tools(&vec![
        installed("weather", true, Some("Get the weather")),
        installed("echo", true, Some("Echo input back")),
    ]);
    out.sort();
    assert_eq!(out.len(), 2);
    assert!(out[0].contains("echo") && out[0].contains("Echo input back"));
    assert!(out[1].contains("weather") && out[1].contains("Get the weather"));
    assert_eq!(out[0], "echo                 — Echo input back");
}

#[test]
fn list_tools_skips_dirs_without_folder_yaml() {
    let out = list_installed_tools(&vec![
        installed("real-tool", true, Some("A real tool")),
        installed("not-a-tool", false, None),
    ]);
    assert_eq!(out.len(), 1);
    assert!(out[0].contains("real-tool"));
}

#[test]
fn list_tools_no_description_shows_dash() {
    let out = list_installed_tools(&vec![installed("minimal", true, None)]);
    assert_eq!(out.len(), 1);
    assert!(out[0].contains("minimal") && out[0].contains("—"));
}

#[test]
fn tools_are_listed_in_order() {
    assert_eq!(
        tools_list(&vec![installed("zz", true, Some("z")), installed("aa", true, None)]),
        vec![
            "aa                   — —".to_string(),
            "zz                   — z".to_string(),
        ]
    );
    assert_eq!(tools_list(&vec![installed("x", false, None)]), vec!["No tools installed.".to_string()]);
    let long = "a-name-that-is-longer-than-the-column";
    assert_eq!(
        list_installed_tools(&vec![installed(long, true, Some("d"))]),
        vec![format!("{:<20} — {}", long, "d")]
    );
}

#[test]
fn init_creates_livefolders_yaml_with_local_mount() {
    let content = cmd_init_silent(false, "myproject", ".livefolders").unwrap();
    assert!(content.contains("name: myproject"));
    assert!(content.contains("mount: .livefolders"));
    assert!(content.contains("tools_dir:"));
}

#[test]
fn init_creates_livefolders_yaml_with_home_mount() {
    let content = cmd_init_silent(false, "myproject", "~/.livefolders").unwrap();
    assert!(content.contains("name: myproject"));
    assert!(content.contains("mount: ~/.livefolders"));
    assert!(content.contains("tools_dir:"));
}

#[test]
fn init_keeps_an_existing_file() {
    assert_eq!(
        cmd_init_silent(true, "a", "b"),
        Err("livefolders.yaml already exists in the current directory".to_string())
    );
}

fn manifest(handler: Option<&str>) -> Manifest {
    Manifest {
        files: vec![FileSpec {
            name: "search".to_string(),
            kind: FileKind::WriteInvoke,
            handler: handler.map(|h| h.to_string()),
            input: None,
            state_file: None,
            pipe: None,
            hidden: false,
            description: None,
        }],
        ..Default::default()
    }
}

#[test]
fn validation_error_for_tool_detects_missing_handler() {
    let err = validation_error_for_tool(Some(&manifest(None)));
    assert!(err.is_some());
    assert!(err.unwrap().contains("handler"));
}

#[test]
fn validation_error_for_tool_returns_none_for_valid_manifest() {
    let err = validation_error_for_tool(Some(&manifest(Some("./search.sh"))));
    assert!(err.is_none());
    assert!(validation_error_for_tool(None).is_none());
}

const BIN: &str = "/usr/local/bin/livefolders";

fn read(text: &str) -> Value {
    serde_json::from_str(text).unwrap()
}

#[test]
fn register_claude_mcp_creates_entry_with_correct_format() {
    let v = read(&register_claude_mcp(None, "livefolders", BIN, None).unwrap());
    let entry = &v["mcpServers"]["livefolders"];
    assert_eq!(entry["type"], "stdio");
    assert_eq!(entry["command"], "/usr/local/bin/livefolders");
    assert_eq!(entry["args"][0], "mcp");
    assert!(entry["env"].is_object());
}

#[test]
fn register_claude_mcp_with_config_path_embeds_config_arg() {
    let text =
        register_claude_mcp(None, "livefolders-myproject", BIN, Some("/x/livefolders.yaml")).unwrap();
    let v = read(&text);
    let entry = &v["mcpServers"]["livefolders-myproject"];
    assert_eq!(entry["type"], "stdio");
    assert_eq!(entry["args"][0], "mcp");
    assert_eq!(entry["args"][1], "--config");
    assert!(entry["args"][2].as_str().unwrap().ends_with("livefolders.yaml"));
}

#[test]
fn register_claude_mcp_preserves_existing_keys() {
    let existing = r#"{"oauthToken":"tok","someOtherKey":true}"#;
    let v = read(&register_claude_mcp(Some(existing), "livefolders", BIN, None).unwrap());
    assert_eq!(v["oauthToken"], "tok");
    assert_eq!(v["mcpServers"]["livefolders"]["type"], "stdio");
    assert_eq!(v["someOtherKey"], true);
}

#[test]
fn register_claude_mcp_multiple_projects_coexist() {
    let one = register_claude_mcp(None, "livefolders-a", BIN, None).unwrap();
    let two = register_claude_mcp(Some(&one), "livefolders-b", BIN, None).unwrap();
    let v = read(&two);
    assert_eq!(v["mcpServers"]["livefolders-a"]["type"], "stdio");
    assert_eq!(v["mcpServers"]["livefolders-b"]["type"], "stdio");
}

#[test]
fn register_claude_mcp_overwrites_existing_entry() {
    let existing = r#"{"mcpServers":{"livefolders":{"type":"stdio","command":"old"}}}"#;
    let v = read(&register_claude_mcp(Some(existing), "livefolders", BIN, None).unwrap());
    assert_eq!(v["mcpServers"]["livefolders"]["command"], "/usr/local/bin/livefolders");
}

#[test]
fn register_claude_mcp_tolerates_malformed_json() {
    let v = read(&register_claude_mcp(Some("not json at all"), "livefolders", BIN, None).unwrap());
    assert_eq!(v["mcpServers"]["livefolders"]["type"], "stdio");
}

#[test]
fn register_claude_mcp_leaves_other_documents_alone() {
    assert!(register_claude_mcp(Some("[1]"), "livefolders", BIN, None).is_none());
    assert!(register_claude_mcp(Some("{\"mcpServers\":3}"), "livefolders", BIN, None).is_none());
    let v = read(&register_claude_mcp(Some("null"), "x", BIN, None).unwrap());
    assert_eq!(v["mcpServers"]["x"]["type"], "stdio");
    let v = read(&register_claude_mcp(Some("{\"mcpServers\":null}"), "x", BIN, None).unwrap());
    assert_eq!(v["mcpServers"]["x"]["type"], "stdio");
}

#[test]
fn sanitize_mcp_name_replaces_dots_and_spaces() {
    assert_eq!(sanitize_mcp_name("pitaia.me"), "pitaia-me");
    assert_eq!(sanitize_mcp_name("my project"), "my-project");
    assert_eq!(sanitize_mcp_name("valid-name_123"), "valid-name_123");
}

#[test]
fn sanitized_names_stay_as_they_are() {
    let once = sanitize_mcp_name("ä b/c.d");
    assert_eq!(once, "--b-c-d");
    assert_eq!(sanitize_mcp_name(&once), once);
}

#[test]
fn parse_mcp_call_args_basic() {
    let args = words(&[
        "livefolders", "mcp", "call", "brave", "web_search", "--arg", "query=London", "--arg", "count=5",
    ]);
    let parsed = parse_mcp_call_args(&args);
    assert_eq!(parsed.server.as_deref(), Some("brave"));
    assert_eq!(parsed.tool.as_deref(), Some("web_search"));
    assert_eq!(parsed.arg_pairs.get("query").map(|s| s.as_str()), Some("London"));
    assert_eq!(parsed.arg_pairs.get("count").map(|s| s.as_str()), Some("5"));
}

#[test]
fn parse_mcp_call_args_no_args() {
    let args = words(&["livefolders", "mcp", "call", "myserver", "mytool"]);
    let parsed = parse_mcp_call_args(&args);
    assert_eq!(parsed.server.as_deref(), Some("myserver"));
    assert_eq!(parsed.tool.as_deref(), Some("mytool"));
    assert!(parsed.arg_pairs.len() == 0);
}

#[test]
fn parse_mcp_call_args_value_with_equals() {
    let args = words(&["livefolders", "mcp", "call", "s", "t", "--arg", "filter=a=b"]);
    let parsed = parse_mcp_call_args(&args);
    assert_eq!(parsed.arg_pairs.get("filter").map(|s| s.as_str()), Some("a=b"));
}

#[test]
fn call_arguments_are_an_object_of_texts() {
    let args = words(&[
        "lf", "mcp", "call", "s", "t", "--arg", "b=2", "x", "--arg", "nothing", "--arg", "a=1", "--arg",
        "b=3", "--arg",
    ]);
    let parsed = parse_mcp_call_args(&args);
    assert_eq!(call_arguments(&parsed.arg_pairs).compact(), "{\"a\":\"1\",\"b\":\"3\"}");
}

#[test]
fn answers_of_the_proxy_are_printed() {
    assert_eq!(call_output(&ProxyResponse::success("out".to_string())), Ok("out".to_string()));
    assert_eq!(
        call_output(&ProxyResponse::failure("bad".to_string())),
        Err("[ERROR:HANDLER] bad".to_string())
    );
    assert_eq!(
        status_report("/s", &ProxyResponse::success("a\nb".to_string())),
        "mcp-proxy socket: /s\nRunning servers:\na\nb"
    );
    assert_eq!(
        status_report("/s", &ProxyResponse::success("".to_string())),
        "mcp-proxy socket: /s\nNo MCP servers running."
    );
    assert_eq!(
        status_report("/s", &ProxyResponse::failure("x".to_string())),
        "mcp-proxy socket: /s"
    );
}

#[test]
fn commands_are_told_apart() {
    for (word, command) in [
        ("init", Command::Init),
        ("mount", Command::Mount),
        ("stop", Command::Stop),
        ("install", Command::Install),
        ("search", Command::Search),
        ("doctor", Command::Doctor),
        ("info", Command::Info),
        ("publish", Command::Publish),
        ("tools", Command::Tools),
        ("mcp", Command::Mcp),
        ("-v", Command::Version),
        ("--version", Command::Version),
        ("-h", Command::Help),
        ("help", Command::Help),
        ("/some/path", Command::Mount),
        ("--nope", Command::Unknown),
    ] {
        assert_eq!(parse_command(&words(&["livefolders", word])), command, "{}", word);
    }
    assert_eq!(parse_command(&words(&["livefolders"])), Command::Help);
}

#[test]
fn mcp_commands_are_told_apart() {
    let mcp = |rest: &[&str]| {
        let mut all = vec!["livefolders", "mcp"];
        all.extend_from_slice(rest);
        cmd_mcp(&words(&all))
    };
    assert_eq!(mcp(&["proxy"]), McpCommand::Proxy { background: false });
    assert_eq!(mcp(&["proxy", "--background"]), McpCommand::Proxy { background: true });
    assert_eq!(mcp(&["call"]), McpCommand::Call);
    assert_eq!(mcp(&["status"]), McpCommand::Status);
    assert_eq!(mcp(&["stop"]), McpCommand::Stop);
    assert_eq!(mcp(&["register"]), McpCommand::Register);
    assert_eq!(mcp(&["/mnt"]), McpCommand::Serve);
    assert_eq!(mcp(&[]), McpCommand::Serve);
}

#[test]
fn mount_options_are_read() {
    let args = words(&["livefolders", "mount", "-f", "/a", "--config", "c.yaml", "/b", "--odd"]);
    assert_eq!(
        parse_mount_args(&args),
        (Some("/b".to_string()), Some("c.yaml".to_string()), true)
    );
    assert_eq!(parse_mount_args(&words(&["livefolders"])), (None, None, false));
    assert_eq!(parse_mount_args(&words(&["livefolders", "mount", "-c"])), (None, None, false));
    assert_eq!(parse_mount_args(&words(&["livefolders", "tools", "list"])), (None, None, false));
}

#[test]
fn mountpoints_are_resolved() {
    assert_eq!(resolve_mountpoint(Some("/a"), Some("/b")), "/a");
    assert_eq!(resolve_mountpoint(None, Some("/b")), "/b");
    assert_eq!(resolve_mountpoint(None, None), ".livefolders");
    assert_eq!(resolve_served_mount(".lf", Some("/proj")), "/proj/.lf");
    assert_eq!(resolve_served_mount("/abs", Some("/proj")), "/abs");
    assert_eq!(resolve_served_mount(".lf", None), ".lf");
}

#[test]
fn projects_have_server_names() {
    let config = DiskPath::from_text("/home/u/my proj/livefolders.yaml");
    assert_eq!(server_name(None, &config), "livefolders-my-proj");
    assert_eq!(server_name(Some("a.b"), &config), "livefolders-a-b");
    assert_eq!(server_name(None, &DiskPath::from_text("/livefolders.yaml")), "livefolders-livefolders");
}

#[test]
fn answers_to_the_questions_of_init() {
    assert_eq!(project_name(" x \n", "d"), "x");
    assert_eq!(project_name("\n", "d"), "d");
    assert_eq!(mount_location("2\n"), "~/.livefolders");
    assert_eq!(mount_location("1\n"), ".livefolders");
    assert_eq!(mount_location(""), ".livefolders");
    for (answer, choice) in [
        ("1\n", AgentChoice::Registering),
        ("2", AgentChoice::Agents),
        (" 3", AgentChoice::Copilot),
        ("4", AgentChoice::Snippet),
        ("5", AgentChoice::Skip),
        ("", AgentChoice::Skip),
    ] {
        assert_eq!(agent_choice(answer), choice);
    }
    let names = AgentNames { title: "Agent".to_string(), file: "A.md".to_string() };
    assert_eq!(agent_file(AgentChoice::Registering, &names).as_deref(), Some("A.md"));
    assert_eq!(
        agent_file(AgentChoice::Copilot, &names).as_deref(),
        Some(".github/copilot-instructions.md")
    );
    assert_eq!(agent_file(AgentChoice::Skip, &names), None);
    let q = agent_question(&names, true, false, true);
    assert!(q.contains("[1] Agent (A.md detected)\n"));
    assert!(q.contains("(AGENTS.md)\n"));
    assert!(q.contains("GitHub Copilot (copilot-instructions.md detected)\n"));
    assert_eq!(snippet_to_append(false), AGENT_SNIPPET);
    assert_eq!(snippet_to_append(true), format!("\n{}", AGENT_SNIPPET));
}

fn external(name: &str) -> ToolHandle {
    let dir = DiskPath::from_text(&format!("/tools/{}", name));
    ToolHandle { tool: Arc::new(ExternalTool::new(name.to_string(), dir, 30)) }
}

#[test]
fn built_in_tools_shadow_those_on_disk() {
    let cfg = Config::default_config();
    let mut reg: ToolRegistry = build_registry(&cfg, ToolHandle { tool: Arc::new(EchoTool) });
    assert_eq!(reg.list(), vec!["echo"]);
    load_external_tools(&mut reg, vec![external("b"), external("echo"), external("a")]);
    assert_eq!(reg.list(), vec!["a", "b", "echo"]);
    assert_eq!(reg.get("echo").unwrap().endpoints(), vec!["send".to_string()]);
    let mut none = Config::default_config();
    none.tools.clear();
    assert_eq!(build_registry(&none, ToolHandle { tool: Arc::new(EchoTool) }).len(), 0);
}
