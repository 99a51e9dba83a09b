use livefolders::manifest::{FileKind, FileSpec, Manifest};
use livefolders::paths::DiskPath;
use livefolders::registry::{Invocation, Session, SessionStore, Tool, ToolHandle, ToolRegistry, ToolResult};
use livefolders::text_map::TextMap;
use livefolders::tools::{EchoTool, ExternalTool, GitHubTool};
use std::sync::Arc;

fn echo() -> ToolHandle {
    ToolHandle { tool: Arc::new(EchoTool) }
}

fn external(name: &str) -> ToolHandle {
    let dir = DiskPath::from_text(&format!("/tools/{}", name));
    ToolHandle { tool: Arc::new(ExternalTool::new(name.to_string(), dir, 30)) }
}

#[test]
fn registry_lists_in_order() {
    let mut r = ToolRegistry::new();
    r.register(external("zebra"));
    r.register(echo());
    r.register(external("alpha"));
    assert_eq!(r.list(), vec!["alpha", "echo", "zebra"]);
    assert_eq!(r.get("echo").unwrap().name(), "echo");
    assert!(r.get("nope").is_none());
    r.unregister("echo");
    r.unregister("nope");
    assert_eq!(r.list(), vec!["alpha", "zebra"]);
    assert_eq!(r.position("zebra"), Some(1));
    assert_eq!(r.position("echo"), None);
}

#[test]
fn registering_again_replaces() {
    let mut r = ToolRegistry::default();
    r.register(external("echo"));
    r.register(echo());
    assert_eq!(r.len(), 1);
    assert_eq!(r.get("echo").unwrap().endpoints(), vec!["send".to_string()]);
}

#[test]
fn root_index_lists_every_tool() {
    let mut r = ToolRegistry::new();
    assert_eq!(
        r.root_index(),
        "# LiveFolders Tools\n\n\nRead `<tool>/how_to.md` to learn how to invoke each tool."
    );
    r.register(echo());
    r.register(external("a"));
    assert_eq!(
        r.root_index(),
        "# LiveFolders Tools\n\n- **a** — External tool at /tools/a\n- **echo** — Echoes input back. Useful for testing LiveFolders is working.\n\nRead `<tool>/how_to.md` to learn how to invoke each tool."
    );
}

fn file(name: &str, kind: FileKind, hidden: bool, description: Option<&str>) -> FileSpec {
    FileSpec {
        name: name.to_string(),
        kind,
        handler: None,
        input: None,
        state_file: None,
        pipe: None,
        hidden,
        description: description.map(|d| d.to_string()),
    }
}

#[test]
fn system_prompt_inlines_endpoints() {
    let mut r = ToolRegistry::new();
    r.register(echo());
    r.register(external("svc"));
    let m = Manifest {
        files: vec![
            file("status", FileKind::ReadInvoke, false, Some("How it goes")),
            file("ask", FileKind::WriteInvoke, false, None),
            file("secret", FileKind::WriteInvoke, true, None),
            file("notes.txt", FileKind::Passthrough, false, None),
        ],
        ..Default::default()
    };
    let p = r.system_prompt("/mnt", &vec![None, Some(m)]);
    assert_eq!(
        p,
        "Bash tools at /mnt/tools/. cat = read-invoke; echo X > path && cat path = write-invoke. Return only the final answer.\n\
         \necho — Echoes input back. Useful for testing LiveFolders is working.\n  /mnt/tools/echo/send\n\
         \nsvc — External tool at /tools/svc\n  cat /mnt/tools/svc/status  # How it goes\n  echo NAME > /mnt/tools/svc/ask && cat /mnt/tools/svc/ask\n"
    );
}

fn invoke(tool: &dyn Tool, endpoint: &str, input: &[u8]) -> Invocation {
    let mut sessions = SessionStore::new();
    let session = Session::new(&mut sessions);
    tool.invoke(endpoint, input, session, &mut sessions, None)
}

#[test]
fn session_keeps_values() {
    let mut store = SessionStore::new();
    let s = Session::new(&mut store);
    assert!(s.get(&store, "k").is_none());
    s.set(&mut store, "k".to_string(), b"v".to_vec());
    s.set(&mut store, "other".to_string(), b"w".to_vec());
    assert_eq!(s.get(&store, "k"), Some(b"v".to_vec()));
    s.set(&mut store, "k".to_string(), b"v2".to_vec());
    assert_eq!(s.get(&store, "k"), Some(b"v2".to_vec()));
    s.remove(&mut store, "k");
    assert!(s.get(&store, "k").is_none());
    assert_eq!(s.get(&store, "other"), Some(b"w".to_vec()));
}

#[test]
fn clones_of_a_session_share_its_state() {
    let mut store = SessionStore::default();
    let s = Session::new(&mut store);
    let stranger = Session::new(&mut store);
    let c = s.clone();
    s.set(&mut store, "k".to_string(), b"v".to_vec());
    assert_eq!(c.get(&store, "k"), Some(b"v".to_vec()));
    assert!(stranger.get(&store, "k").is_none());
    c.remove(&mut store, "k");
    assert!(s.get(&store, "k").is_none());
    s.set(&mut store, "a".to_string(), b"1".to_vec());
    s.remove(&mut store, "absent");
    assert_eq!(c.get(&store, "a"), Some(b"1".to_vec()));
}

#[test]
fn text_maps_are_in_order() {
    let mut m: TextMap<u32> = TextMap::new();
    for (k, v) in [("b", 2u32), ("a", 1), ("ab", 3), ("", 0), ("é", 9)] {
        m.insert(k.to_string(), v);
    }
    m.insert("a".to_string(), 7);
    let keys: Vec<&str> = (0..m.len()).map(|i| m.key(i)).collect();
    assert_eq!(keys, vec!["", "a", "ab", "b", "é"]);
    assert_eq!(m.get("a"), Some(&7));
    assert_eq!(*m.value(2), 3);
    m.remove("ab");
    assert_eq!(m.get("ab"), None);
    assert_eq!(m.len(), 4);
}

#[test]
fn results_say_whether_they_are_errors() {
    assert!(!ToolResult::ok(b"x".to_vec()).is_error());
    let e = ToolResult::err("bad".to_string()).traced(5, b"se".to_vec());
    assert!(e.is_error());
    assert_eq!(e.duration_ms, 5);
    assert_eq!(e.stderr, b"se");
}

#[test]
fn echoes_input_back() {
    match invoke(&EchoTool, "send", b"hello livefolders") {
        Invocation::Done(result) => {
            assert!(!result.is_error());
            assert_eq!(result.output, b"hello livefolders");
        }
        _ => panic!("wrong variant"),
    }
}

#[test]
fn echoes_empty_input() {
    match invoke(&EchoTool, "send", b"") {
        Invocation::Done(result) => {
            assert!(!result.is_error());
            assert_eq!(result.output, b"");
        }
        _ => panic!("wrong variant"),
    }
}

#[test]
fn name_and_endpoints() {
    assert_eq!(EchoTool.name(), "echo");
    assert_eq!(EchoTool.endpoints(), vec!["send"]);
    assert!(EchoTool.how_to().starts_with("# echo\n"));
}

#[test]
fn github_tool_asks_the_api() {
    let t = GitHubTool::new("tok".to_string());
    assert_eq!(t.name(), "github");
    assert_eq!(t.endpoints(), vec!["search_repos", "search_code"]);
    match invoke(&t, "search_code", b"  fuser mount \n") {
        Invocation::GitHub(q) => {
            assert_eq!(q.url, "https://api.github.com/search/code");
            assert_eq!(q.authorization, "Bearer tok");
            assert_eq!(q.query, "fuser mount");
            assert!(q.code);
        }
        _ => panic!("wrong variant"),
    }
    match invoke(&t, "search_repos", b"x") {
        Invocation::GitHub(q) => assert_eq!(q.url, "https://api.github.com/search/repositories"),
        _ => panic!("wrong variant"),
    }
}

#[test]
fn github_tool_refuses_bad_queries() {
    let t = GitHubTool::new("tok".to_string());
    for (endpoint, input, message) in [
        ("search_repos", &b"\xff\xfe"[..], "input must be valid UTF-8"),
        ("search_repos", &b" \n"[..], "query is empty"),
        ("nope", &b"x"[..], "unknown endpoint: nope"),
    ] {
        match invoke(&t, endpoint, input) {
            Invocation::Done(r) => assert_eq!(r.error.as_deref(), Some(message)),
            _ => panic!("wrong variant"),
        }
    }
}
