use livefolders::config::{Config, ToolConfig};
use livefolders::daemon::{
    background_notice, data_dir, log_file, pid_file_for, pid_line, stop, stopped, SignalOutcome,
};
use livefolders::doctor::{
    check_config_exists, check_fuse, check_sandbox, check_tool_manifests, check_tools_dir,
    run_doctor, ManifestFact, ToolDirFact,
};
use livefolders::manifest::{FileKind, FileSpec, Manifest};
use livefolders::paths::DiskPath;
use livefolders::registry::{ToolHandle, ToolRegistry};
use livefolders::sandbox::{Platform, SandboxMode};
use livefolders::secrets::{
    has_secret, parse_env_file, secret_entry, secrets_path, secrets_to_set,
};
use livefolders::text_map::TextMap;
use livefolders::tools::EchoTool;
use livefolders::watcher::{handle_event, ChangeKind, WatchAction};
use std::path::Path;
use std::sync::Arc;

fn env(pairs: &[(&str, &str)]) -> TextMap<String> {
    let mut m = TextMap::new();
    for (k, v) in pairs {
        m.insert(k.to_string(), v.to_string());
    }
    m
}

#[test]
fn pid_file_for_encodes_mountpoint() {
    let p = pid_file_for("/tmp/livefolders", Some("/home/u"));
    let name = Path::new(&p).file_name().unwrap().to_string_lossy().to_string();
    assert!(name.contains("tmp"));
    assert!(name.contains("livefolders"));
    assert!(name.ends_with(".pid"));
    assert_eq!(p, "/home/u/.local/share/livefolders/_tmp_livefolders.pid");
}

#[test]
fn log_file_is_inside_data_dir() {
    let log = log_file(None);
    assert!(Path::new(&log).starts_with(data_dir(None)));
    assert_eq!(log, "/tmp/.local/share/livefolders/livefolders.log");
}

#[test]
fn stop_errors_when_no_pid_file() {
    let result = stop("/x/nonexistent_mount", "/d/p.pid", None);
    assert!(result.is_err());
    assert!(result.unwrap_err().to_string().contains("PID file"));
}

#[test]
fn stop_reads_the_process_id() {
    assert_eq!(stop("/m", "/d/p.pid", Some(" 4711\n")), Ok(4711));
    assert_eq!(stop("/m", "/d/p.pid", Some("-5")), Ok(-5));
    for bad in ["", "x", "12 3", "2147483648", "+-1", "-"] {
        assert_eq!(stop("/m", "/d/p.pid", Some(bad)), Err("invalid PID in /d/p.pid".to_string()));
    }
    assert_eq!(pid_line(4711), "4711\n");
    assert_eq!(stop("/m", "/d/p.pid", Some(&pid_line(-2147483648))), Ok(-2147483648));
}

#[test]
fn a_process_that_is_gone_counts_as_stopped() {
    assert_eq!(stopped(7, SignalOutcome::Sent), Ok("Stopped livefolders (PID 7).".to_string()));
    assert_eq!(stopped(7, SignalOutcome::Gone), Ok("Stopped livefolders (PID 7).".to_string()));
    assert_eq!(
        stopped(7, SignalOutcome::Failed("denied".to_string())),
        Err("failed to send SIGTERM to PID 7: denied".to_string())
    );
    assert_eq!(
        background_notice("/m", "/l"),
        "Mounting at /m in background.\nLogs: /l\nStop with: livefolders stop"
    );
}

#[test]
fn check_fuse_returns_a_result_with_message() {
    for present in [true, false] {
        let result = check_fuse(present);
        assert!(!result.name.is_empty());
        assert!(!result.message.is_empty());
        assert_eq!(result.ok, present);
    }
}

#[test]
fn check_config_exists_fails_in_empty_dir() {
    let result = check_config_exists(false);
    assert!(!result.ok);
    assert!(result.message.contains("livefolders.yaml"));
}

#[test]
fn check_config_exists_passes_when_file_present() {
    let result = check_config_exists(true);
    assert!(result.ok);
}

#[test]
fn check_tools_dir_fails_when_dir_missing() {
    let mut cfg = Config::default_config();
    cfg.tools_dir = Some("/nonexistent/path/tools".to_string());
    let result = check_tools_dir(&cfg, None, false);
    assert!(!result.ok);
    assert_eq!(
        result.message,
        "/nonexistent/path/tools does not exist. Run `livefolders install <url>` to create it."
    );
}

#[test]
fn check_tools_dir_says_what_is_wrong() {
    let mut cfg = Config::default_config();
    assert!(!check_tools_dir(&cfg, None, true).ok);
    cfg.tools_dir = Some("~/t".to_string());
    assert_eq!(
        check_tools_dir(&cfg, None, true).message,
        "tools_dir config error: tools_dir starts with '~/' but $HOME is not set"
    );
    let r = check_tools_dir(&cfg, Some("/home/u"), true);
    assert!(r.ok);
    assert_eq!(r.message, "/home/u/t exists");
}

fn tool(name: &str, manifest: ManifestFact) -> ToolDirFact {
    ToolDirFact { name: name.to_string(), manifest }
}

#[test]
fn check_tool_manifests_says_what_is_wrong() {
    let bad = Manifest {
        files: vec![FileSpec {
            name: "x".to_string(),
            kind: FileKind::ReadInvoke,
            handler: None,
            input: None,
            state_file: None,
            pipe: None,
            hidden: false,
            description: None,
        }],
        ..Default::default()
    };
    let rs = check_tool_manifests(&vec![
        tool("a", ManifestFact::Absent),
        tool("b", ManifestFact::Unreadable),
        tool("c", ManifestFact::Read(Manifest::default())),
        tool("d", ManifestFact::Read(bad)),
    ]);
    let said: Vec<(bool, &str)> = rs.iter().map(|r| (r.ok, r.message.as_str())).collect();
    assert_eq!(
        said,
        vec![
            (false, "tool 'a' has no folder.yaml"),
            (false, "tool 'b' folder.yaml could not be read"),
            (true, "tool 'c' folder.yaml is valid"),
            (
                false,
                "tool 'd' folder.yaml is invalid: file 'x' has kind ReadInvoke but neither handler nor pipe specified"
            ),
        ]
    );
    let (lines, ok) = run_doctor(&rs);
    assert!(!ok);
    assert_eq!(lines[0], "[FAIL] tool manifest — tool 'a' has no folder.yaml");
    assert_eq!(lines[2], "[OK] tool manifest — tool 'c' folder.yaml is valid");
    assert!(lines[4].starts_with("\nSome checks failed."));
}

#[test]
fn doctor_is_content_when_all_checks_pass() {
    let checks = vec![
        check_fuse(true),
        check_sandbox(Platform::Linux, true),
        check_sandbox(Platform::Other, false),
    ];
    let (lines, ok) = run_doctor(&checks);
    assert!(ok);
    assert_eq!(lines.last().unwrap(), "\nAll checks passed.");
    assert!(!check_sandbox(Platform::Linux, false).ok);
    assert!(!check_sandbox(Platform::MacOs, false).ok);
    assert!(check_sandbox(Platform::MacOs, true).message.contains("sandbox-exec found"));
}

#[test]
fn default_config_has_the_echo_tool() {
    let c = Config::default_config();
    assert_eq!(c.timeout_secs, 30);
    assert_eq!(c.tools.len(), 1);
    assert_eq!(c.tools[0].name, "echo");
    assert!(c.mount.is_none());
    assert_eq!(c.sandbox_mode(), SandboxMode::Warn);
    assert_eq!(c.resolved_tools_dir(Some("/h")), Ok(None));
}

#[test]
fn tools_dir_under_home_is_resolved() {
    let mut c = Config::default_config();
    c.tools_dir = Some("~/.config/livefolders/tools".to_string());
    assert_eq!(
        c.resolved_tools_dir(Some("/home/u")),
        Ok(Some("/home/u/.config/livefolders/tools".to_string()))
    );
    assert!(c.resolved_tools_dir(None).is_err());
    c.tools_dir = Some("rel/tools".to_string());
    assert_eq!(c.resolved_tools_dir(None), Ok(Some("rel/tools".to_string())));
}

#[test]
fn tokens_come_from_the_environment() {
    let t = ToolConfig { name: "github".to_string(), token_env: None };
    assert_eq!(t.token_var(), "GITHUB_TOKEN");
    assert_eq!(t.resolve_token(&env(&[("GITHUB_TOKEN", "x")])), Some("x".to_string()));
    assert_eq!(t.resolve_token(&env(&[("OTHER", "x")])), None);
    let u = ToolConfig { name: "github".to_string(), token_env: Some("MY".to_string()) };
    assert_eq!(u.resolve_token(&env(&[("MY", "y"), ("GITHUB_TOKEN", "x")])), Some("y".to_string()));
}

#[test]
fn parse_secrets_skips_comments_and_blanks() {
    let content = "# comment\n\nFOO=bar\nBAZ=qux\n";
    let pairs = parse_env_file(content);
    assert_eq!(
        pairs,
        vec![
            ("FOO".to_string(), "bar".to_string()),
            ("BAZ".to_string(), "qux".to_string())
        ]
    );
}

#[test]
fn parse_secrets_value_may_contain_equals() {
    let content = "URL=http://x.com?a=1&b=2\n";
    let pairs = parse_env_file(content);
    assert_eq!(pairs[0].1, "http://x.com?a=1&b=2");
}

#[test]
fn parse_secrets_trims_lines_and_names() {
    let pairs = parse_env_file("  A = b \r\n\t#no\nnothing\n=v");
    assert_eq!(
        pairs,
        vec![("A".to_string(), " b".to_string()), ("".to_string(), "v".to_string())]
    );
}

#[test]
fn has_secret_finds_env_var() {
    assert!(has_secret("_TEST_MODIX_PRESENT", &env(&[("_TEST_MODIX_PRESENT", "yes")]), None));
    assert!(!has_secret("_TEST_MODIX_PRESENT", &env(&[]), None));
    assert!(has_secret("K", &env(&[]), Some("K=v\n")));
    assert!(!has_secret("K", &env(&[]), Some("#K=v\n")));
}

#[test]
fn appended_secrets_are_read_back() {
    let mut content = "A=1\n".to_string();
    content.push_str(&secret_entry("KEY", "a=b"));
    assert_eq!(content, "A=1\nKEY=a=b\n");
    assert_eq!(
        parse_env_file(&content),
        vec![("A".to_string(), "1".to_string()), ("KEY".to_string(), "a=b".to_string())]
    );
}

#[test]
fn secrets_keep_what_is_set() {
    let set = secrets_to_set("A=1\nB=2\nA=3\nB=4\nC=5", &env(&[("A", "x")]));
    assert_eq!(
        set,
        vec![("B".to_string(), "2".to_string()), ("C".to_string(), "5".to_string())]
    );
    assert_eq!(secrets_path(Some("/home/u")), "/home/u/.config/modixfs/secrets.env");
    assert_eq!(secrets_path(None), ".config/modixfs/secrets.env");
}

#[test]
fn watcher_registers_new_directories() {
    let dir = DiskPath::from_text("/tools");
    let mut reg = ToolRegistry::new();
    let path = DiskPath::from_text("/tools/new");
    match handle_event(ChangeKind::Created, &path, true, &dir, &reg) {
        WatchAction::Register(n) => assert_eq!(n, "new"),
        a => panic!("got {:?}", a),
    }
    assert!(matches!(
        handle_event(ChangeKind::Created, &path, false, &dir, &reg),
        WatchAction::Nothing
    ));
    assert!(matches!(
        handle_event(ChangeKind::Other, &path, true, &dir, &reg),
        WatchAction::Nothing
    ));
    let deep = DiskPath::from_text("/tools/new/sub");
    assert!(matches!(
        handle_event(ChangeKind::Removed, &deep, true, &dir, &reg),
        WatchAction::Nothing
    ));
    match handle_event(ChangeKind::Removed, &path, false, &dir, &reg) {
        WatchAction::Unregister(n) => assert_eq!(n, "new"),
        a => panic!("got {:?}", a),
    }
    reg.register(ToolHandle { tool: Arc::new(EchoTool) });
    assert!(matches!(
        handle_event(ChangeKind::Created, &DiskPath::from_text("/tools/echo"), true, &dir, &reg),
        WatchAction::Nothing
    ));
}
