use livefolders::error::format_error;
use livefolders::json::parse;
use livefolders::manifest::{
    FileKind, FileSpec, InputKind, InputSchema, Manifest, SandboxFsSpec, SandboxResourceSpec,
    SandboxSpec,
};
use livefolders::paths::DiskPath;
use livefolders::registry::{Invocation, Session, SessionStore, Tool, ToolResult};
use livefolders::sandbox::linux::{
    landlock_created, landlock_restricted, landlock_rules_added, memory_limit,
    privileges_given_up, resource_limited, seccomp_applied,
    LinuxSandbox, SandboxStep, StepVerdict,
};
use livefolders::sandbox::macos::{build_sbpl_profile, CommandLine, MacOsSandbox};
use livefolders::sandbox::seccomp::{block_sockets, filter_made, FilterFailure, SocketBlock};
use livefolders::sandbox::{build, Platform, SandboxMode, SandboxPolicy};
use livefolders::tools::external::{
    check_invocation, command_result, script_result, DirFile, RunOutcome,
};
use livefolders::tools::github::{search_result, SearchItem, SearchOutcome, SearchResponse};
use livefolders::tools::pipe::{PipeRun, PipeStep};
use livefolders::tools::{validate_input, ExternalTool};

fn kind(kind: InputKind) -> InputSchema {
    InputSchema::of_kind(kind)
}

fn refused(input: &[u8], schema: &InputSchema) -> String {
    validate_input(input, schema).unwrap_err()
}

#[test]
fn invoke_command_with_json_schema_accepts_valid_json() {
    assert!(check_invocation(b"{\"key\":\"value\"}", Some(&kind(InputKind::Json))).is_none());
}

#[test]
fn invoke_command_with_json_schema_rejects_invalid_json() {
    let r = check_invocation(b"not json", Some(&kind(InputKind::Json))).unwrap();
    assert!(r.is_error());
    let msg = r.error.unwrap();
    assert!(msg.contains("[ERROR:INVALID_INPUT]"), "got: {}", msg);
    assert!(msg.starts_with("[ERROR:INVALID_INPUT] expected valid JSON: "));
}

#[test]
fn invoke_command_with_none_schema_rejects_nonempty_input() {
    let r = check_invocation(b"some input", Some(&kind(InputKind::Empty))).unwrap();
    assert!(r.is_error());
    let msg = r.error.unwrap();
    assert!(msg.contains("[ERROR:INVALID_INPUT]"), "got: {}", msg);
    assert_eq!(msg, "[ERROR:INVALID_INPUT] endpoint takes no input");
}

#[test]
fn invoke_command_with_none_schema_accepts_empty_input() {
    assert!(check_invocation(b"", Some(&kind(InputKind::Empty))).is_none());
}

#[test]
fn invoke_command_with_no_schema_accepts_anything() {
    assert!(check_invocation(b"anything goes", None).is_none());
}

#[test]
fn invoke_command_with_string_schema_accepts_anything() {
    assert!(check_invocation(b"hello world", Some(&kind(InputKind::String))).is_none());
    assert!(check_invocation(b"\xff\xfe", Some(&kind(InputKind::String))).is_none());
}

#[test]
fn short_inputs_are_refused() {
    let s = InputSchema { min_length: Some(1), ..kind(InputKind::String) };
    assert_eq!(
        refused(b"\n", &s),
        "[ERROR:INVALID_INPUT] input too short: minimum 1 characters required"
    );
    assert!(validate_input(b"London\n", &s).is_ok());
    let five = InputSchema { min_length: Some(5), ..kind(InputKind::String) };
    assert!(validate_input("äöüßé".as_bytes(), &five).is_ok());
    assert!(validate_input("äöüß".as_bytes(), &five).is_err());
}

#[test]
fn long_inputs_are_refused() {
    let s = InputSchema { max_length: Some(3), ..kind(InputKind::String) };
    assert!(validate_input(b"abc\n", &s).is_ok());
    assert_eq!(
        refused(b"abcd", &s),
        "[ERROR:INVALID_INPUT] input too long: maximum 3 characters allowed"
    );
}

#[test]
fn patterns_must_match_the_whole_input() {
    let s = InputSchema { pattern: Some("[a-z ]+".to_string()), ..kind(InputKind::String) };
    assert!(validate_input(b"hello world\n", &s).is_ok());
    assert_eq!(
        refused(b"hello World", &s),
        "[ERROR:INVALID_INPUT] input does not match pattern '[a-z ]+'"
    );
    let either = InputSchema { pattern: Some("a|b".to_string()), ..kind(InputKind::String) };
    assert!(validate_input(b"b", &either).is_ok());
    assert!(validate_input(b"ab", &either).is_err());
    let anchored = InputSchema { pattern: Some("^[a-z ]+$".to_string()), ..kind(InputKind::String) };
    assert!(validate_input(b"ok\n", &anchored).is_ok());
    let verbose = InputSchema {
        pattern: Some("(?x)[a-z]+ # letters".to_string()),
        ..kind(InputKind::String)
    };
    assert!(validate_input(b"abc\n", &verbose).is_ok());
    assert!(validate_input(b"abc1", &verbose).is_err());
    let halves = InputSchema { pattern: Some("a)|(?:b".to_string()), ..kind(InputKind::String) };
    assert_eq!(refused(b"a", &halves), "[ERROR:INVALID_INPUT] invalid pattern 'a)|(?:b'");
    let broken = InputSchema { pattern: Some("(".to_string()), ..kind(InputKind::String) };
    assert_eq!(refused(b"x", &broken), "[ERROR:INVALID_INPUT] invalid pattern '('");
}

#[test]
fn documents_must_fit_their_schema() {
    let s = InputSchema {
        schema: Some(
            parse("{\"required\":[\"q\"],\"properties\":{\"q\":{\"type\":\"string\"},\"limit\":{\"type\":\"number\"}}}")
                .unwrap(),
        ),
        ..kind(InputKind::Json)
    };
    assert!(validate_input(b"{\"q\":\"x\",\"limit\":3,\"more\":[]}", &s).is_ok());
    assert!(validate_input(b"{\"q\":\"x\"}", &s).is_ok());
    assert_eq!(refused(b"{}", &s), "[ERROR:INVALID_INPUT] missing required field 'q'");
    assert_eq!(refused(b"[]", &s), "[ERROR:INVALID_INPUT] missing required field 'q'");
    assert_eq!(
        refused(b"{\"q\":\"x\",\"limit\":\"3\"}", &s),
        "[ERROR:INVALID_INPUT] field 'limit' must be of type number"
    );
    assert_eq!(refused(b"\xff", &s), "[ERROR:INVALID_INPUT] expected valid UTF-8 JSON");
}

fn search_manifest() -> Manifest {
    Manifest {
        files: vec![FileSpec {
            name: "search".to_string(),
            kind: FileKind::WriteInvoke,
            handler: Some("./search".to_string()),
            input: Some(kind(InputKind::Json)),
            state_file: None,
            pipe: None,
            hidden: false,
            description: None,
        }],
        ..Default::default()
    }
}

fn testtool() -> ExternalTool {
    ExternalTool::new("testtool".to_string(), DiskPath::from_text("/t/testtool"), 10)
}

fn invoke(endpoint: &str, input: &[u8], manifest: Option<&Manifest>) -> Invocation {
    let mut sessions = SessionStore::new();
    let session = Session::new(&mut sessions);
    testtool().invoke(endpoint, input, session, &mut sessions, manifest)
}

#[test]
fn external_tool_rejects_invalid_json_when_schema_declared() {
    match invoke("search", b"not json", Some(&search_manifest())) {
        Invocation::Done(r) => {
            assert!(r.is_error());
            let msg = r.error.unwrap();
            assert!(msg.contains("[ERROR:INVALID_INPUT]"), "got: {}", msg);
        }
        i => panic!("got {:?}", i),
    }
}

#[test]
fn external_tool_accepts_valid_json_when_schema_declared() {
    match invoke("search", b"{\"q\":\"hello\"}", Some(&search_manifest())) {
        Invocation::Script(s) => {
            assert_eq!(s.script.text(), "/t/testtool/search");
            assert_eq!(s.dir.text(), "/t/testtool");
            assert_eq!((s.tool.as_str(), s.endpoint.as_str()), ("testtool", "search"));
            assert_eq!(s.timeout_secs, 10);
        }
        i => panic!("got {:?}", i),
    }
    assert!(matches!(invoke("search", b"x", None), Invocation::Script(_)));
}

#[test]
fn the_first_complaint_is_given() {
    let schema = InputSchema {
        schema: Some(
            parse(
                r#"{"required": ["z", "y", "x"], "properties": {"c": {"type": "string"}, "a": {"type": "number"}, "b": {"type": "null"}}}"#,
            )
            .unwrap(),
        ),
        ..kind(InputKind::Json)
    };
    for (input, said) in [
        (r#"{"z": 1}"#, "missing required field 'y'"),
        (r#"{"x": 1, "a": ""}"#, "missing required field 'z'"),
        (r#"{"x": 1, "y": 1, "z": 1, "c": 1, "b": 1}"#, "field 'b' must be of type null"),
        (r#"{"x": 1, "y": 1, "z": 1, "c": 1, "a": ""}"#, "field 'a' must be of type number"),
    ] {
        assert_eq!(refused(input.as_bytes(), &schema), format!("[ERROR:INVALID_INPUT] {}", said));
    }
}

#[test]
fn description_reads_from_folder_yaml() {
    let tool = ExternalTool::new("mytool".to_string(), DiskPath::from_text("/t/mytool"), 30)
        .described(Some("Fetches data from the API"), Some("# Other"));
    assert_eq!(tool.description(), "Fetches data from the API");
}

#[test]
fn description_falls_back_to_how_to_when_no_folder_yaml() {
    let tool = ExternalTool::new("mytool".to_string(), DiskPath::from_text("/t/mytool"), 30)
        .described(None, Some("# My tool\nDoes stuff.\n"));
    assert_eq!(tool.description(), "My tool");
}

#[test]
fn descriptions_have_a_last_resort() {
    let dir = DiskPath::from_text("/t/mytool");
    for how_to in [None, Some(""), Some(" \n\t\n")] {
        assert_eq!(ExternalTool::description_from_how_to(&dir, how_to), "External tool at /t/mytool");
    }
    assert_eq!(ExternalTool::description_from_how_to(&dir, Some("\n\r\n  ## a #\r\nb")), "## a #");
    let tool = ExternalTool::with_sandbox_mode("m".to_string(), dir, 3, SandboxMode::Strict);
    assert_eq!(tool.sandbox_mode(), SandboxMode::Strict);
    assert_eq!((tool.name(), tool.how_to()), ("m", ""));
    assert!(tool.endpoints().is_empty());
}

#[test]
fn executable_files_are_endpoints() {
    let file = |name: &str, is_dir: bool, mode: Option<u32>| DirFile {
        name: name.to_string(),
        is_dir,
        mode,
    };
    let eps = ExternalTool::endpoints_from_disk(&vec![
        file("zz", false, Some(0o100755)),
        file("how_to.md", false, Some(0o755)),
        file("dir", true, Some(0o755)),
        file("plain", false, Some(0o644)),
        file("gone", false, None),
        file("aa", false, Some(0o010)),
    ]);
    assert_eq!(eps, vec!["aa".to_string(), "zz".to_string()]);
}

fn exited(success: bool, stdout: &[u8], stderr: &[u8]) -> RunOutcome {
    RunOutcome::Exited { success, stdout: stdout.to_vec(), stderr: stderr.to_vec() }
}

#[test]
fn invoke_command_echo() {
    let r = command_result(exited(true, b"hello\n", b""), 10, 5);
    assert!(!r.is_error(), "unexpected error: {:?}", r.error);
    assert_eq!(String::from_utf8(r.output).unwrap().trim(), "hello");
    assert_eq!(r.duration_ms, 5);
}

#[test]
fn invoke_command_captures_error_on_nonzero_exit() {
    let r = command_result(exited(false, b"ignored", b"failure\n"), 10, 1);
    assert!(r.is_error());
    assert!(r.output.is_empty());
    assert_eq!(r.stderr, b"failure\n");
    let msg = r.error.unwrap();
    assert!(msg.contains("[ERROR:HANDLER]"), "got: {}", msg);
    assert!(msg.contains("failure"));
    assert_eq!(msg, "[ERROR:HANDLER] failure");
}

#[test]
fn invoke_command_times_out() {
    let r = command_result(RunOutcome::TimedOut, 1, 1000);
    assert!(r.is_error());
    let msg = r.error.unwrap();
    assert!(msg.contains("[ERROR:TIMEOUT]"), "got: {}", msg);
    assert_eq!(msg, "[ERROR:TIMEOUT] handler exceeded 1s");
}

#[test]
fn runs_fail_in_their_ways() {
    let e = |o: RunOutcome| command_result(o, 2, 0).error.unwrap();
    assert_eq!(e(RunOutcome::SpawnFailed("x".to_string())), "[ERROR:SPAWN] x");
    assert_eq!(
        e(RunOutcome::StdinFailed("x".to_string())),
        "[ERROR:SPAWN] failed to write stdin: x"
    );
    assert_eq!(e(RunOutcome::WaitFailed("x".to_string())), "[ERROR:PROCESS] x");
    let script = DiskPath::from_text("/t/s");
    let r = script_result(RunOutcome::SpawnFailed("x".to_string()), &script, 2, 0);
    assert_eq!(r.error.unwrap(), "[ERROR:SPAWN] failed to spawn /t/s: x");
    let r = script_result(exited(true, b"o", b"e"), &script, 2, 7);
    assert_eq!((r.output, r.stderr, r.duration_ms), (b"o".to_vec(), b"e".to_vec(), 7));
    assert_eq!(format_error("CODE", "m"), "[ERROR:CODE] m");
    let odd = command_result(exited(false, b"", b" \xff \n"), 1, 0).error.unwrap();
    assert_eq!(odd, "[ERROR:HANDLER] \u{fffd}");
}

fn stage(name: &str, handler: Option<&str>, input: Option<InputSchema>) -> FileSpec {
    FileSpec {
        name: name.to_string(),
        kind: FileKind::WriteInvoke,
        handler: handler.map(|h| h.to_string()),
        input,
        state_file: Some("s".to_string()),
        pipe: None,
        hidden: false,
        description: None,
    }
}

#[test]
fn chains_hand_output_on() {
    let m = Manifest {
        files: vec![stage("one", Some("h1"), None), stage("two", Some("h2"), None)],
        ..Default::default()
    };
    let mut run = PipeRun::new(vec!["one".to_string(), "two".to_string()], b"in".to_vec());
    for (name, handler, output) in [("one", "h1", "a"), ("two", "h2", "b")] {
        match run.next(&m) {
            PipeStep::Run { endpoint, handler: h, state_file } => {
                assert_eq!((endpoint.as_str(), h.as_str()), (name, handler));
                assert_eq!(state_file.as_deref(), Some("s"));
            }
            s => panic!("got {:?}", s),
        }
        assert!(run.advance(ToolResult::ok(output.as_bytes().to_vec())).is_none());
        assert_eq!(run.data, output.as_bytes());
    }
    match run.next(&m) {
        PipeStep::Finished(r) => assert_eq!(r.output, b"b"),
        s => panic!("got {:?}", s),
    }
}

#[test]
fn chains_end_with_errors() {
    let m = Manifest {
        files: vec![
            stage("one", Some("h"), Some(kind(InputKind::Json))),
            stage("none", None, None),
        ],
        ..Default::default()
    };
    let finished = |run: &PipeRun| match run.next(&m) {
        PipeStep::Finished(r) => r.error.unwrap(),
        s => panic!("got {:?}", s),
    };
    let unknown = PipeRun::new(vec!["x".to_string()], vec![]);
    assert_eq!(finished(&unknown), "[ERROR:SPAWN] no handler for pipeline stage 'x'");
    let without = PipeRun::new(vec!["none".to_string()], vec![]);
    assert_eq!(finished(&without), "[ERROR:SPAWN] no handler for pipeline stage 'none'");
    let bad = PipeRun::new(vec!["one".to_string()], b"x".to_vec());
    assert!(finished(&bad).starts_with("[ERROR:INVALID_INPUT]"));
    let mut run = PipeRun::new(vec!["one".to_string()], b"1".to_vec());
    let r = run.advance(ToolResult::err("e".to_string())).unwrap();
    assert_eq!(r.error.as_deref(), Some("e"));
    assert_eq!(run.done, 0);
}

#[test]
fn searches_are_rendered() {
    let item = SearchItem {
        full_name: Some("a/b".to_string()),
        html_url: "u".to_string(),
        description: None,
        name: Some("f.rs".to_string()),
        path: Some("src/f.rs".to_string()),
        repository: Some("a/b".to_string()),
    };
    let found = |item| SearchOutcome::Found(SearchResponse { total_count: 1234, items: vec![item] });
    let r = search_result(false, found(item));
    assert_eq!(
        String::from_utf8(r.output).unwrap(),
        "# GitHub Repository Search\n\nFound 1234 results\n\n## a/b\nu\n(no description)\n\n"
    );
    let bare = SearchItem {
        full_name: None,
        html_url: "u".to_string(),
        description: None,
        name: None,
        path: None,
        repository: None,
    };
    let r = search_result(true, found(bare));
    assert_eq!(
        String::from_utf8(r.output).unwrap(),
        "# GitHub Code Search\n\nFound 1234 results\n\n## unknown/\n\nu\n\n"
    );
    let e = |o| search_result(true, o).error.unwrap();
    assert_eq!(e(SearchOutcome::RequestFailed("x".to_string())), "request failed: x");
    assert_eq!(
        e(SearchOutcome::ApiError { status: "403 Forbidden".to_string(), body: "b".to_string() }),
        "GitHub API error 403 Forbidden: b"
    );
    assert_eq!(e(SearchOutcome::Unreadable("x".to_string())), "failed to parse response: x");
}

#[test]
fn new_with_no_spec_blocks_network_by_default() {
    let sb = LinuxSandbox::new(None, SandboxMode::Warn);
    assert!(sb.block_network);
}

#[test]
fn spec_with_network_true_disables_block() {
    let spec = SandboxSpec { network: Some(true), ..Default::default() };
    let sb = LinuxSandbox::new(Some(&spec), SandboxMode::Warn);
    assert!(!sb.block_network);
}

#[test]
fn spec_read_paths_appended_to_defaults() {
    let spec = SandboxSpec {
        fs: SandboxFsSpec { read: vec!["/tmp/extra".to_string()], write: vec![] },
        ..Default::default()
    };
    let sb = LinuxSandbox::new(Some(&spec), SandboxMode::Warn);
    assert!(sb.read_paths.contains(&"/tmp/extra".to_string()));
    assert!(sb.read_paths.contains(&"/usr".to_string()));
}

#[test]
fn steps_of_the_linux_sandbox() {
    let spec = SandboxSpec {
        fs: SandboxFsSpec { read: vec![], write: vec!["./cache".to_string()] },
        network: Some(false),
        resources: SandboxResourceSpec { max_procs: Some(4), max_memory_mb: Some(128) },
    };
    let sb = LinuxSandbox::new(Some(&spec), SandboxMode::Strict);
    assert_eq!(sb.write_paths, vec!["./cache".to_string()]);
    assert_eq!(
        sb.steps(),
        vec![
            SandboxStep::NoNewPrivileges,
            SandboxStep::RestrictFiles,
            SandboxStep::BlockSockets,
            SandboxStep::LimitProcesses(4),
            SandboxStep::LimitMemory(128),
        ]
    );
    assert_eq!(memory_limit(128), 134217728);
    let open = SandboxSpec { network: Some(true), ..Default::default() };
    let sb = LinuxSandbox::new(Some(&open), SandboxMode::Warn);
    assert_eq!(sb.steps(), vec![SandboxStep::NoNewPrivileges, SandboxStep::RestrictFiles]);
}

fn refusal(v: StepVerdict) -> String {
    match v {
        StepVerdict::Refused(m) => m,
        v => panic!("got {:?}", v),
    }
}

#[test]
fn strict_mode_refuses_to_degrade() {
    let bad: Result<(), String> = Err("x".to_string());
    let s = SandboxMode::Strict;
    assert_eq!(refusal(landlock_created(&bad, s)), "Landlock not available: x");
    assert_eq!(refusal(landlock_rules_added(&bad, s)), "Landlock add_rules failed: x");
    assert_eq!(
        refusal(landlock_restricted(&Err("x".to_string()), s)),
        "Landlock restrict_self failed: x"
    );
    assert_eq!(
        refusal(landlock_restricted(&Ok(false), s)),
        "Landlock not fully enforced; refusing in strict mode"
    );
    let refused = filter_made(Err(FilterFailure::Init("x".to_string())), s);
    assert!(matches!(refused, SocketBlock::Refused(m) if m == "seccomp init: x"));
    assert_eq!(refusal(seccomp_applied(&bad, s)), "seccomp apply: x");
    assert_eq!(refusal(privileges_given_up(&bad, s)), "no_new_privs: x");
    assert_eq!(refusal(resource_limited(&bad, s)), "setrlimit: x");
    assert!(matches!(landlock_created(&Ok(()), s), StepVerdict::Proceed));
    assert!(matches!(landlock_restricted(&Ok(true), s), StepVerdict::Proceed));
}

#[test]
fn other_modes_degrade() {
    let bad: Result<(), String> = Err("x".to_string());
    for (mode, warn) in [(SandboxMode::Warn, true), (SandboxMode::Disabled, false)] {
        assert!(matches!(landlock_created(&bad, mode), StepVerdict::Degraded { warn: w } if w == warn));
        assert!(matches!(
            landlock_rules_added(&bad, mode),
            StepVerdict::Degraded { warn: w } if w == warn
        ));
        assert!(matches!(seccomp_applied(&bad, mode), StepVerdict::Degraded { warn: w } if w == warn));
        assert!(matches!(privileges_given_up(&bad, mode), StepVerdict::Degraded { warn: w } if w == warn));
        assert!(matches!(resource_limited(&bad, mode), StepVerdict::Degraded { warn: w } if w == warn));
        assert!(matches!(
            landlock_restricted(&Ok(false), mode),
            StepVerdict::Degraded { warn: w } if w == warn
        ));
        let refused = filter_made(Err(FilterFailure::Init("x".to_string())), mode);
        assert!(matches!(refused, SocketBlock::Degraded { warn: w } if w == warn));
    }
}

#[test]
fn a_filter_that_does_not_compile_degrades() {
    let failed = |mode| filter_made(Err(FilterFailure::Compile("x".to_string())), mode);
    let strict = failed(SandboxMode::Strict);
    assert!(matches!(strict, SocketBlock::Refused(m) if m == "seccomp compile: x"));
    assert!(matches!(failed(SandboxMode::Warn), SocketBlock::Degraded { warn: true }));
    assert!(matches!(failed(SandboxMode::Disabled), SocketBlock::Degraded { warn: false }));
    let made = filter_made(Ok(vec![(6, 0, 0, 7)]), SandboxMode::Strict);
    assert!(matches!(made, SocketBlock::Install(p) if p == vec![(6, 0, 0, 7)]));
}

#[test]
fn sockets_are_refused_by_number() {
    let program = match block_sockets("x86_64", 41, 1, SandboxMode::Strict) {
        SocketBlock::Install(p) => p,
        other => panic!("no filter: {:?}", other),
    };
    assert_eq!(
        program,
        vec![
            (0x20, 0, 0, 4),
            (0x15, 1, 0, 0xc000_003e),
            (0x06, 0, 0, 0x8000_0000),
            (0x20, 0, 0, 0),
            (0x15, 0, 1, 41),
            (0x05, 0, 0, 1),
            (0x05, 0, 0, 2),
            (0x06, 0, 0, 0x0005_0001),
            (0x06, 0, 0, 0x7fff_0000),
            (0x06, 0, 0, 0x7fff_0000),
        ]
    );
    match block_sockets("aarch64", 198, 1, SandboxMode::Strict) {
        SocketBlock::Install(p) => assert_eq!(p[1], (0x15, 1, 0, 0xc000_00b7)),
        other => panic!("no filter: {:?}", other),
    }
}

#[test]
fn a_processor_without_filters_degrades() {
    let refused = block_sockets("mips", 41, 1, SandboxMode::Strict);
    assert!(matches!(
        refused,
        SocketBlock::Refused(m) if m == "seccomp: unsupported arch: Invalid target arch: mips."
    ));
    let warned = block_sockets("mips", 41, 1, SandboxMode::Warn);
    assert!(matches!(warned, SocketBlock::Degraded { warn: true }));
}

#[test]
fn profile_contains_deny_default() {
    let profile = build_sbpl_profile(None);
    assert!(profile.contains("(deny default)"), "got: {}", profile);
}

#[test]
fn profile_denies_network_by_default() {
    let profile = build_sbpl_profile(None);
    assert!(profile.contains("(deny network*)"), "got: {}", profile);
}

#[test]
fn profile_allows_network_when_spec_says_true() {
    let spec = SandboxSpec { network: Some(true), ..Default::default() };
    let profile = build_sbpl_profile(Some(&spec));
    assert!(profile.contains("(allow network*)"), "got: {}", profile);
}

#[test]
fn profile_includes_custom_read_paths() {
    let spec = SandboxSpec {
        fs: SandboxFsSpec { read: vec!["/opt/homebrew".to_string()], write: vec![] },
        ..Default::default()
    };
    let profile = build_sbpl_profile(Some(&spec));
    assert!(profile.contains("/opt/homebrew"), "got: {}", profile);
}

#[test]
fn profile_includes_default_system_paths() {
    let profile = build_sbpl_profile(None);
    assert!(profile.contains("/usr"), "got: {}", profile);
    assert!(profile.contains("/lib"), "got: {}", profile);
}

#[test]
fn profile_lists_write_paths() {
    let spec = SandboxSpec {
        fs: SandboxFsSpec { read: vec![], write: vec!["/a".to_string(), "/b".to_string()] },
        ..Default::default()
    };
    let profile = build_sbpl_profile(Some(&spec));
    assert!(profile.contains("\n(allow file-write* (subpath \"/a\") (subpath \"/b\"))\n"));
    assert!(!build_sbpl_profile(None).contains("file-write"));
}

#[test]
fn sandbox_exec_runs_the_program() {
    let line = || CommandLine {
        program: "sh".to_string(),
        args: vec!["-c".to_string(), "date".to_string()],
    };
    let sb = MacOsSandbox::new(None, SandboxMode::Strict);
    let r = sb.rewrite(true, line());
    assert_eq!(r.program, "sandbox-exec");
    assert_eq!(r.args[0], "-p");
    assert_eq!(r.args[1], sb.profile);
    assert_eq!(r.args[2..], ["sh".to_string(), "-c".to_string(), "date".to_string()]);
    let r = sb.rewrite(false, line());
    assert_eq!(r.program, "sh");
    assert!(r.args[1].contains("strict mode refuses to run"));
    let lax = MacOsSandbox::new(None, SandboxMode::Warn);
    assert_eq!(lax.rewrite(false, line()).args, line().args);
}

#[test]
fn disabled_mode_returns_noop_that_does_not_panic() {
    for platform in [Platform::Linux, Platform::MacOs, Platform::Other] {
        assert!(matches!(
            build(None, SandboxMode::Disabled, platform),
            SandboxPolicy::Noop(_)
        ));
    }
    assert!(matches!(build(None, SandboxMode::Warn, Platform::Linux), SandboxPolicy::Linux(_)));
    assert!(matches!(build(None, SandboxMode::Warn, Platform::MacOs), SandboxPolicy::MacOs(_)));
    assert!(matches!(build(None, SandboxMode::Strict, Platform::Other), SandboxPolicy::Noop(_)));
    assert_eq!(SandboxMode::default(), SandboxMode::Warn);
}
