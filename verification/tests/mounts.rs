use livefolders::fs::attr::{EntryKind, Errno, FileMeta};
use livefolders::fs::data::{
    format_trace, plan_run, reply_bytes, HandlerPlan, ReadReply, ReleaseAction,
};
use livefolders::fs::invocation::{Edit, InvocationState};
use livefolders::fs::root_doc::{ROOT_CREATE_TOOL, ROOT_HOW_TO};
use livefolders::fs::slot_table::SlotHandle;
use livefolders::fs::tree::{page, DirFacts, DirItem, MkdirPlan, RmdirPlan, UnlinkPlan};
use livefolders::fs::vfs::DiskFacts;
use livefolders::fs::LiveFolders;
use livefolders::manifest::{FileKind, FileSpec, InputKind, InputSchema, Manifest};
use livefolders::paths::DiskPath;
use livefolders::registry::{Invocation, Session, SessionStore, ToolHandle, ToolRegistry, ToolResult};
use livefolders::sandbox::SandboxMode;
use livefolders::tools::{EchoTool, ExternalTool};
use std::sync::Arc;

const TOOLS: u64 = 2;

fn external(name: &str) -> ToolHandle {
    let dir = DiskPath::from_text(&format!("/tools/{}", name));
    ToolHandle { tool: Arc::new(ExternalTool::new(name.to_string(), dir, 30)) }
}

/// A mount with the tools `echo` (built in) and `shout` (on disk).
fn mount() -> LiveFolders {
    let mut reg = ToolRegistry::new();
    reg.register(ToolHandle { tool: Arc::new(EchoTool) });
    reg.register(external("shout"));
    let mut sessions = SessionStore::new();
    let session = Session::new(&mut sessions);
    LiveFolders::new(
        reg,
        Some(DiskPath::from_text("/tools")),
        "/mnt".to_string(),
        session,
        sessions,
        30,
        SandboxMode::Warn,
    )
}

fn file(name: &str, kind: FileKind, handler: Option<&str>) -> FileSpec {
    FileSpec {
        name: name.to_string(),
        kind,
        handler: handler.map(|h| h.to_string()),
        input: None,
        state_file: None,
        pipe: None,
        hidden: false,
        description: None,
    }
}

fn manifest() -> Manifest {
    Manifest {
        name: Some("shout".to_string()),
        files: vec![
            file("shout", FileKind::WriteInvoke, Some("tr a-z A-Z")),
            file("status", FileKind::ReadInvoke, Some("date")),
            file("notes.txt", FileKind::Passthrough, None),
            file("readme.md", FileKind::Readonly, None),
        ],
        ..Default::default()
    }
}

/// Facts on a file of the tool `shout` that is not on disk.
fn facts() -> DiskFacts {
    DiskFacts {
        tool_manifest: Some(manifest()),
        dir_manifest: Some(manifest()),
        meta: None,
        manifests: vec![],
    }
}

fn nothing() -> DiskFacts {
    DiskFacts { tool_manifest: None, dir_manifest: None, meta: None, manifests: vec![] }
}

fn on_disk(mode: u32, len: u64) -> DiskFacts {
    DiskFacts { meta: Some(FileMeta { is_dir: false, mode, len }), ..nothing() }
}

fn look(m: &mut LiveFolders, parent: u64, name: &str, facts: &DiskFacts) -> u64 {
    m.lookup(parent, Some(name), facts).unwrap().ino
}

/// The inode of an endpoint of the tool `shout`.
fn endpoint(m: &mut LiveFolders, name: &str) -> u64 {
    let dir = look(m, TOOLS, "shout", &nothing());
    assert_eq!(dir, 1100);
    look(m, dir, name, &facts())
}

fn wrote(m: &mut LiveFolders, ino: u64, sid: i32, data: &[u8]) -> ReleaseAction {
    let o = m.open(ino, Some(sid), &facts());
    assert!(o.direct_io);
    assert_eq!(m.write(ino, o.fh, None, 0, data, &facts(), 1), Ok(data.len()));
    m.release(ino, o.fh, None, &facts(), 2)
}

/// Runs the handler of a slot, which turns letters to upper case.
fn run(m: &mut LiveFolders, h: SlotHandle) -> Option<u64> {
    let (snapshot, input) = m.begin_invocation(h);
    match plan_run(&snapshot, input, Some(&manifest())) {
        HandlerPlan::Command { handler, input } => {
            assert_eq!(handler, "tr a-z A-Z");
            m.commit_result(h, ToolResult::ok(input.to_ascii_uppercase()), 3)
        }
        HandlerPlan::Fail(r) => m.commit_result(h, r, 3),
        p => panic!("got {:?}", p),
    }
}

/// What `cat` of an endpoint gives to a session.
fn cat(m: &mut LiveFolders, ino: u64, sid: i32) -> Vec<u8> {
    let o = m.open(ino, Some(sid), &facts());
    let mut out: Vec<u8> = Vec::new();
    loop {
        match m.read(ino, o.fh, None, out.len() as i64, 4, &facts(), 5) {
            ReadReply::Slot { handle, kick: false, wait: None } => {
                let part = m.finish_read(handle, (ino, sid), out.len() as i64, 4, 6);
                if part.is_empty() {
                    break;
                }
                out.extend(part);
            }
            r => panic!("got {:?}", r),
        }
    }
    m.release(ino, o.fh, None, &facts(), 7);
    out
}

/// What a read from the start of an endpoint gives that is not running.
fn ready(m: &mut LiveFolders, ino: u64, sid: i32, facts: &DiskFacts) -> Vec<u8> {
    match m.read(ino, 0, Some(sid), 0, 100, facts, 5) {
        ReadReply::Slot { handle, kick: false, wait: None } => {
            m.finish_read(handle, (ino, sid), 0, 100, 6)
        }
        r => panic!("got {:?}", r),
    }
}

fn started(a: ReleaseAction) -> SlotHandle {
    match a {
        ReleaseAction::Run(h) => h,
        a => panic!("got {:?}", a),
    }
}

#[test]
fn format_trace_success_includes_duration_and_ok() {
    let out = format_trace(123, false, b"");
    let s = String::from_utf8(out).unwrap();
    assert!(s.contains("duration_ms: 123"), "got: {}", s);
    assert!(s.contains("exit: ok"), "got: {}", s);
}

#[test]
fn format_trace_error_sets_exit_to_error() {
    let out = format_trace(0, true, b"");
    let s = String::from_utf8(out).unwrap();
    assert!(s.contains("exit: error"), "got: {}", s);
}

#[test]
fn format_trace_includes_trimmed_stderr() {
    let out = format_trace(50, false, b"  warning: something\n");
    let s = String::from_utf8(out).unwrap();
    assert!(s.contains("warning: something"), "got: {}", s);
    assert!(!s.ends_with("  "), "leading spaces should be trimmed");
    assert_eq!(s, "duration_ms: 50\nexit: ok\nstderr: warning: something\n");
}

#[test]
fn format_trace_empty_stderr_produces_empty_line() {
    let out = format_trace(10, false, b"");
    let s = String::from_utf8(out).unwrap();
    assert!(s.contains("stderr: \n"), "got: {}", s);
}

#[test]
fn two_parallel_shells_get_distinct_results() {
    let mut m = mount();
    let ep = endpoint(&mut m, "shout");
    let a = started(wrote(&mut m, ep, 1, b"alpha\n"));
    let b = started(wrote(&mut m, ep, 2, b"bravo\n"));
    assert!(a != b);
    run(&mut m, b);
    run(&mut m, a);
    let out_a = String::from_utf8(cat(&mut m, ep, 1)).unwrap();
    let out_b = String::from_utf8(cat(&mut m, ep, 2)).unwrap();
    assert!(out_a.contains("ALPHA"), "shell A expected ALPHA, got: {:?}", out_a);
    assert!(out_b.contains("BRAVO"), "shell B expected BRAVO, got: {:?}", out_b);
    assert!(!out_a.contains("BRAVO"), "shell A should not see shell B's data, got: {:?}", out_a);
    assert!(!out_b.contains("ALPHA"), "shell B should not see shell A's data, got: {:?}", out_b);
}

#[test]
fn many_parallel_shells_each_get_their_own_result() {
    let mut m = mount();
    let ep = endpoint(&mut m, "shout");
    let handles: Vec<SlotHandle> = (0..20)
        .map(|i| started(wrote(&mut m, ep, i + 1, format!("token{}\n", i).as_bytes())))
        .collect();
    for h in handles.into_iter().rev() {
        run(&mut m, h);
    }
    for i in 0..20 {
        let out = String::from_utf8(cat(&mut m, ep, i + 1)).unwrap();
        assert_eq!(out.trim(), format!("TOKEN{}", i));
    }
}

#[test]
fn same_shell_pipeline_works_sequentially() {
    let mut m = mount();
    let ep = endpoint(&mut m, "shout");
    let mut out = String::new();
    for word in ["one\n", "two\n", "three\n"] {
        let h = started(wrote(&mut m, ep, 9, word.as_bytes()));
        run(&mut m, h);
        out.push_str(&String::from_utf8(cat(&mut m, ep, 9)).unwrap());
    }
    assert!(out.contains("ONE"), "missing ONE: {:?}", out);
    assert!(out.contains("TWO"), "missing TWO: {:?}", out);
    assert!(out.contains("THREE"), "missing THREE: {:?}", out);
}

#[test]
fn results_are_consumed() {
    let mut m = mount();
    let ep = endpoint(&mut m, "shout");
    let h = started(wrote(&mut m, ep, 1, b"x"));
    run(&mut m, h);
    assert_eq!(cat(&mut m, ep, 1), b"X");
    assert_eq!(cat(&mut m, ep, 1), b"");
}

#[test]
fn readers_wait_for_a_running_handler() {
    let mut m = mount();
    let ep = endpoint(&mut m, "shout");
    let h = started(wrote(&mut m, ep, 1, b"x"));
    let (handle, ticket) = match m.read(ep, 0, Some(1), 0, 10, &facts(), 3) {
        ReadReply::Slot { handle, kick: false, wait: Some(t) } => (handle, t),
        r => panic!("got {:?}", r),
    };
    assert_eq!(m.slots().slot(h).state, InvocationState::Pending(ticket));
    assert_eq!(run(&mut m, h), Some(ticket));
    assert_eq!(m.finish_read(handle, (ep, 1), 0, 10, 4), b"X");
}

#[test]
fn two_readers_get_the_result() {
    let mut m = mount();
    let ep = endpoint(&mut m, "shout");
    let h = started(wrote(&mut m, ep, 1, b"x"));
    run(&mut m, h);
    let mut reader = || match m.read(ep, 0, Some(1), 0, 10, &facts(), 3) {
        ReadReply::Slot { handle, kick: false, wait: None } => handle,
        r => panic!("got {:?}", r),
    };
    let (first, second) = (reader(), reader());
    assert_eq!(m.finish_read(first, (ep, 1), 1, 10, 4), b"");
    assert!(m.slots().get((ep, 1)).is_none());
    assert!(m.slots().is_pinned(second));
    assert_eq!(m.finish_read(second, (ep, 1), 0, 10, 4), b"X");
    assert!(!m.slots().is_pinned(second));
}

#[test]
fn reading_a_read_endpoint_runs_it() {
    let mut m = mount();
    let ep = endpoint(&mut m, "status");
    let first = match m.read(ep, 0, Some(1), 0, 10, &facts(), 3) {
        ReadReply::Slot { handle, kick: true, wait: Some(_) } => handle,
        r => panic!("got {:?}", r),
    };
    let second = match m.read(ep, 0, Some(1), 0, 10, &facts(), 3) {
        ReadReply::Slot { handle, kick: false, wait: Some(_) } => handle,
        r => panic!("got {:?}", r),
    };
    let (snapshot, input) = m.begin_invocation(first);
    assert!(input.is_empty());
    assert_eq!(snapshot.handler.as_deref(), Some("date"));
    assert_eq!(snapshot.cwd.text(), "/tools/shout");
    m.commit_result(first, ToolResult::ok(b"now".to_vec()), 4);
    assert_eq!(m.finish_read(first, (ep, 1), 0, 10, 5), b"now");
    assert_eq!(m.finish_read(second, (ep, 1), 3, 10, 5), b"");
    assert_eq!(m.slots().len(), 0);
}

#[test]
fn errors_are_what_a_read_gives() {
    let mut m = mount();
    let ep = endpoint(&mut m, "shout");
    let h = started(wrote(&mut m, ep, 1, b"x"));
    m.begin_invocation(h);
    m.commit_result(h, ToolResult::err("[ERROR:HANDLER] no".to_string()).traced(7, b"se\n".to_vec()), 3);
    let log = {
        let dir = look(&mut m, TOOLS, "shout", &nothing());
        let a = m.lookup(dir, Some("shout.log"), &facts()).unwrap();
        assert_eq!((a.size, a.perm), (38, 0o444));
        a.ino
    };
    assert_eq!(m.getattr(log, &facts()).unwrap().size, 38);
    match m.read(log, 0, None, 0, 100, &facts(), 4) {
        ReadReply::Data(d) => assert_eq!(d, b"duration_ms: 7\nexit: error\nstderr: se\n"[..].to_vec()),
        r => panic!("got {:?}", r),
    }
    assert_eq!(cat(&mut m, ep, 1), b"[ERROR:HANDLER] no\n");
}

#[test]
fn input_is_checked_before_a_handler_runs() {
    let mut m = mount();
    let mut strict = manifest();
    strict.files[0].input = Some(InputSchema { min_length: Some(1), ..InputSchema::of_kind(InputKind::String) });
    let facts = DiskFacts { tool_manifest: Some(strict), ..nothing() };
    let ep = look(&mut m, 1100, "shout", &facts);
    m.write(ep, 0, Some(1), 0, b"\n", &facts, 1).unwrap();
    let h = started(m.release(ep, 0, Some(1), &facts, 2));
    run(&mut m, h);
    match m.read(ep, 0, Some(1), 0, 200, &facts, 3) {
        ReadReply::Slot { handle, .. } => assert_eq!(
            m.finish_read(handle, (ep, 1), 0, 200, 4),
            b"[ERROR:INVALID_INPUT] input too short: minimum 1 characters required\n"
        ),
        r => panic!("got {:?}", r),
    }
}

#[test]
fn snapshots_are_pinned() {
    let mut m = mount();
    let ep = endpoint(&mut m, "shout");
    let h = started(wrote(&mut m, ep, 1, b"x"));
    m.bump_manifest_version();
    m.removed_tool("shout");
    let (snapshot, _) = m.begin_invocation(h);
    assert_eq!(snapshot.manifest_version, 0);
    assert_eq!(snapshot.handler.as_deref(), Some("tr a-z A-Z"));
    m.commit_result(h, ToolResult::ok(vec![]), 3);
    m.write(ep, 0, Some(2), 0, b"y", &facts(), 4).unwrap();
    let other = m.slots().get((ep, 2)).unwrap();
    assert_eq!(m.slots().slot(other).snapshot.manifest_version, 1);
}

#[test]
fn chains_need_their_manifest() {
    let mut m = mount();
    let mut chained = manifest();
    chained.files[0].handler = None;
    chained.files[0].pipe = Some(vec!["status".to_string()]);
    let facts = DiskFacts { tool_manifest: Some(chained), ..nothing() };
    let ep = look(&mut m, 1100, "shout", &facts);
    m.write(ep, 0, Some(1), 0, b"in", &facts, 1).unwrap();
    let h = started(m.release(ep, 0, Some(1), &facts, 2));
    let (snapshot, input) = m.begin_invocation(h);
    let mut strict = snapshot.copy();
    strict.input_schema =
        Some(InputSchema { min_length: Some(9), ..InputSchema::of_kind(InputKind::String) });
    match plan_run(&strict, input.clone(), Some(&manifest())) {
        HandlerPlan::Fail(r) => {
            assert!(r.error.unwrap().starts_with("[ERROR:INVALID_INPUT] input too short"));
            assert!(r.output.is_empty());
        }
        p => panic!("got {:?}", p),
    }
    match plan_run(&snapshot, input.clone(), None) {
        HandlerPlan::Fail(r) => assert_eq!(r.error.as_deref(), Some("[ERROR:SPAWN] manifest not found")),
        p => panic!("got {:?}", p),
    }
    match plan_run(&snapshot, input, Some(&manifest())) {
        HandlerPlan::Pipe(p) => assert_eq!((p.stages, p.data), (vec!["status".to_string()], b"in".to_vec())),
        p => panic!("got {:?}", p),
    }
}

#[test]
fn built_in_tools_are_invoked() {
    let mut m = mount();
    let dir = look(&mut m, TOOLS, "echo", &nothing());
    assert_eq!(dir, 1000);
    let ep = look(&mut m, dir, "send", &nothing());
    assert_eq!(ep, 1010);
    assert_eq!(m.getattr(ep, &nothing()).unwrap().perm, 0o644);
    assert_eq!(m.write(ep, 0, Some(1), 0, b"hello", &nothing(), 1), Ok(5));
    match m.release(ep, 0, Some(1), &nothing(), 2) {
        ReleaseAction::Invoke { handle, tool, endpoint, input } => {
            assert_eq!((tool.as_str(), endpoint.as_str()), ("echo", "send"));
            let (early, ticket) = match m.read(ep, 0, Some(1), 0, 100, &nothing(), 3) {
                ReadReply::Slot { handle, kick: false, wait: Some(t) } => (handle, t),
                r => panic!("got {:?}", r),
            };
            let result = match m.invoke_tool(&tool, &endpoint, &input, None).unwrap() {
                Invocation::Done(r) => r,
                i => panic!("got {:?}", i),
            };
            assert_eq!(m.commit_result(handle, result, 3), Some(ticket));
            assert_eq!(m.finish_read(early, (ep, 1), 0, 3, 3), b"hel");
        }
        a => panic!("got {:?}", a),
    }
    assert_eq!(ready(&mut m, ep, 1, &nothing()), b"hello");
    assert_eq!(ready(&mut m, ep, 2, &nothing()), b"");
    assert!(matches!(m.release(ep, 0, Some(3), &nothing(), 5), ReleaseAction::Nothing));
}

#[test]
fn scripts_without_a_manifest_are_invoked() {
    let mut m = mount();
    let script = look(&mut m, 1100, "run.sh", &on_disk(0o755, 10));
    assert!(m.open(script, Some(1), &on_disk(0o755, 10)).direct_io);
    let emptied = m.setattr(script, None, Some(0), None, Some(1), &on_disk(0o755, 10), 1).unwrap();
    assert!(emptied.resize.is_none());
    m.write(script, 0, Some(1), 0, b"in", &on_disk(0o755, 10), 1).unwrap();
    match m.release(script, 0, Some(1), &on_disk(0o755, 10), 2) {
        ReleaseAction::Invoke { handle, tool, endpoint, input } => {
            assert_eq!((tool.as_str(), endpoint.as_str()), ("shout", "run.sh"));
            assert_eq!(input, b"in");
            m.commit_result(handle, ToolResult::ok(b"out".to_vec()), 3);
        }
        a => panic!("got {:?}", a),
    }
    assert_eq!(ready(&mut m, script, 1, &on_disk(0o755, 10)), b"out");
    m.removed_tool("shout");
    assert!(matches!(
        m.read(script, 0, Some(1), 0, 10, &on_disk(0o755, 10), 3),
        ReadReply::Disk(_)
    ));
    m.write(script, 0, Some(2), 0, b"in", &on_disk(0o755, 10), 3).unwrap();
    assert!(matches!(
        m.release(script, 0, Some(2), &on_disk(0o755, 10), 4),
        ReleaseAction::Nothing
    ));
}

/// What a file holds after edits were made to it.
fn made_to(bytes: &[u8], edits: &Vec<Edit>) -> Vec<u8> {
    let mut out = bytes.to_vec();
    for e in edits {
        let end = e.offset + e.data.len();
        if out.len() < end {
            out.resize(end, 0);
        }
        out[e.offset..end].copy_from_slice(&e.data);
    }
    out
}

#[test]
fn plain_files_are_flushed_to_disk() {
    let mut m = mount();
    let notes = look(&mut m, 1100, "notes.txt", &DiskFacts { meta: on_disk(0o644, 3).meta, ..facts() });
    for f in [facts(), on_disk(0o644, 3)] {
        assert!(!m.open(notes, Some(1), &f).direct_io);
        m.write(notes, 0, Some(1), 0, b"abc", &f, 1).unwrap();
        match m.release(notes, 0, Some(1), &f, 2) {
            ReleaseAction::WriteFile { path, edits } => {
                assert_eq!(path.text(), "/tools/shout/notes.txt");
                assert_eq!(made_to(b"", &edits), b"abc");
            }
            a => panic!("got {:?}", a),
        }
        assert!(matches!(m.release(notes, 0, Some(1), &f, 3), ReleaseAction::Nothing));
        m.write(notes, 0, Some(1), 3, b"def", &f, 1).unwrap();
        m.write(notes, 0, Some(1), 1, b"X", &f, 1).unwrap();
        m.write(notes, 0, Some(1), 1, b"", &f, 1).unwrap();
        match m.release(notes, 0, Some(1), &f, 2) {
            ReleaseAction::WriteFile { edits, .. } => {
                assert_eq!(edits.len(), 2);
                assert_eq!(made_to(b"abc", &edits), b"aXcdef");
                assert_eq!(made_to(b"abcdefgh", &edits), b"aXcdefgh");
            }
            a => panic!("got {:?}", a),
        }
    }
    assert_eq!(m.slots().len(), 0);
    match m.read(notes, 0, Some(1), 0, 10, &on_disk(0o644, 3), 4) {
        ReadReply::Disk(p) => assert_eq!(p.text(), "/tools/shout/notes.txt"),
        r => panic!("got {:?}", r),
    }
}

#[test]
fn logs_of_nothing_are_plain_files() {
    let mut m = mount();
    let f = DiskFacts { meta: on_disk(0o644, 12).meta, ..facts() };
    let plain = m.lookup(1100, Some("build.log"), &f).unwrap();
    assert_eq!((plain.size, plain.perm), (12, 0o644));
    assert_eq!(m.getattr(plain.ino, &f).unwrap(), plain);
    match m.read(plain.ino, 0, Some(1), 0, 10, &f, 1) {
        ReadReply::Disk(p) => assert_eq!(p.text(), "/tools/shout/build.log"),
        r => panic!("got {:?}", r),
    }
}

#[test]
fn readonly_files_are_not_written() {
    let mut m = mount();
    let f = DiskFacts { meta: on_disk(0o644, 3).meta, ..facts() };
    let readme = look(&mut m, 1100, "readme.md", &f);
    assert_eq!(m.write(readme, 0, Some(1), 0, b"x", &f, 1), Err(Errno::Access));
    for size in [0, 7] {
        let r = m.setattr(readme, Some(0o644), Some(size), None, Some(1), &f, 1);
        assert!(matches!(r, Err(Errno::Access)));
    }
    let r = m.setattr(readme, Some(0o600), None, None, Some(1), &f, 1).unwrap();
    assert_eq!(r.chmod.unwrap().text(), "/tools/shout/readme.md");
    assert!(r.resize.is_none());
    assert!(matches!(m.release(readme, 0, Some(1), &f, 2), ReleaseAction::Nothing));
    assert_eq!(m.write(3, 0, Some(1), 0, b"x", &f, 1), Err(Errno::Access));
    assert_eq!(m.slots().len(), 0);
}

#[test]
fn truncation_is_scoped_to_a_session() {
    let mut m = mount();
    let ep = endpoint(&mut m, "shout");
    m.write(ep, 0, Some(1), 0, b"one", &facts(), 1).unwrap();
    m.write(ep, 0, Some(2), 0, b"two", &facts(), 1).unwrap();
    let r = m.setattr(ep, Some(0o600), Some(0), None, Some(1), &facts(), 2).unwrap();
    assert_eq!(r.chmod.unwrap().text(), "/tools/shout/shout");
    assert!(r.resize.is_none());
    let one = m.slots().get((ep, 1)).unwrap();
    let two = m.slots().get((ep, 2)).unwrap();
    assert!(m.slots().slot(one).write_buf.is_empty());
    assert_eq!(m.slots().slot(two).write_buf, b"two");
    let plain = look(&mut m, 1100, "plain", &on_disk(0o644, 3));
    let r = m.setattr(plain, None, Some(0), None, None, &on_disk(0o644, 3), 2).unwrap();
    assert!(r.chmod.is_none());
    let resize = r.resize.unwrap();
    assert_eq!((resize.path.text().as_str(), resize.size), ("/tools/shout/plain", 0));
    assert!(resize.edits.is_empty());
    m.write(plain, 0, Some(3), 2, b"xy", &on_disk(0o644, 3), 2).unwrap();
    let r = m.setattr(plain, None, Some(1), None, Some(3), &on_disk(0o644, 3), 2).unwrap();
    let resize = r.resize.unwrap();
    assert_eq!((made_to(b"abc", &resize.edits), resize.size), (b"abxy".to_vec(), 1));
    let f = on_disk(0o644, 3);
    assert!(matches!(m.release(plain, 0, Some(3), &f, 3), ReleaseAction::Nothing));
}

#[test]
fn the_root_has_its_documents() {
    let mut m = mount();
    let none = nothing();
    for (name, ino, text) in [
        ("how_to.md", 4, ROOT_HOW_TO.to_string()),
        ("create_tool.md", 5, ROOT_CREATE_TOOL.to_string()),
        ("index.md", 3, m.registry.root_index()),
        ("system_prompt.md", 6, m.registry.system_prompt("/mnt", &vec![])),
    ] {
        let a = m.lookup(1, Some(name), &none).unwrap();
        assert_eq!((a.ino, a.size, a.perm), (ino, text.len() as u64, 0o444));
        assert_eq!(a.blocks, (text.len() as u64 + 511) / 512);
        assert_eq!(m.getattr(ino, &none).unwrap(), a);
        match m.read(ino, 0, None, 2, 5, &none, 0) {
            ReadReply::Data(d) => assert_eq!(d, text.as_bytes()[2..7].to_vec()),
            r => panic!("got {:?}", r),
        }
    }
    assert_eq!(m.lookup(1, Some("tools"), &none).unwrap().kind, EntryKind::Directory);
    assert_eq!(m.lookup(1, Some("nope"), &none), Err(Errno::NoEntry));
    assert_eq!(m.lookup(1, None, &none), Err(Errno::NoEntry));
    assert_eq!(m.getattr(1, &none).unwrap().nlink, 2);
    assert_eq!(m.getattr(77, &none), Err(Errno::NoEntry));
    assert!(matches!(m.read(77, 0, None, 0, 1, &none, 0), ReadReply::Error(Errno::NoEntry)));
}

#[test]
fn tools_have_their_documents() {
    let mut m = mount();
    let a = m.lookup(1000, Some("how_to.md"), &nothing()).unwrap();
    assert_eq!(a.ino, 1001);
    assert_eq!(m.getattr(1001, &nothing()).unwrap(), a);
    match m.read(1001, 0, None, 0, 6, &nothing(), 0) {
        ReadReply::Data(d) => assert_eq!(d, b"# echo"),
        r => panic!("got {:?}", r),
    }
    for name in ["how_to.md", "schema.json", "anthropic_tools.json"] {
        let a = m.lookup(1100, Some(name), &facts()).unwrap();
        assert_eq!(a.perm, 0o444);
        assert_eq!(m.getattr(a.ino, &facts()).unwrap(), a);
        match m.read(a.ino, 0, None, 0, 100_000, &facts(), 0) {
            ReadReply::Data(d) => assert_eq!(d.len() as u64, a.size, "{}", name),
            r => panic!("got {:?}", r),
        }
    }
    assert_eq!(m.lookup(1100, Some("nothing"), &facts()), Err(Errno::NoEntry));
    assert_eq!(m.lookup(1001, Some("x"), &facts()), Err(Errno::NoEntry));
    assert_eq!(m.lookup(TOOLS, Some("nope"), &nothing()), Err(Errno::NoEntry));
    let index = m.lookup(1, Some("index.md"), &nothing()).unwrap();
    assert_eq!(m.lookup(TOOLS, Some("index.md"), &nothing()).unwrap(), index);
}

#[test]
fn executable_files_report_no_size() {
    let mut m = mount();
    let ino = look(&mut m, 1100, "x", &on_disk(0o100755, 10));
    assert_eq!(m.getattr(ino, &on_disk(0o100755, 10)).unwrap().size, 0);
    let a = m.getattr(ino, &on_disk(0o100640, 10)).unwrap();
    assert_eq!((a.size, a.perm, a.blocks), (10, 0o640, 1));
    let dir = DiskFacts { meta: Some(FileMeta { is_dir: true, mode: 0o755, len: 0 }), ..nothing() };
    assert_eq!(m.getattr(ino, &dir).unwrap().kind, EntryKind::Directory);
    assert_eq!(m.getattr(ino, &nothing()), Err(Errno::NoEntry));
}

#[test]
fn paths_are_found_for_facts() {
    let mut m = mount();
    assert_eq!(m.lookup_path(1100, Some("a")).unwrap().text(), "/tools/shout/a");
    assert_eq!(m.lookup_tool(1100).as_deref(), Some("shout"));
    let sub = look(
        &mut m,
        1100,
        "sub",
        &DiskFacts { meta: Some(FileMeta { is_dir: true, mode: 0o755, len: 0 }), ..nothing() },
    );
    assert_eq!(m.lookup_path(sub, Some("b")).unwrap().text(), "/tools/shout/sub/b");
    assert_eq!(m.lookup_tool(sub), None);
    assert_eq!(m.owner_of(sub), Some(("shout".to_string(), "sub".to_string())));
    let deep = look(&mut m, sub, "b", &on_disk(0o644, 1));
    assert_eq!(deep, sub + 1);
    assert_eq!(m.lookup(sub, Some("c"), &nothing()), Err(Errno::NoEntry));
}

fn names(m: &mut LiveFolders, ino: u64, facts: &DirFacts) -> Vec<String> {
    m.readdir(ino, facts).unwrap().into_iter().map(|e| e.name).collect()
}

#[test]
fn directories_are_listed() {
    let mut m = mount();
    let none = DirFacts { is_dir: false, items: vec![], manifest: None };
    assert_eq!(
        names(&mut m, 1, &none),
        [".", "..", "how_to.md", "create_tool.md", "system_prompt.md", "index.md", "tools"]
    );
    assert_eq!(names(&mut m, TOOLS, &none), [".", "..", "echo", "shout", "index.md"]);
    assert_eq!(names(&mut m, 1000, &none), [".", "..", "how_to.md", "send"]);
    let disk = DirFacts {
        is_dir: true,
        items: vec![
            DirItem { name: "schema.json".to_string(), is_dir: false },
            DirItem { name: "sub".to_string(), is_dir: true },
        ],
        manifest: Some(manifest()),
    };
    assert_eq!(
        names(&mut m, 1100, &disk),
        [
            ".", "..", "schema.json", "sub", "how_to.md", "anthropic_tools.json", "shout",
            "shout.log", "status", "status.log", "notes.txt", "readme.md"
        ]
    );
    let v = m.readdir(1100, &disk).unwrap();
    assert_eq!((v[0].ino, v[1].ino, v[2].ino), (1100, 1, 100_001));
    assert_eq!(v[3].kind, EntryKind::Directory);
    let sub = v[3].ino;
    let ep = v[6].ino;
    assert_eq!(look(&mut m, 1100, "shout", &facts()), ep);
    let inner = DirFacts {
        is_dir: true,
        items: vec![DirItem { name: "f".to_string(), is_dir: false }],
        manifest: None,
    };
    assert_eq!(names(&mut m, sub, &inner), [".", "..", "f"]);
    assert!(matches!(m.readdir(1001, &none), Err(Errno::NotDirectory)));
    assert!(matches!(m.readdir(55, &none), Err(Errno::NoEntry)));
    let listing = m.readdir(1, &none).unwrap();
    for (offset, from) in [(0, 0), (3, 3), (7, 7), (9, 7), (-1, 7)] {
        let part: Vec<(i64, String)> =
            page(&listing, offset).into_iter().map(|e| (e.next, e.entry.name)).collect();
        let rest: Vec<(i64, String)> =
            (from..7).map(|i| (i as i64 + 1, listing[i].name.clone())).collect();
        assert_eq!(part, rest);
    }
}

#[test]
fn directories_are_made_and_removed() {
    let mut m = mount();
    match m.mkdir(TOOLS, "alpha") {
        MkdirPlan::Tool(p) => assert_eq!(p.text(), "/tools/alpha"),
        p => panic!("got {:?}", p),
    }
    let a = m.made_tool("alpha", external("alpha"));
    assert_eq!(a.ino, 1000);
    assert_eq!(m.registry.list(), vec!["alpha", "echo", "shout"]);
    let sub = m.made_dir(&DiskPath::from_text("/tools/alpha/sub"));
    assert_eq!((sub.ino, sub.kind), (100_001, EntryKind::Directory));
    assert!(matches!(m.mkdir(sub.ino, "x"), MkdirPlan::Sub(p) if p.text() == "/tools/alpha/sub/x"));
    assert!(matches!(m.mkdir(1000, "x"), MkdirPlan::Denied(Errno::Access)));
    assert!(matches!(m.rmdir(TOOLS, "alpha"), RmdirPlan::Tool(p) if p.text() == "/tools/alpha"));
    assert!(matches!(m.rmdir(1000, "sub"), RmdirPlan::Sub(p) if p.text() == "/tools/alpha/sub"));
    assert!(matches!(m.rmdir(1, "sub"), RmdirPlan::Denied(Errno::Access)));
    m.removed_tool("alpha");
    assert_eq!(m.registry.list(), vec!["echo", "shout"]);
    assert_eq!(m.create(1100, "f").unwrap().text(), "/tools/shout/f");
    assert!(matches!(m.create(1, "f"), Err(Errno::Access)));
    let f = m.created(&DiskPath::from_text("/tools/shout/f"));
    assert_eq!((f.ino, f.perm, f.size), (100_002, 0o644, 0));
    let (s, d) = m.rename(1100, "f", 1100, "g").unwrap();
    assert_eq!((s.text(), d.text()), ("/tools/shout/f".to_string(), "/tools/shout/g".to_string()));
    assert!(matches!(m.rename(1100, "f", 1, "g"), Err(Errno::Access)));
}

#[test]
fn unlink_clears_endpoints() {
    let mut m = mount();
    let ep = endpoint(&mut m, "shout");
    m.write(ep, 0, Some(1), 0, b"x", &facts(), 1).unwrap();
    m.write(ep, 0, Some(2), 0, b"y", &facts(), 1).unwrap();
    assert!(matches!(m.unlink(1100, Some("shout"), &facts()), UnlinkPlan::Cleared));
    assert_eq!(m.slots().len(), 0);
    assert!(matches!(m.unlink(1100, Some("status"), &facts()), UnlinkPlan::Cleared));
    assert!(matches!(
        m.unlink(1100, Some("notes.txt"), &facts()),
        UnlinkPlan::Remove(p) if p.text() == "/tools/shout/notes.txt"
    ));
    let present = DiskFacts { meta: on_disk(0o644, 1).meta, ..facts() };
    assert!(matches!(m.unlink(1100, Some("shout"), &present), UnlinkPlan::Remove(_)));
    assert!(matches!(m.unlink(1, Some("index.md"), &facts()), UnlinkPlan::Denied(Errno::Access)));
}

#[test]
fn file_handles_remember_their_session() {
    let mut m = mount();
    let ep = endpoint(&mut m, "shout");
    let a = m.open(ep, Some(5), &facts());
    let b = m.open(ep, None, &facts());
    assert_eq!((a.fh, b.fh), (1, 2));
    assert_eq!(m.resolve_sid(a.fh, None), 5);
    assert_eq!(m.resolve_sid(a.fh, Some(8)), 5);
    assert_eq!(m.resolve_sid(b.fh, Some(8)), 8);
    assert_eq!(m.resolve_sid(b.fh, None), 0);
    m.release(ep, a.fh, None, &facts(), 0);
    assert_eq!(m.resolve_sid(a.fh, None), 0);
}

#[test]
fn idle_slots_are_reaped() {
    let mut m = mount();
    let ep = endpoint(&mut m, "shout");
    m.write(ep, 0, Some(1), 0, b"x", &facts(), 1).unwrap();
    m.write(ep, 0, Some(2), 0, b"y", &facts(), 100).unwrap();
    assert_eq!(m.reap(102, 100), 1);
    assert_eq!(m.slots().len(), 1);
    assert!(m.check_fits());
}

#[test]
fn replies_are_parts() {
    assert_eq!(reply_bytes(b"hello", 1, 3), b"ell");
    assert_eq!(reply_bytes(b"hello", 5, 3), b"");
    assert_eq!(reply_bytes(b"hello", -2, 3), b"");
}
