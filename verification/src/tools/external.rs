//! Tools that live in a directory on disk.
use super::validate::{accepts, complaint, validate_input};
use crate::error::{error_text, format_error};
use crate::manifest::{file_named, input_view, InputModel, InputSchema, Manifest};
use crate::number::{decimal, to_decimal};
use crate::order::{sorted, sorted_texts};
use crate::paths::{join_components, join_text, DiskPath};
use crate::registry::session::SessionState;
use crate::registry::{
    Invocation, ScriptRun, Session, SessionStore, Tool, ToolModel, ToolResult,
};
use crate::sandbox::SandboxMode;
use crate::split::{cut, split, trim, trim_start_of, trimmed, trimmed_start_of, views};
use crate::text::{from_utf8_lossy, same, utf8_lossy};
use vstd::prelude::*;

verus! {

/// How the run of a handler ended.
#[derive(Debug)]
pub enum RunOutcome {
    /// The process could not be started.
    SpawnFailed(String),
    /// The input could not be handed to the process.
    StdinFailed(String),
    /// The process took too long.
    TimedOut,
    /// The process could not be waited for.
    WaitFailed(String),
    /// The process ended.
    Exited { success: bool, stdout: Vec<u8>, stderr: Vec<u8> },
}

/// The error of a run, where it is one. A handler that could not be started has the
/// code `SPAWN`, one that took too long `TIMEOUT`, one that could not be waited for
/// `PROCESS`, one that failed `HANDLER` and what it wrote to its standard error.
pub open spec fn run_error(o: RunOutcome, timeout_secs: u64) -> Option<Seq<char>> {
    match o {
        RunOutcome::SpawnFailed(e) => Some(error_text("SPAWN"@, e@)),
        RunOutcome::StdinFailed(e) => Some(
            error_text("SPAWN"@, "failed to write stdin: "@ + e@),
        ),
        RunOutcome::TimedOut => Some(
            error_text("TIMEOUT"@, "handler exceeded "@ + decimal(timeout_secs as nat) + "s"@),
        ),
        RunOutcome::WaitFailed(e) => Some(error_text("PROCESS"@, e@)),
        RunOutcome::Exited { success, stdout, stderr } => if success {
            None
        } else {
            Some(error_text("HANDLER"@, trim(utf8_lossy(stderr@))))
        },
    }
}

/// The output of a run: that of a handler that succeeded.
pub open spec fn run_output(o: RunOutcome) -> Seq<u8> {
    match o {
        RunOutcome::Exited { success, stdout, stderr } => if success {
            stdout@
        } else {
            seq![]
        },
        _ => seq![],
    }
}

/// What a handler wrote to its standard error.
pub open spec fn run_stderr(o: RunOutcome) -> Seq<u8> {
    match o {
        RunOutcome::Exited { success, stdout, stderr } => stderr@,
        _ => seq![],
    }
}

/// The result of a run of a handler.
pub fn command_result(outcome: RunOutcome, timeout_secs: u64, duration_ms: u64) -> (r: ToolResult)
    ensures
        r.output@ == run_output(outcome),
        crate::text::opt_view(r.error) == run_error(outcome, timeout_secs),
        r.stderr@ == run_stderr(outcome),
        r.duration_ms == duration_ms,
{
    let failed: ToolResult = match outcome {
        RunOutcome::SpawnFailed(e) => ToolResult::err(format_error("SPAWN", &e)),
        RunOutcome::StdinFailed(e) => {
            let mut m = "failed to write stdin: ".to_string();
            m.push_str(&e);
            ToolResult::err(format_error("SPAWN", &m))
        },
        RunOutcome::TimedOut => {
            let mut m = "handler exceeded ".to_string();
            m.push_str(&to_decimal(timeout_secs));
            m.push_str("s");
            ToolResult::err(format_error("TIMEOUT", &m))
        },
        RunOutcome::WaitFailed(e) => ToolResult::err(format_error("PROCESS", &e)),
        RunOutcome::Exited { success, stdout, stderr } => {
            if success {
                return ToolResult::ok(stdout).traced(duration_ms, stderr);
            }
            let said = from_utf8_lossy(stderr.as_slice());
            let r = ToolResult::err(format_error("HANDLER", &trimmed(&said)));
            return r.traced(duration_ms, stderr);
        },
    };
    failed.traced(duration_ms, Vec::new())
}

/// The outcome of a run of a script, where one that could not be started is said to
/// be that script.
pub open spec fn script_outcome(o: RunOutcome, script: Seq<char>, r: RunOutcome) -> bool {
    match o {
        RunOutcome::SpawnFailed(e) => r matches RunOutcome::SpawnFailed(m) && m@
            == "failed to spawn "@ + script + ": "@ + e@,
        _ => r == o,
    }
}

/// The result of a run of the script of an external tool.
pub fn script_result(
    outcome: RunOutcome,
    script: &DiskPath,
    timeout_secs: u64,
    duration_ms: u64,
) -> (r: ToolResult)
    ensures
        exists|o: RunOutcome| #[trigger]
            script_outcome(outcome, script.shown(), o) && r.output@ == run_output(o)
                && crate::text::opt_view(r.error) == run_error(o, timeout_secs) && r.stderr@
                == run_stderr(o),
        r.duration_ms == duration_ms,
{
    let o = match outcome {
        RunOutcome::SpawnFailed(e) => {
            let mut m = "failed to spawn ".to_string();
            m.push_str(&script.text());
            m.push_str(": ");
            m.push_str(&e);
            RunOutcome::SpawnFailed(m)
        },
        other => other,
    };
    proof {
        assert(script_outcome(outcome, script.shown(), o));
    }
    command_result(o, timeout_secs, duration_ms)
}

/// Whether an input may be handed to a handler.
pub open spec fn may_run(input: Seq<u8>, schema: Option<InputModel>) -> bool {
    schema matches Some(s) ==> accepts(input, s)
}

/// Whether a result refuses an input that a schema does not take.
pub open spec fn is_refusal(input: Seq<u8>, schema: Option<InputModel>, r: ToolResult) -> bool {
    r.fails(error_text("INVALID_INPUT"@, complaint(input, schema->0)))
}

/// Checks an input before the handler of an endpoint runs: the result of an
/// invocation that must not take place, or nothing.
pub fn check_invocation(input: &[u8], schema: Option<&InputSchema>) -> (r: Option<ToolResult>)
    ensures
        r is None <==> may_run(
            input@,
            match schema {
                None => None,
                Some(s) => Some(s@),
            },
        ),
        r matches Some(t) ==> schema is Some && is_refusal(input@, Some(schema->0@), t),
{
    match schema {
        None => None,
        Some(s) => match validate_input(input, s) {
            Ok(_) => None,
            Err(e) => Some(ToolResult::err(e)),
        },
    }
}

// ---------------------------------------------------------------------------
// The tool
// ---------------------------------------------------------------------------

/// A tool that lives in a directory on disk.
pub struct ExternalTool {
    name: String,
    dir: DiskPath,
    timeout_secs: u64,
    sandbox_mode: SandboxMode,
    description: String,
}

/// The first text of a list that is not blank.
pub open spec fn first_nonblank(pieces: Seq<Seq<char>>) -> Option<Seq<char>>
    decreases pieces.len(),
{
    if pieces.len() == 0 {
        None
    } else if trim(pieces[0]).len() > 0 {
        Some(pieces[0])
    } else {
        first_nonblank(pieces.drop_first())
    }
}

/// The headline of a document: its first line that is not blank, without the marks
/// of a heading.
pub open spec fn headline(document: Seq<char>) -> Option<Seq<char>> {
    match first_nonblank(split(document, '\n')) {
        None => None,
        Some(l) => Some(trim(trim_start_of(l, "#"@))),
    }
}

/// The description of a tool that has no document.
pub open spec fn plain_description(dir: Seq<char>) -> Seq<char> {
    "External tool at "@ + dir
}

/// The description of a tool: that of its manifest, else the headline of its
/// `how_to.md`, else where it lives.
pub open spec fn external_description(
    dir: Seq<char>,
    manifest: Option<Seq<char>>,
    how_to: Option<Seq<char>>,
) -> Seq<char> {
    match manifest {
        Some(d) => d,
        None => match how_to {
            None => plain_description(dir),
            Some(h) => match headline(h) {
                None => plain_description(dir),
                Some(l) => l,
            },
        },
    }
}

/// The optional view of an optional borrowed text.
pub open spec fn opt_str(s: Option<&str>) -> Option<Seq<char>> {
    match s {
        None => None,
        Some(s) => Some(s@),
    }
}

/// A file in the directory of a tool; `mode` is missing where it cannot be read.
#[derive(Debug)]
pub struct DirFile {
    pub name: String,
    pub is_dir: bool,
    pub mode: Option<u32>,
}

/// Whether a file of a tool can be invoked: it can be executed and is no directory.
pub open spec fn is_executable_file(f: DirFile) -> bool {
    &&& f.name@ != "how_to.md"@
    &&& !f.is_dir
    &&& f.mode matches Some(m) && m & 0o111 != 0
}

/// The names of the files that can be invoked.
pub open spec fn executable_names(files: Seq<DirFile>) -> Seq<Seq<char>> {
    files.filter(|f: DirFile| is_executable_file(f)).map_values(|f: DirFile| f.name@)
}

/// The schema that a manifest gives an endpoint.
pub open spec fn endpoint_schema(manifest: Option<&Manifest>, endpoint: Seq<char>) -> Option<
    InputModel,
> {
    match manifest {
        None => None,
        Some(m) => match file_named(m.files@, endpoint) {
            None => None,
            Some(f) => input_view(f.input),
        },
    }
}

impl ExternalTool {
    /// The name of the tool.
    pub closed spec fn tool_name(&self) -> Seq<char> {
        self.name@
    }

    /// The directory of the tool.
    pub closed spec fn tool_dir(&self) -> Seq<Seq<char>> {
        self.dir@
    }

    /// The text of the directory of the tool.
    pub closed spec fn tool_place(&self) -> Seq<char> {
        self.dir.shown()
    }

    /// How many seconds a script of the tool may take.
    pub closed spec fn timeout(&self) -> u64 {
        self.timeout_secs
    }

    /// How the scripts of the tool are sandboxed.
    pub closed spec fn mode(&self) -> SandboxMode {
        self.sandbox_mode
    }

    /// The description of the tool.
    pub closed spec fn described_as(&self) -> Seq<char> {
        self.description@
    }

    /// A tool in a directory, with the default sandbox mode.
    pub fn new(name: String, dir: DiskPath, timeout_secs: u64) -> (r: Self)
        ensures
            r.tool_name() == name@,
            r.tool_dir() == dir@,
            r.tool_place() == dir.shown(),
            r.timeout() == timeout_secs,
            r.mode() == SandboxMode::Warn,
            r.described_as() == plain_description(dir.shown()),
    {
        ExternalTool::with_sandbox_mode(name, dir, timeout_secs, SandboxMode::Warn)
    }

    /// A tool in a directory.
    pub fn with_sandbox_mode(
        name: String,
        dir: DiskPath,
        timeout_secs: u64,
        sandbox_mode: SandboxMode,
    ) -> (r: Self)
        ensures
            r.tool_name() == name@,
            r.tool_dir() == dir@,
            r.tool_place() == dir.shown(),
            r.timeout() == timeout_secs,
            r.mode() == sandbox_mode,
            r.described_as() == plain_description(dir.shown()),
    {
        let mut description = "External tool at ".to_string();
        description.push_str(&dir.text());
        ExternalTool { name, dir, timeout_secs, sandbox_mode, description }
    }

    /// The tool with the description that its directory gives: `manifest` is the
    /// description in its manifest, `how_to` the text of its `how_to.md`.
    pub fn described(self, manifest: Option<&str>, how_to: Option<&str>) -> (r: Self)
        ensures
            r.tool_name() == self.tool_name(),
            r.tool_dir() == self.tool_dir(),
            r.tool_place() == self.tool_place(),
            r.timeout() == self.timeout(),
            r.mode() == self.mode(),
            r.described_as() == external_description(
                self.tool_place(),
                opt_str(manifest),
                opt_str(how_to),
            ),
    {
        let description = match manifest {
            Some(d) => d.to_string(),
            None => ExternalTool::description_from_how_to(&self.dir, how_to),
        };
        ExternalTool {
            name: self.name,
            dir: self.dir,
            timeout_secs: self.timeout_secs,
            sandbox_mode: self.sandbox_mode,
            description,
        }
    }

    /// How the scripts of the tool are sandboxed.
    pub fn sandbox_mode(&self) -> (r: SandboxMode)
        ensures
            r == self.mode(),
    {
        self.sandbox_mode
    }

    /// The description that a `how_to.md` gives a tool.
    pub fn description_from_how_to(dir: &DiskPath, how_to: Option<&str>) -> (r: String)
        ensures
            r@ == external_description(dir.shown(), None, opt_str(how_to)),
    {
        if let Some(h) = how_to {
            let pieces = cut(h, '\n');
            let ghost all = views(pieces@);
            let mut i: usize = 0;
            proof {
                assert(all.skip(0) =~= all);
            }
            while i < pieces.len()
                invariant
                    i <= pieces@.len(),
                    all == views(pieces@),
                    all == split(h@, '\n'),
                    how_to == Some(h),
                    first_nonblank(all) == first_nonblank(all.skip(i as int)),
                decreases pieces@.len() - i,
            {
                proof {
                    assert(all.skip(i as int)[0] == pieces@[i as int]@);
                    assert(all.skip(i as int).drop_first() =~= all.skip(i + 1));
                }
                let t = trimmed(&pieces[i]);
                if !same(&t, "") {
                    proof {
                        reveal_strlit("");
                        assert(t@.len() > 0) by {
                            if t@.len() == 0 {
                                assert(t@ =~= ""@);
                            }
                        }
                    }
                    return trimmed(&trimmed_start_of(&pieces[i], "#"));
                }
                proof {
                    reveal_strlit("");
                }
                i = i + 1;
            }
        }
        let mut s = "External tool at ".to_string();
        s.push_str(&dir.text());
        s
    }

    /// The names of the files of a directory that can be invoked, in order.
    pub fn endpoints_from_disk(files: &Vec<DirFile>) -> (r: Vec<String>)
        ensures
            sorted(views(r@)),
            views(r@).to_multiset() == executable_names(files@).to_multiset(),
    {
        let mut eps: Vec<String> = Vec::new();
        let mut i: usize = 0;
        proof {
            reveal(Seq::filter);
            assert(files@.take(0) =~= seq![]);
            assert(views(eps@) =~= executable_names(files@.take(0)));
        }
        while i < files.len()
            invariant
                i <= files@.len(),
                views(eps@) == executable_names(files@.take(i as int)),
            decreases files@.len() - i,
        {
            let f = &files[i];
            let hit: bool = !same(&f.name, "how_to.md") && !f.is_dir && match f.mode {
                Some(m) => m & 0o111 != 0,
                None => false,
            };
            let ghost names = views(eps@);
            if hit {
                eps.push(f.name.clone());
            }
            proof {
                reveal(Seq::filter);
                assert(files@.take(i + 1).drop_last() =~= files@.take(i as int));
                assert(files@.take(i + 1).last() == *f);
                if hit {
                    assert(views(eps@) =~= names.push(f.name@));
                    assert(executable_names(files@.take(i + 1)) =~= names.push(f.name@));
                } else {
                    assert(executable_names(files@.take(i + 1)) =~= names);
                }
            }
            i = i + 1;
        }
        proof {
            assert(files@.take(files@.len() as int) =~= files@);
        }
        sorted_texts(&eps)
    }
}

impl Tool for ExternalTool {
    open spec fn model(&self) -> ToolModel {
        ToolModel {
            name: self.tool_name(),
            description: self.described_as(),
            how_to: ""@,
            endpoints: seq![],
        }
    }

    open spec fn updates(
        &self,
        endpoint: Seq<char>,
        input: Seq<u8>,
        session: Session,
        states: Seq<SessionState>,
    ) -> Seq<SessionState> {
        states
    }

    open spec fn answers(
        &self,
        endpoint: Seq<char>,
        input: Seq<u8>,
        manifest: Option<&Manifest>,
        r: Invocation,
    ) -> bool {
        match r {
            Invocation::Done(t) => !may_run(input, endpoint_schema(manifest, endpoint))
                && is_refusal(input, endpoint_schema(manifest, endpoint), t),
            Invocation::Script(s) => may_run(input, endpoint_schema(manifest, endpoint))
                && s.script@ == join_components(self.tool_dir(), endpoint) && s.script.shown()
                == join_text(self.tool_place(), endpoint) && s.dir@ == self.tool_dir() && s.tool@ == self.tool_name() && s.endpoint@ == endpoint
                && s.timeout_secs == self.timeout(),
            Invocation::GitHub(_) => false,
        }
    }

    fn name(&self) -> (r: &str)
        ensures
            r@ == self.tool_name(),
    {
        self.name.as_str()
    }

    fn description(&self) -> (r: &str)
        ensures
            r@ == self.described_as(),
    {
        self.description.as_str()
    }

    fn how_to(&self) -> (r: &str)
        ensures
            r@ == ""@,
    {
        ""
    }

    fn endpoints(&self) -> (r: Vec<String>)
        ensures
            views(r@) == Seq::<Seq<char>>::empty(),
    {
        let out: Vec<String> = Vec::new();
        proof {
            assert(views(out@) =~= Seq::<Seq<char>>::empty());
        }
        out
    }

    fn invoke(
        &self,
        endpoint: &str,
        input: &[u8],
        session: Session,
        sessions: &mut SessionStore,
        manifest: Option<&Manifest>,
    ) -> (r: Invocation) {
        let schema: Option<&InputSchema> = match manifest {
            None => None,
            Some(m) => match m.spec_for(endpoint) {
                None => None,
                Some(f) => f.input.as_ref(),
            },
        };
        match check_invocation(input, schema) {
            Some(t) => Invocation::Done(t),
            None => Invocation::Script(
                ScriptRun {
                    script: self.dir.join(endpoint),
                    dir: self.dir.copy(),
                    tool: self.name.clone(),
                    endpoint: endpoint.to_string(),
                    timeout_secs: self.timeout_secs,
                },
            ),
        }
    }
}

} // verus!
