//! Tools and what their invocations give.
use super::session::{Session, SessionState, SessionStore};
use crate::manifest::Manifest;
use crate::paths::DiskPath;
use crate::split::views;
use vstd::prelude::*;

verus! {

/// What an invocation gave: its output, or an error message, with the time that
/// it took and what the handler wrote to its standard error.
#[derive(Debug)]
pub struct ToolResult {
    pub output: Vec<u8>,
    pub error: Option<String>,
    pub duration_ms: u64,
    pub stderr: Vec<u8>,
}

impl ToolResult {
    /// Whether this is an output, and no more.
    pub open spec fn gives(&self, output: Seq<u8>) -> bool {
        &&& self.output@ == output
        &&& self.error is None
        &&& self.duration_ms == 0
        &&& self.stderr@ == Seq::<u8>::empty()
    }

    /// Whether this is an error message, and no more.
    pub open spec fn fails(&self, msg: Seq<char>) -> bool {
        &&& self.output@ == Seq::<u8>::empty()
        &&& self.error matches Some(e) && e@ == msg
        &&& self.duration_ms == 0
        &&& self.stderr@ == Seq::<u8>::empty()
    }

    /// A result with an output.
    pub fn ok(output: Vec<u8>) -> (r: Self)
        ensures
            r.gives(output@),
    {
        ToolResult { output, error: None, duration_ms: 0, stderr: Vec::new() }
    }

    /// A result with an error message.
    pub fn err(msg: String) -> (r: Self)
        ensures
            r.fails(msg@),
            r.error == Some(msg),
    {
        ToolResult { output: Vec::new(), error: Some(msg), duration_ms: 0, stderr: Vec::new() }
    }

    /// Whether the result is an error.
    pub fn is_error(&self) -> (r: bool)
        ensures
            r == self.error is Some,
    {
        self.error.is_some()
    }

    /// The result with the time that it took and the standard error.
    pub fn traced(self, duration_ms: u64, stderr: Vec<u8>) -> (r: Self)
        ensures
            r.output == self.output,
            r.error == self.error,
            r.duration_ms == duration_ms,
            r.stderr == stderr,
    {
        ToolResult { output: self.output, error: self.error, duration_ms, stderr }
    }
}

/// What a tool says of itself.
pub struct ToolModel {
    pub name: Seq<char>,
    pub description: Seq<char>,
    pub how_to: Seq<char>,
    pub endpoints: Seq<Seq<char>>,
}

/// A search that the GitHub API answers.
#[derive(Debug)]
pub struct GitHubRequest {
    pub url: String,
    pub authorization: String,
    pub query: String,
    /// Whether code is searched, and not repositories.
    pub code: bool,
}

/// A script that answers an invocation.
#[derive(Debug)]
pub struct ScriptRun {
    /// The program to run.
    pub script: DiskPath,
    /// The directory to run it in.
    pub dir: DiskPath,
    /// The value of the variable `LIVEFOLDERS_TOOL`.
    pub tool: String,
    /// The value of the variable `LIVEFOLDERS_ENDPOINT`.
    pub endpoint: String,
    pub timeout_secs: u64,
}

/// What has to be done for an invocation.
#[derive(Debug)]
pub enum Invocation {
    /// Nothing more: this is the result.
    Done(ToolResult),
    /// Run a script with the input on its standard input.
    Script(ScriptRun),
    /// Ask the GitHub API.
    GitHub(GitHubRequest),
}

/// A tool that is mounted as a directory.
pub trait Tool: Send + Sync {
    /// What the tool says of itself.
    spec fn model(&self) -> ToolModel;

    /// Whether `r` is what has to be done when `input` is written to an endpoint.
    spec fn answers(
        &self,
        endpoint: Seq<char>,
        input: Seq<u8>,
        manifest: Option<&Manifest>,
        r: Invocation,
    ) -> bool;

    /// What an invocation makes of the states of the sessions.
    spec fn updates(
        &self,
        endpoint: Seq<char>,
        input: Seq<u8>,
        session: Session,
        states: Seq<SessionState>,
    ) -> Seq<SessionState>;

    /// The name of the directory.
    fn name(&self) -> (r: &str)
        ensures
            r@ == self.model().name,
    ;

    /// One line on what the tool does.
    fn description(&self) -> (r: &str)
        ensures
            r@ == self.model().description,
    ;

    /// The Markdown text of the tool's `how_to.md`; empty where that file lives
    /// on disk.
    fn how_to(&self) -> (r: &str)
        ensures
            r@ == self.model().how_to,
    ;

    /// The names of the files under the tool's directory that invoke it.
    fn endpoints(&self) -> (r: Vec<String>)
        ensures
            views(r@) == self.model().endpoints,
    ;

    /// What has to be done when something is written to an endpoint. `session` is the
    /// state that the tools of the mount share, `manifest` what the tool's directory
    /// declares, where it declares something.
    fn invoke(
        &self,
        endpoint: &str,
        input: &[u8],
        session: Session,
        sessions: &mut SessionStore,
        manifest: Option<&Manifest>,
    ) -> (r: Invocation)
        requires
            old(sessions).wf(),
            old(sessions).has_session(session),
        ensures
            final(sessions).wf(),
            final(sessions).has_session(session),
            final(sessions)@ == self.updates(endpoint@, input@, session, old(sessions)@),
            self.answers(endpoint@, input@, manifest, r),
    ;
}

/// A shared tool.
pub struct ToolHandle {
    pub tool: std::sync::Arc<dyn Tool>,
}

impl ToolHandle {
    /// What the tool says of itself.
    pub open spec fn model(&self) -> ToolModel {
        self.tool.model()
    }

    /// The name of the tool.
    pub fn name(&self) -> (r: &str)
        ensures
            r@ == self.model().name,
    {
        self.tool.name()
    }

    /// One line on what the tool does.
    pub fn description(&self) -> (r: &str)
        ensures
            r@ == self.model().description,
    {
        self.tool.description()
    }

    /// The Markdown text of the tool's `how_to.md`.
    pub fn how_to(&self) -> (r: &str)
        ensures
            r@ == self.model().how_to,
    {
        self.tool.how_to()
    }

    /// The names of the tool's endpoints.
    pub fn endpoints(&self) -> (r: Vec<String>)
        ensures
            views(r@) == self.model().endpoints,
    {
        self.tool.endpoints()
    }

    /// What has to be done when something is written to an endpoint.
    pub fn invoke(
        &self,
        endpoint: &str,
        input: &[u8],
        session: Session,
        sessions: &mut SessionStore,
        manifest: Option<&Manifest>,
    ) -> (r: Invocation)
        requires
            old(sessions).wf(),
            old(sessions).has_session(session),
        ensures
            final(sessions).wf(),
            final(sessions).has_session(session),
            final(sessions)@ == self.tool.updates(endpoint@, input@, session, old(sessions)@),
            self.tool.answers(endpoint@, input@, manifest, r),
    {
        self.tool.invoke(endpoint, input, session, sessions, manifest)
    }
}

} // verus!
