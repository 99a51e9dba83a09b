//! What becomes of a handler that ran, and what the built-in tools do.
use super::texts::blank;
use crate::error::error_text;
use crate::manifest::{FileSpec, InputModel, Manifest};
use crate::number::decimal;
use crate::registry::{Invocation, Tool, ToolResult};
use crate::split::{split, trim, trim_start_of};
use crate::text::{concat, utf8_lossy};
use crate::tools::echo::EchoTool;
use crate::tools::external::{
    endpoint_schema, executable_names, external_description, first_nonblank, is_executable_file,
    is_refusal, may_run, run_error, run_output, run_stderr, script_outcome, DirFile, RunOutcome,
};
use crate::tools::github::{
    code_entry, repo_entry, search_document, search_error, GitHubTool, SearchItem, SearchOutcome,
    SearchResponse,
};
use crate::tools::pipe::{stage_handler, stage_schema};
use crate::tools::validate::{accepts, complaint};
use vstd::prelude::*;
use vstd::utf8::*;

verus! {

/// An error is shown with its code before it.
pub proof fn errors_have_a_code(code: Seq<char>, msg: Seq<char>)
    ensures
        error_text(code, msg) == "[ERROR:"@ + code + "] "@ + msg,
{
}

/// The output of a handler is handed on exactly if the handler succeeded, and as it is; a
/// handler that did not succeed gives an error and no output.
pub proof fn successful_handlers_are_heard(stdout: Vec<u8>, stderr: Vec<u8>, timeout: u64)
    ensures
        ({
            let done = RunOutcome::Exited { success: true, stdout, stderr };
            let failed = RunOutcome::Exited { success: false, stdout, stderr };
            &&& run_error(done, timeout) is None
            &&& run_output(done) == stdout@
            &&& run_stderr(done) == stderr@
            &&& run_error(failed, timeout) == Some(
                "[ERROR:HANDLER] "@ + trim(utf8_lossy(stderr@)),
            )
            &&& run_output(failed) == Seq::<u8>::empty()
            &&& run_stderr(failed) == stderr@
        }),
{
    reveal_strlit("[ERROR:");
    reveal_strlit("HANDLER");
    reveal_strlit("] ");
    reveal_strlit("[ERROR:HANDLER] ");
    let text = trim(utf8_lossy(stderr@));
    assert("[ERROR:"@ + "HANDLER"@ + "] "@ + text =~= "[ERROR:HANDLER] "@ + text);
}

/// A handler that could not be started, could not be given its input, took too long or could
/// not be waited for gives an error that says so, and nothing else.
pub proof fn failed_runs_say_why(o: RunOutcome, timeout: u64)
    requires
        !(o is Exited),
    ensures
        run_output(o) == Seq::<u8>::empty(),
        run_stderr(o) == Seq::<u8>::empty(),
        o matches RunOutcome::SpawnFailed(e) ==> run_error(o, timeout) == Some(
            "[ERROR:SPAWN] "@ + e@,
        ),
        o matches RunOutcome::StdinFailed(e) ==> run_error(o, timeout) == Some(
            "[ERROR:SPAWN] failed to write stdin: "@ + e@,
        ),
        o is TimedOut ==> run_error(o, timeout) == Some(
            "[ERROR:TIMEOUT] handler exceeded "@ + decimal(timeout as nat) + "s"@,
        ),
        o matches RunOutcome::WaitFailed(e) ==> run_error(o, timeout) == Some(
            "[ERROR:PROCESS] "@ + e@,
        ),
{
    reveal_strlit("[ERROR:");
    reveal_strlit("] ");
    match o {
        RunOutcome::SpawnFailed(e) => {
            reveal_strlit("SPAWN");
            reveal_strlit("[ERROR:SPAWN] ");
            assert("[ERROR:"@ + "SPAWN"@ + "] "@ + e@ =~= "[ERROR:SPAWN] "@ + e@);
        },
        RunOutcome::StdinFailed(e) => {
            reveal_strlit("SPAWN");
            reveal_strlit("failed to write stdin: ");
            reveal_strlit("[ERROR:SPAWN] failed to write stdin: ");
            assert("[ERROR:"@ + "SPAWN"@ + "] "@ + ("failed to write stdin: "@ + e@)
                =~= "[ERROR:SPAWN] failed to write stdin: "@ + e@);
        },
        RunOutcome::TimedOut => {
            let n = decimal(timeout as nat);
            reveal_strlit("TIMEOUT");
            reveal_strlit("handler exceeded ");
            reveal_strlit("[ERROR:TIMEOUT] handler exceeded ");
            assert("[ERROR:"@ + "TIMEOUT"@ + "] "@ + ("handler exceeded "@ + n + "s"@)
                =~= "[ERROR:TIMEOUT] handler exceeded "@ + n + "s"@);
        },
        RunOutcome::WaitFailed(e) => {
            reveal_strlit("PROCESS");
            reveal_strlit("[ERROR:PROCESS] ");
            assert("[ERROR:"@ + "PROCESS"@ + "] "@ + e@ =~= "[ERROR:PROCESS] "@ + e@);
        },
        _ => {},
    }
}

/// A script that could not be started is named in the error; everything else is as it came.
pub proof fn scripts_are_named_when_they_do_not_start(
    o: RunOutcome,
    script: Seq<char>,
    r: RunOutcome,
)
    requires
        script_outcome(o, script, r),
    ensures
        !(o is SpawnFailed) ==> r == o,
        o matches RunOutcome::SpawnFailed(e) ==> (r matches RunOutcome::SpawnFailed(m) && m@
            == "failed to spawn "@ + script + ": "@ + e@),
{
}

/// A handler runs on every input where none is declared, and else on those that are taken;
/// the others are answered with what is wrong with them.
pub proof fn refused_inputs_do_not_run(input: Seq<u8>, i: InputModel, r: ToolResult)
    ensures
        may_run(input, None),
        may_run(input, Some(i)) <==> accepts(input, i),
        is_refusal(input, Some(i), r) ==> (r.error matches Some(e) && e@
            == "[ERROR:INVALID_INPUT] "@ + complaint(input, i)) && r.output@ == Seq::<u8>::empty(),
{
    reveal_strlit("[ERROR:");
    reveal_strlit("] ");
    reveal_strlit("INVALID_INPUT");
    reveal_strlit("[ERROR:INVALID_INPUT] ");
    let c = complaint(input, i);
    assert("[ERROR:"@ + "INVALID_INPUT"@ + "] "@ + c =~= "[ERROR:INVALID_INPUT] "@ + c);
}

/// What a stage of a chain runs and takes is what the first file of its name declares.
pub proof fn stages_are_declared_files(files: Seq<FileSpec>, stage: Seq<char>, i: int)
    ensures
        0 <= i < files.len() && files[i].name@ == stage && (forall|j: int|
            0 <= j < i ==> (#[trigger] files[j]).name@ != stage) ==> {
            &&& stage_handler(files, stage) == (match files[i].handler {
                Some(h) => Some(h@),
                None => None,
            })
            &&& stage_schema(files, stage) == (match files[i].input {
                Some(s) => Some(s@),
                None => None,
            })
        },
        (forall|j: int| 0 <= j < files.len() ==> (#[trigger] files[j]).name@ != stage)
            ==> stage_handler(files, stage) is None && stage_schema(files, stage) is None,
{
    super::settings::files_are_found_by_name(files, stage, i);
}

// ---------------------------------------------------------------------------
// Tools on disk
// ---------------------------------------------------------------------------

proof fn lemma_first_nonblank(lines: Seq<Seq<char>>, i: int)
    requires
        forall|j: int| 0 <= j < i ==> blank(#[trigger] lines[j]),
        0 <= i <= lines.len(),
        i < lines.len() ==> !blank(lines[i]),
    ensures
        first_nonblank(lines) == (if i < lines.len() {
            Some(lines[i])
        } else {
            None
        }),
    decreases lines.len(),
{
    if lines.len() > 0 {
        super::texts::trimming_takes_white_space_only(lines[0]);
        if i > 0 {
            assert(blank(lines[0]));
            let rest = lines.drop_first();
            assert forall|j: int| 0 <= j < i - 1 implies blank(#[trigger] rest[j]) by {
                assert(rest[j] == lines[j + 1]);
            }
            if i < lines.len() {
                assert(rest[i - 1] == lines[i]);
            }
            lemma_first_nonblank(rest, i - 1);
        }
    }
}

/// A tool on disk is described by its manifest; without that by the first line of its how-to
/// document that is not white space, without the marks of a heading; and without that by
/// where it lies.
pub proof fn tools_describe_themselves(
    dir: Seq<char>,
    own: Seq<char>,
    document: Seq<char>,
    how_to: Option<Seq<char>>,
    i: int,
)
    requires
        0 <= i <= split(document, '\n').len(),
        forall|j: int| 0 <= j < i ==> blank(#[trigger] split(document, '\n')[j]),
        i < split(document, '\n').len() ==> !blank(split(document, '\n')[i]),
    ensures
        external_description(dir, Some(own), how_to) == own,
        external_description(dir, None, None) == "External tool at "@ + dir,
        external_description(dir, None, Some(document)) == (if i < split(document, '\n').len() {
            trim(trim_start_of(split(document, '\n')[i], "#"@))
        } else {
            "External tool at "@ + dir
        }),
{
    lemma_first_nonblank(split(document, '\n'), i);
}

/// The endpoints of a tool on disk are its files that somebody may execute, without
/// directories and the how-to document, in order.
pub proof fn executables_are_endpoints(files: Seq<DirFile>, f: DirFile)
    ensures
        executable_names(Seq::empty()) == Seq::<Seq<char>>::empty(),
        executable_names(files.push(f)) == (if !f.is_dir && f.name@ != "how_to.md"@ && (
        f.mode matches Some(m) && m & 0o111 != 0) {
            executable_names(files).push(f.name@)
        } else {
            executable_names(files)
        }),
{
    reveal(Seq::filter);
    assert(files.push(f).drop_last() =~= files);
    assert(executable_names(Seq::<DirFile>::empty()) =~= Seq::<Seq<char>>::empty());
    if is_executable_file(f) {
        assert(executable_names(files.push(f)) =~= executable_names(files).push(f.name@));
    }
}

/// What an endpoint takes is what the first file of its name declares.
pub proof fn endpoints_take_what_is_declared(m: &Manifest, endpoint: Seq<char>, i: int)
    ensures
        endpoint_schema(None, endpoint) is None,
        0 <= i < m.files@.len() && m.files@[i].name@ == endpoint && (forall|j: int|
            0 <= j < i ==> (#[trigger] m.files@[j]).name@ != endpoint) ==> endpoint_schema(
            Some(m),
            endpoint,
        ) == (match m.files@[i].input {
            Some(s) => Some(s@),
            None => None,
        }),
        (forall|j: int| 0 <= j < m.files@.len() ==> (#[trigger] m.files@[j]).name@ != endpoint)
            ==> endpoint_schema(Some(m), endpoint) is None,
{
    super::settings::files_are_found_by_name(m.files@, endpoint, i);
}

// ---------------------------------------------------------------------------
// Built-in tools
// ---------------------------------------------------------------------------

/// The tool that echoes gives back what it is given, whatever the endpoint, and has one
/// endpoint.
pub proof fn echo_gives_its_input_back(
    t: EchoTool,
    endpoint: Seq<char>,
    input: Seq<u8>,
    manifest: Option<&Manifest>,
    r: Invocation,
)
    requires
        t.answers(endpoint, input, manifest, r),
    ensures
        r matches Invocation::Done(d) && d.error is None && d.output@ == input,
        t.model().name == "echo"@,
        t.model().endpoints == seq!["send"@],
        t.model().description
            == "Echoes input back. Useful for testing LiveFolders is working."@,
{
}

/// A search is made of the query without the white space around it, where it goes depends on
/// the endpoint, and the token goes with it. Nothing is searched for without a query.
pub proof fn searches_go_to_their_endpoint(
    t: GitHubTool,
    endpoint: Seq<char>,
    input: Seq<u8>,
    manifest: Option<&Manifest>,
    r: Invocation,
)
    requires
        t.answers(endpoint, input, manifest, r),
    ensures
        !valid_utf8(input) ==> (r matches Invocation::Done(d) && (d.error matches Some(m) && m@
            == "input must be valid UTF-8"@)),
        valid_utf8(input) && blank(decode_utf8(input)) ==> (r matches Invocation::Done(d) && (
        d.error matches Some(m) && m@ == "query is empty"@)),
        valid_utf8(input) && !blank(decode_utf8(input)) ==> {
            &&& endpoint == "search_repos"@ ==> (r matches Invocation::GitHub(q) && q.url@
                == "https://api.github.com/search/repositories"@ && !q.code && q.query@ == trim(
                decode_utf8(input),
            ) && q.authorization@ == "Bearer "@ + t.token())
            &&& endpoint == "search_code"@ ==> (r matches Invocation::GitHub(q) && q.url@
                == "https://api.github.com/search/code"@ && q.code && q.query@ == trim(
                decode_utf8(input),
            ) && q.authorization@ == "Bearer "@ + t.token())
            &&& endpoint != "search_repos"@ && endpoint != "search_code"@ ==> (
            r matches Invocation::Done(d) && (d.error matches Some(m) && m@ == "unknown endpoint: "@
                + endpoint))
        },
        t.model().name == "github"@,
        t.model().endpoints == seq!["search_repos"@, "search_code"@],
        t.model().description == "Search GitHub repositories and code."@,
{
    reveal_strlit("search_repos");
    reveal_strlit("search_code");
    assert("search_repos"@.len() != "search_code"@.len());
    super::texts::trimming_takes_white_space_only(decode_utf8(input));
}

/// A search that failed says how.
pub proof fn failed_searches_say_why(o: SearchOutcome)
    ensures
        match o {
            SearchOutcome::Found(_) => search_error(o) is None,
            SearchOutcome::RequestFailed(e) => search_error(o) == Some("request failed: "@ + e@),
            SearchOutcome::ApiError { status, body } => search_error(o) == Some(
                "GitHub API error "@ + status@ + ": "@ + body@,
            ),
            SearchOutcome::Unreadable(e) => search_error(o) == Some(
                "failed to parse response: "@ + e@,
            ),
        },
{
}

/// The entry of a repository and that of a file in the document of a search.
pub proof fn entries_say_what_was_found(i: SearchItem)
    ensures
        repo_entry(i) == "## "@ + (if i.full_name is Some {
            i.full_name->0@
        } else {
            "unknown"@
        }) + "\n"@ + i.html_url@ + "\n"@ + (if i.description is Some {
            i.description->0@
        } else {
            "(no description)"@
        }) + "\n\n"@,
        code_entry(i) == "## "@ + (if i.repository is Some {
            i.repository->0@
        } else {
            "unknown"@
        }) + "/"@ + (if i.name is Some {
            i.name->0@
        } else {
            ""@
        }) + "\n"@ + (if i.path is Some {
            i.path->0@
        } else {
            ""@
        }) + "\n"@ + i.html_url@ + "\n\n"@,
{
}

/// The document of a search says how much was found, then has the entry of each result, in
/// order.
pub proof fn search_documents_list_the_results(code: bool, r: SearchResponse)
    ensures
        !code ==> search_document(code, r) == "# GitHub Repository Search\n\nFound "@ + decimal(
            r.total_count as nat,
        ) + " results\n\n"@ + concat(r.items@.map_values(|i: SearchItem| repo_entry(i))),
        code ==> search_document(code, r) == "# GitHub Code Search\n\nFound "@ + decimal(
            r.total_count as nat,
        ) + " results\n\n"@ + concat(r.items@.map_values(|i: SearchItem| code_entry(i))),
{
    let entries = r.items@.map_values(
        |i: SearchItem|
            if code {
                code_entry(i)
            } else {
                repo_entry(i)
            },
    );
    if code {
        assert(entries =~= r.items@.map_values(|i: SearchItem| code_entry(i)));
    } else {
        assert(entries =~= r.items@.map_values(|i: SearchItem| repo_entry(i)));
    }
}

} // verus!
