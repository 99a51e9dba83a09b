//! A tool that searches GitHub.
use crate::manifest::Manifest;
use crate::number::{decimal, to_decimal};
use crate::registry::session::SessionState;
use crate::registry::{
    GitHubRequest, Invocation, Session, SessionStore, Tool, ToolModel, ToolResult,
};
use crate::split::{trim, trimmed, views};
use crate::text::{bytes_of, concat, concatenated, from_utf8, same};
use vstd::prelude::*;
use vstd::utf8::*;

verus! {

/// A tool that searches GitHub with a token.
pub struct GitHubTool {
    token: String,
}

/// The document on the tool.
pub const GITHUB_HOW_TO: &'static str = "# github

## Endpoints

### search_repos
Search GitHub repositories. Write a query string (GitHub search syntax).

```bash
echo \"language:rust fuse filesystem\" > /tools/github/search_repos
cat /tools/github/search_repos
```

### search_code
Search code across GitHub. Write a query string.

```bash
echo \"fuser mount in:file language:rust\" > /tools/github/search_code
cat /tools/github/search_code
```

## Query syntax
See https://docs.github.com/en/search-github/searching-on-github
Examples:
  - `tokio async runtime stars:>1000`
  - `org:rust-lang fuse`
  - `path:src/fs filename:vfs.rs`
";

/// A hit of a search.
#[derive(Debug)]
pub struct SearchItem {
    /// The name of a repository.
    pub full_name: Option<String>,
    pub html_url: String,
    pub description: Option<String>,
    /// The name of a file.
    pub name: Option<String>,
    /// The path of a file.
    pub path: Option<String>,
    /// The name of the repository of a file.
    pub repository: Option<String>,
}

/// What a search gave.
#[derive(Debug)]
pub struct SearchResponse {
    pub total_count: u64,
    pub items: Vec<SearchItem>,
}

/// How the request for a search ended.
#[derive(Debug)]
pub enum SearchOutcome {
    /// The request could not be sent.
    RequestFailed(String),
    /// The answer was an error, with its status and its text.
    ApiError { status: String, body: String },
    /// The answer could not be read.
    Unreadable(String),
    /// The answer.
    Found(SearchResponse),
}

/// A text or, where there is none, another one.
pub open spec fn or_text(s: Option<String>, other: Seq<char>) -> Seq<char> {
    match s {
        None => other,
        Some(s) => s@,
    }
}

/// A text or, where there is none, another one.
fn text_or<'a>(s: &'a Option<String>, other: &'a str) -> (r: &'a str)
    ensures
        r@ == or_text(*s, other@),
{
    match s {
        None => other,
        Some(s) => s.as_str(),
    }
}

/// The lines on a repository.
pub open spec fn repo_entry(i: SearchItem) -> Seq<char> {
    "## "@ + or_text(i.full_name, "unknown"@) + "\n"@ + i.html_url@ + "\n"@ + or_text(
        i.description,
        "(no description)"@,
    ) + "\n\n"@
}

/// The lines on a file.
pub open spec fn code_entry(i: SearchItem) -> Seq<char> {
    "## "@ + or_text(i.repository, "unknown"@) + "/"@ + or_text(i.name, ""@) + "\n"@ + or_text(
        i.path,
        ""@,
    ) + "\n"@ + i.html_url@ + "\n\n"@
}

/// The document on what a search gave.
pub open spec fn search_document(code: bool, r: SearchResponse) -> Seq<char> {
    (if code {
        "# GitHub Code Search\n\nFound "@
    } else {
        "# GitHub Repository Search\n\nFound "@
    }) + decimal(r.total_count as nat) + " results\n\n"@ + concat(
        r.items@.map_values(
            |i: SearchItem|
                if code {
                    code_entry(i)
                } else {
                    repo_entry(i)
                },
        ),
    )
}

/// The error of a search, where it is one.
pub open spec fn search_error(o: SearchOutcome) -> Option<Seq<char>> {
    match o {
        SearchOutcome::RequestFailed(e) => Some("request failed: "@ + e@),
        SearchOutcome::ApiError { status, body } => Some(
            "GitHub API error "@ + status@ + ": "@ + body@,
        ),
        SearchOutcome::Unreadable(e) => Some("failed to parse response: "@ + e@),
        SearchOutcome::Found(_) => None,
    }
}

fn entry(code: bool, i: &SearchItem) -> (r: String)
    ensures
        r@ == (if code {
            code_entry(*i)
        } else {
            repo_entry(*i)
        }),
{
    let mut s = "## ".to_string();
    if code {
        s.push_str(text_or(&i.repository, "unknown"));
        s.push_str("/");
        s.push_str(text_or(&i.name, ""));
        s.push_str("\n");
        s.push_str(text_or(&i.path, ""));
        s.push_str("\n");
        s.push_str(&i.html_url);
        s.push_str("\n\n");
    } else {
        s.push_str(text_or(&i.full_name, "unknown"));
        s.push_str("\n");
        s.push_str(&i.html_url);
        s.push_str("\n");
        s.push_str(text_or(&i.description, "(no description)"));
        s.push_str("\n\n");
    }
    s
}

/// The document on what a search gave.
fn document(code: bool, r: &SearchResponse) -> (t: String)
    ensures
        t@ == search_document(code, *r),
{
    let mut out = if code {
        "# GitHub Code Search\n\nFound ".to_string()
    } else {
        "# GitHub Repository Search\n\nFound ".to_string()
    };
    out.push_str(&to_decimal(r.total_count));
    out.push_str(" results\n\n");
    let mut lines: Vec<String> = Vec::new();
    let mut i: usize = 0;
    while i < r.items.len()
        invariant
            i <= r.items@.len(),
            lines@.len() == i,
            forall|k: int|
                0 <= k < i ==> (#[trigger] lines@[k])@ == (if code {
                    code_entry(r.items@[k])
                } else {
                    repo_entry(r.items@[k])
                }),
        decreases r.items@.len() - i,
    {
        lines.push(entry(code, &r.items[i]));
        i = i + 1;
    }
    proof {
        assert(lines@.map_values(|s: String| s@) =~= r.items@.map_values(
            |i: SearchItem|
                if code {
                    code_entry(i)
                } else {
                    repo_entry(i)
                },
        ));
    }
    out.push_str(&concatenated(&lines));
    out
}

/// The result of a search.
pub fn search_result(code: bool, outcome: SearchOutcome) -> (r: ToolResult)
    ensures
        match search_error(outcome) {
            Some(m) => r.fails(m),
            None => outcome matches SearchOutcome::Found(found) && r.gives(
                encode_utf8(search_document(code, found)),
            ),
        },
{
    match outcome {
        SearchOutcome::RequestFailed(e) => {
            let mut m = "request failed: ".to_string();
            m.push_str(&e);
            ToolResult::err(m)
        },
        SearchOutcome::ApiError { status, body } => {
            let mut m = "GitHub API error ".to_string();
            m.push_str(&status);
            m.push_str(": ");
            m.push_str(&body);
            ToolResult::err(m)
        },
        SearchOutcome::Unreadable(e) => {
            let mut m = "failed to parse response: ".to_string();
            m.push_str(&e);
            ToolResult::err(m)
        },
        SearchOutcome::Found(found) => ToolResult::ok(bytes_of(&document(code, &found))),
    }
}

/// The query in an input: its text without white space around it.
pub open spec fn query_of(input: Seq<u8>) -> Seq<char> {
    trim(decode_utf8(input))
}

/// The error of an invocation that asks nothing of GitHub.
pub open spec fn query_error(endpoint: Seq<char>, input: Seq<u8>) -> Option<Seq<char>> {
    if !valid_utf8(input) {
        Some("input must be valid UTF-8"@)
    } else if query_of(input).len() == 0 {
        Some("query is empty"@)
    } else if endpoint == "search_repos"@ || endpoint == "search_code"@ {
        None
    } else {
        Some("unknown endpoint: "@ + endpoint)
    }
}

impl GitHubTool {
    /// The token that requests are made with.
    pub closed spec fn token(&self) -> Seq<char> {
        self.token@
    }

    /// A tool that searches with a token.
    pub fn new(token: String) -> (r: Self)
        ensures
            r.token() == token@,
    {
        GitHubTool { token }
    }
}

impl Tool for GitHubTool {
    open spec fn model(&self) -> ToolModel {
        ToolModel {
            name: "github"@,
            description: "Search GitHub repositories and code."@,
            how_to: GITHUB_HOW_TO@,
            endpoints: seq!["search_repos"@, "search_code"@],
        }
    }

    open spec fn updates(
        &self,
        endpoint: Seq<char>,
        input: Seq<u8>,
        session: Session,
        states: Seq<SessionState>,
    ) -> Seq<SessionState> {
        states
    }

    open spec fn answers(
        &self,
        endpoint: Seq<char>,
        input: Seq<u8>,
        manifest: Option<&Manifest>,
        r: Invocation,
    ) -> bool {
        match r {
            Invocation::Done(t) => query_error(endpoint, input) matches Some(m) && t.fails(m),
            Invocation::GitHub(q) => query_error(endpoint, input) is None && q.query@ == query_of(
                input,
            ) && q.authorization@ == "Bearer "@ + self.token() && q.code == (endpoint
                == "search_code"@) && q.url@ == (if q.code {
                "https://api.github.com/search/code"@
            } else {
                "https://api.github.com/search/repositories"@
            }),
            Invocation::Script(_) => false,
        }
    }

    fn name(&self) -> (r: &str) {
        "github"
    }

    fn description(&self) -> (r: &str) {
        "Search GitHub repositories and code."
    }

    fn how_to(&self) -> (r: &str) {
        GITHUB_HOW_TO
    }

    fn endpoints(&self) -> (r: Vec<String>) {
        let mut out: Vec<String> = Vec::new();
        out.push("search_repos".to_string());
        out.push("search_code".to_string());
        proof {
            assert(views(out@) =~= seq!["search_repos"@, "search_code"@]);
        }
        out
    }

    fn invoke(
        &self,
        endpoint: &str,
        input: &[u8],
        session: Session,
        sessions: &mut SessionStore,
        manifest: Option<&Manifest>,
    ) -> (r: Invocation) {
        let query = match from_utf8(input) {
            None => {
                return Invocation::Done(ToolResult::err("input must be valid UTF-8".to_string()));
            },
            Some(s) => trimmed(s),
        };
        if crate::text::chars_of(&query).len() == 0 {
            return Invocation::Done(ToolResult::err("query is empty".to_string()));
        }
        let code: bool = same(endpoint, "search_code");
        if !code && !same(endpoint, "search_repos") {
            let mut m = "unknown endpoint: ".to_string();
            m.push_str(endpoint);
            return Invocation::Done(ToolResult::err(m));
        }
        let mut authorization = "Bearer ".to_string();
        authorization.push_str(&self.token);
        let url = if code {
            "https://api.github.com/search/code".to_string()
        } else {
            "https://api.github.com/search/repositories".to_string()
        };
        Invocation::GitHub(GitHubRequest { url, authorization, query, code })
    }
}

} // verus!
