//! The `how_to.md` of a tool that brings none.
use crate::manifest::{kind_key, EnvDecl, FileSpec, InputKind, InputSchema, Manifest};
use crate::text::{concat, concatenated};
use vstd::prelude::*;

verus! {

/// How the document names the input that an endpoint takes.
pub open spec fn input_text(kind: InputKind) -> Seq<char> {
    match kind {
        InputKind::String => "plain text"@,
        InputKind::Json => "JSON"@,
        InputKind::Empty => "nothing (read-only endpoint)"@,
    }
}

/// What the document says of the handler of a file.
pub open spec fn handler_text(handler: Option<String>) -> Seq<char> {
    match handler {
        None => ""@,
        Some(h) => " — handler: `"@ + h@ + "`"@,
    }
}

/// What the document says of the input of a file.
pub open spec fn takes_text(input: Option<InputSchema>) -> Seq<char> {
    match input {
        None => ""@,
        Some(i) => ", input: "@ + input_text(i.kind),
    }
}

/// The line of the document on a file.
pub open spec fn how_to_file_line(f: FileSpec) -> Seq<char> {
    "- **"@ + f.name@ + "** (`"@ + kind_key(f.kind) + "`)"@ + handler_text(f.handler) + takes_text(
        f.input,
    ) + "\n"@
}

/// The part of the document on the files.
pub open spec fn how_to_files(files: Seq<FileSpec>) -> Seq<char> {
    if files.len() == 0 {
        ""@
    } else {
        "## Files\n\n"@ + concat(files.map_values(|f: FileSpec| how_to_file_line(f))) + "\n"@
    }
}

/// What the document says of the meaning of a variable.
pub open spec fn meaning_text(description: Option<String>) -> Seq<char> {
    match description {
        None => ""@,
        Some(d) => " — "@ + d@,
    }
}

/// What the document says of a variable that is not set.
pub open spec fn unset_text(e: EnvDecl) -> Seq<char> {
    if e.required {
        " *(required)*"@
    } else {
        match e.default {
            None => ""@,
            Some(d) => " (default: `"@ + d@ + "`)"@,
        }
    }
}

/// The line of the document on a variable.
pub open spec fn how_to_env_line(e: EnvDecl) -> Seq<char> {
    "- `"@ + e.name@ + "`"@ + meaning_text(e.description) + unset_text(e) + "\n"@
}

/// The part of the document on the variables.
pub open spec fn how_to_env(env: Seq<EnvDecl>) -> Seq<char> {
    if env.len() == 0 {
        ""@
    } else {
        "## Required secrets\n\n"@ + concat(env.map_values(|e: EnvDecl| how_to_env_line(e)))
    }
}

/// The part of the document that says what the tool does.
pub open spec fn how_to_intro(description: Option<String>) -> Seq<char> {
    match description {
        None => ""@,
        Some(d) => d@ + "\n\n"@,
    }
}

/// The document for a manifest.
pub open spec fn how_to_document(m: Manifest) -> Seq<char> {
    "# "@ + (match m.name {
        None => "this tool"@,
        Some(n) => n@,
    }) + "\n\n"@ + how_to_intro(m.description) + how_to_files(m.files@) + how_to_env(m.env@)
}

/// The line of the document on a file.
fn file_line(f: &FileSpec) -> (r: String)
    ensures
        r@ == how_to_file_line(*f),
{
    let mut s = "- **".to_string();
    s.push_str(&f.name);
    s.push_str("** (`");
    s.push_str(f.kind.key());
    s.push_str("`)");
    let handler = match &f.handler {
        None => "".to_string(),
        Some(h) => {
            let mut t = " — handler: `".to_string();
            t.push_str(h);
            t.push_str("`");
            t
        },
    };
    s.push_str(&handler);
    let takes = match &f.input {
        None => "".to_string(),
        Some(i) => {
            let mut t = ", input: ".to_string();
            t.push_str(
                match i.kind {
                    InputKind::String => "plain text",
                    InputKind::Json => "JSON",
                    InputKind::Empty => "nothing (read-only endpoint)",
                },
            );
            t
        },
    };
    s.push_str(&takes);
    s.push_str("\n");
    s
}

/// The line of the document on a variable.
fn env_line(e: &EnvDecl) -> (r: String)
    ensures
        r@ == how_to_env_line(*e),
{
    let mut s = "- `".to_string();
    s.push_str(&e.name);
    s.push_str("`");
    let meaning = match &e.description {
        None => "".to_string(),
        Some(d) => {
            let mut t = " — ".to_string();
            t.push_str(d);
            t
        },
    };
    s.push_str(&meaning);
    let unset = if e.required {
        " *(required)*".to_string()
    } else {
        match &e.default {
            None => "".to_string(),
            Some(d) => {
                let mut t = " (default: `".to_string();
                t.push_str(d);
                t.push_str("`)");
                t
            },
        }
    };
    s.push_str(&unset);
    s.push_str("\n");
    s
}

/// The part of the document on the files.
fn files_part(files: &Vec<FileSpec>) -> (r: String)
    ensures
        r@ == how_to_files(files@),
{
    if files.len() == 0 {
        return "".to_string();
    }
    let mut lines: Vec<String> = Vec::new();
    let mut i: usize = 0;
    while i < files.len()
        invariant
            i <= files@.len(),
            lines@.len() == i,
            forall|k: int|
                0 <= k < i ==> (#[trigger] lines@[k])@ == how_to_file_line(files@[k]),
        decreases files@.len() - i,
    {
        lines.push(file_line(&files[i]));
        i = i + 1;
    }
    proof {
        assert(lines@.map_values(|s: String| s@) =~= files@.map_values(
            |f: FileSpec| how_to_file_line(f),
        ));
    }
    let mut out = "## Files\n\n".to_string();
    out.push_str(&concatenated(&lines));
    out.push_str("\n");
    out
}

/// The part of the document on the variables.
fn env_part(env: &Vec<EnvDecl>) -> (r: String)
    ensures
        r@ == how_to_env(env@),
{
    if env.len() == 0 {
        return "".to_string();
    }
    let mut lines: Vec<String> = Vec::new();
    let mut i: usize = 0;
    while i < env.len()
        invariant
            i <= env@.len(),
            lines@.len() == i,
            forall|k: int| 0 <= k < i ==> (#[trigger] lines@[k])@ == how_to_env_line(env@[k]),
        decreases env@.len() - i,
    {
        lines.push(env_line(&env[i]));
        i = i + 1;
    }
    proof {
        assert(lines@.map_values(|s: String| s@) =~= env@.map_values(
            |e: EnvDecl| how_to_env_line(e),
        ));
    }
    let mut out = "## Required secrets\n\n".to_string();
    out.push_str(&concatenated(&lines));
    out
}

/// Writes the document for a manifest: its name and description, its files with
/// their handlers and inputs, and the variables that it reads.
pub fn generate_how_to(manifest: &Manifest) -> (r: String)
    ensures
        r@ == how_to_document(*manifest),
{
    let mut out = "# ".to_string();
    match &manifest.name {
        None => out.push_str("this tool"),
        Some(n) => out.push_str(n),
    }
    out.push_str("\n\n");
    let intro = match &manifest.description {
        None => "".to_string(),
        Some(d) => {
            let mut t = d.clone();
            t.push_str("\n\n");
            t
        },
    };
    out.push_str(&intro);
    out.push_str(&files_part(&manifest.files));
    out.push_str(&env_part(&manifest.env));
    out
}

} // verus!
