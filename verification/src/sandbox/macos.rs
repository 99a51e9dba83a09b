//! The policy for macOS: a profile for `sandbox-exec`.
use super::{allows_network, default_reads, opt_spec, SandboxMode, DEFAULT_READ_PATHS};
use crate::manifest::SandboxSpec;
use crate::split::{join, joined, views};
use vstd::prelude::*;

verus! {

/// A profile for `sandbox-exec`.
#[derive(Debug)]
pub struct MacOsSandbox {
    pub profile: String,
    pub mode: SandboxMode,
}

/// A program with its arguments.
#[derive(Debug)]
pub struct CommandLine {
    pub program: String,
    pub args: Vec<String>,
}

/// The rule for what lies under a path.
pub open spec fn subpath(p: Seq<char>) -> Seq<char> {
    "(subpath \""@ + p + "\")"@
}

/// The rules for what lies under some paths.
pub open spec fn subpaths(paths: Seq<Seq<char>>) -> Seq<char> {
    join(paths.map_values(|p: Seq<char>| subpath(p)), " "@)
}

/// The paths that a manifest opens for reading.
pub open spec fn reads(spec: Option<SandboxSpec>) -> Seq<Seq<char>> {
    match spec {
        None => seq![],
        Some(s) => views(s.fs.read@),
    }
}

/// The paths that a manifest opens for writing.
pub open spec fn writes(spec: Option<SandboxSpec>) -> Seq<Seq<char>> {
    match spec {
        None => seq![],
        Some(s) => views(s.fs.write@),
    }
}

/// The lines of the profile for a manifest.
pub open spec fn profile_lines(spec: Option<SandboxSpec>) -> Seq<Seq<char>> {
    seq![
        "(version 1)"@,
        "(deny default)"@,
        "(allow process-exec*)"@,
        "(allow process-fork)"@,
        "(allow signal)"@,
        "(allow file-read* "@ + subpaths(default_reads() + reads(spec)) + ")"@,
    ] + (if writes(spec).len() > 0 {
        seq!["(allow file-write* "@ + subpaths(writes(spec)) + ")"@]
    } else {
        seq![]
    }) + seq![
        if allows_network(spec) {
            "(allow network*)"@
        } else {
            "(deny network*)"@
        },
    ]
}

/// The rules for what lies under some paths.
fn subpaths_text(paths: &Vec<String>) -> (r: String)
    ensures
        r@ == subpaths(views(paths@)),
{
    let mut parts: Vec<String> = Vec::new();
    let mut i: usize = 0;
    while i < paths.len()
        invariant
            i <= paths@.len(),
            parts@.len() == i,
            forall|k: int| 0 <= k < i ==> (#[trigger] parts@[k])@ == subpath(paths@[k]@),
        decreases paths@.len() - i,
    {
        let mut s = "(subpath \"".to_string();
        s.push_str(&paths[i]);
        s.push_str("\")");
        parts.push(s);
        i = i + 1;
    }
    proof {
        assert(views(parts@) =~= views(paths@).map_values(|p: Seq<char>| subpath(p)));
    }
    joined(&parts, " ")
}

/// The profile for a manifest: everything is denied but running programs, reading
/// the default paths and those of the manifest, writing the paths of the manifest,
/// and the network where the manifest opens it.
pub fn build_sbpl_profile(spec: Option<&SandboxSpec>) -> (r: String)
    ensures
        r@ == join(profile_lines(opt_spec(spec)), "\n"@),
{
    let mut paths: Vec<String> = Vec::new();
    let mut i: usize = 0;
    while i < 8
        invariant
            i <= 8,
            paths@.len() == i,
            forall|k: int| 0 <= k < i ==> (#[trigger] paths@[k])@ == DEFAULT_READ_PATHS@[k]@,
        decreases 8 - i,
    {
        paths.push(DEFAULT_READ_PATHS[i].to_string());
        i = i + 1;
    }
    proof {
        assert(views(paths@) =~= default_reads());
        assert(default_reads() + Seq::<Seq<char>>::empty() =~= default_reads());
    }
    let mut lines: Vec<String> = Vec::new();
    lines.push("(version 1)".to_string());
    lines.push("(deny default)".to_string());
    lines.push("(allow process-exec*)".to_string());
    lines.push("(allow process-fork)".to_string());
    lines.push("(allow signal)".to_string());
    let mut network: bool = false;
    if let Some(s) = spec {
        let mut more = crate::paths::copy_texts(&s.fs.read);
        let ghost added = views(more@);
        paths.append(&mut more);
        proof {
            assert(views(paths@) =~= default_reads() + added);
        }
        if let Some(n) = s.network {
            network = n;
        }
    }
    let mut read_line = "(allow file-read* ".to_string();
    read_line.push_str(&subpaths_text(&paths));
    read_line.push_str(")");
    lines.push(read_line);
    if let Some(s) = spec {
        if s.fs.write.len() > 0 {
            let mut write_line = "(allow file-write* ".to_string();
            write_line.push_str(&subpaths_text(&s.fs.write));
            write_line.push_str(")");
            lines.push(write_line);
        }
    }
    if network {
        lines.push("(allow network*)".to_string());
    } else {
        lines.push("(deny network*)".to_string());
    }
    proof {
        assert(views(lines@) =~= profile_lines(opt_spec(spec)));
    }
    joined(&lines, "\n")
}

impl MacOsSandbox {
    /// Whether this is the policy that a manifest asks for.
    pub open spec fn enforces(&self, spec: Option<SandboxSpec>, mode: SandboxMode) -> bool {
        &&& self.profile@ == join(profile_lines(spec), "\n"@)
        &&& self.mode == mode
    }

    /// The policy that a manifest asks for.
    pub fn new(spec: Option<&SandboxSpec>, mode: SandboxMode) -> (r: Self)
        ensures
            r.enforces(opt_spec(spec), mode),
    {
        MacOsSandbox { profile: build_sbpl_profile(spec), mode }
    }

    /// The command line to run in place of another one. Where `sandbox-exec` is
    /// there, it runs the program under the profile; where it is not, a strict
    /// policy puts a program in its place that fails, and another one changes
    /// nothing.
    pub fn rewrite(&self, available: bool, command: CommandLine) -> (r: CommandLine)
        ensures
            available ==> r.program@ == "sandbox-exec"@ && views(r.args@) == seq![
                "-p"@,
                self.profile@,
                command.program@,
            ] + views(command.args@),
            !available && self.mode == SandboxMode::Strict ==> r.program@ == "sh"@ && views(r.args@)
                == seq![
                "-c"@,
                "echo '[ERROR:SANDBOX] sandbox-exec not found; strict mode refuses to run' >&2; exit 1"@,
            ],
            !available && self.mode != SandboxMode::Strict ==> r == command,
    {
        if !available {
            if self.mode == SandboxMode::Strict {
                let mut args: Vec<String> = Vec::new();
                args.push("-c".to_string());
                args.push(
                    "echo '[ERROR:SANDBOX] sandbox-exec not found; strict mode refuses to run' >&2; exit 1".to_string(),
                );
                proof {
                    assert(views(args@)
                        =~= seq![
                        "-c"@,
                        "echo '[ERROR:SANDBOX] sandbox-exec not found; strict mode refuses to run' >&2; exit 1"@,
                    ]);
                }
                return CommandLine { program: "sh".to_string(), args };
            }
            return command;
        }
        let mut args: Vec<String> = Vec::new();
        args.push("-p".to_string());
        args.push(self.profile.clone());
        args.push(command.program);
        let mut rest = command.args;
        args.append(&mut rest);
        proof {
            assert(views(args@) =~= seq!["-p"@, self.profile@, command.program@] + views(
                command.args@,
            ));
        }
        CommandLine { program: "sandbox-exec".to_string(), args }
    }
}

} // verus!
