//! Checks of a setup, with actionable fixes.
use crate::config::{resolved, Config};
use crate::manifest::{all_in_order, complains, first_out_of_order, Manifest};
use crate::sandbox::Platform;
use crate::split::views;
use crate::tools::external::opt_str;
use vstd::prelude::*;

verus! {

/// The outcome of a check.
#[derive(Debug)]
pub struct CheckResult {
    pub name: &'static str,
    pub ok: bool,
    pub message: String,
}

/// Checks for the FUSE device.
pub fn check_fuse(exists: bool) -> (r: CheckResult)
    ensures
        r.name@ == "FUSE device"@,
        r.ok == exists,
        r.message@ == (if exists {
            "/dev/fuse exists"@
        } else {
            "/dev/fuse not found. Install FUSE: sudo apt-get install fuse3"@
        }),
{
    CheckResult {
        name: "FUSE device",
        ok: exists,
        message: if exists {
            "/dev/fuse exists".to_string()
        } else {
            "/dev/fuse not found. Install FUSE: sudo apt-get install fuse3".to_string()
        },
    }
}

/// Checks for a configuration file in the current directory.
pub fn check_config_exists(exists: bool) -> (r: CheckResult)
    ensures
        r.name@ == "livefolders.yaml"@,
        r.ok == exists,
        r.message@ == (if exists {
            "livefolders.yaml found"@
        } else {
            "livefolders.yaml not found in current directory. Run `livefolders init` to create one."@
        }),
{
    CheckResult {
        name: "livefolders.yaml",
        ok: exists,
        message: if exists {
            "livefolders.yaml found".to_string()
        } else {
            "livefolders.yaml not found in current directory. Run `livefolders init` to create one.".to_string()
        },
    }
}

/// What the check of the directory of tools says.
pub open spec fn tools_dir_message(cfg: Config, home: Option<Seq<char>>, exists: bool) -> Seq<
    char,
> {
    match cfg.tools_dir {
        None => "tools_dir is not set in livefolders.yaml. Add: tools_dir: ~/.config/livefolders/tools"@,
        Some(d) => match resolved(d@, home) {
            None => "tools_dir config error: "@
                + "tools_dir starts with '~/' but $HOME is not set"@,
            Some(p) => if exists {
                p + " exists"@
            } else {
                p + " does not exist. Run `livefolders install <url>` to create it."@
            },
        },
    }
}

/// Checks for the directory of tools; `exists` says whether the directory that the
/// configuration stands for is there.
pub fn check_tools_dir(cfg: &Config, home: Option<&str>, exists: bool) -> (r: CheckResult)
    ensures
        r.name@ == "tools_dir"@,
        r.ok == (exists && (cfg.tools_dir matches Some(d) && resolved(d@, opt_str(home)) is Some)),
        r.message@ == tools_dir_message(*cfg, opt_str(home), exists),
{
    match cfg.resolved_tools_dir(home) {
        Err(e) => {
            let mut message = "tools_dir config error: ".to_string();
            message.push_str(&e);
            CheckResult { name: "tools_dir", ok: false, message }
        },
        Ok(None) => CheckResult {
            name: "tools_dir",
            ok: false,
            message: "tools_dir is not set in livefolders.yaml. Add: tools_dir: ~/.config/livefolders/tools".to_string(),
        },
        Ok(Some(p)) => {
            let mut message = p;
            if exists {
                message.push_str(" exists");
            } else {
                message.push_str(" does not exist. Run `livefolders install <url>` to create it.");
            }
            CheckResult { name: "tools_dir", ok: exists, message }
        },
    }
}

/// What is known of the manifest of a tool.
pub enum ManifestFact {
    /// There is no `folder.yaml`.
    Absent,
    /// It cannot be read.
    Unreadable,
    /// What it declares.
    Read(Manifest),
}

/// The directory of a tool.
pub struct ToolDirFact {
    pub name: String,
    pub manifest: ManifestFact,
}

/// Whether a result is that of the check of a tool.
pub open spec fn tool_checked(t: ToolDirFact, r: CheckResult) -> bool {
    let head = "tool '"@ + t.name@;
    &&& r.name@ == "tool manifest"@
    &&& match t.manifest {
        ManifestFact::Absent => !r.ok && r.message@ == head + "' has no folder.yaml"@,
        ManifestFact::Unreadable => !r.ok && r.message@ == head
            + "' folder.yaml could not be read"@,
        ManifestFact::Read(m) => if all_in_order(m.files@) {
            r.ok && r.message@ == head + "' folder.yaml is valid"@
        } else {
            !r.ok && exists|i: int, e: Seq<char>| #[trigger]
                first_out_of_order(m.files@, i) && #[trigger] complains(m.files@, m.files@[i], e)
                    && r.message@ == head + "' folder.yaml is invalid: "@ + e
        },
    }
}

/// Checks the manifest of a tool.
pub fn check_tool_manifest(t: &ToolDirFact) -> (r: CheckResult)
    ensures
        tool_checked(*t, r),
{
    let mut message = "tool '".to_string();
    message.push_str(&t.name);
    match &t.manifest {
        ManifestFact::Absent => {
            message.push_str("' has no folder.yaml");
            CheckResult { name: "tool manifest", ok: false, message }
        },
        ManifestFact::Unreadable => {
            message.push_str("' folder.yaml could not be read");
            CheckResult { name: "tool manifest", ok: false, message }
        },
        ManifestFact::Read(m) => match m.validate() {
            Ok(_) => {
                message.push_str("' folder.yaml is valid");
                CheckResult { name: "tool manifest", ok: true, message }
            },
            Err(e) => {
                message.push_str("' folder.yaml is invalid: ");
                message.push_str(&e);
                let r = CheckResult { name: "tool manifest", ok: false, message };
                proof {
                    let i = choose|i: int| #[trigger]
                        first_out_of_order(m.files@, i) && complains(m.files@, m.files@[i], e@);
                    assert(complains(m.files@, m.files@[i], e@));
                }
                r
            },
        },
    }
}

/// Checks the manifests of all tools, in the order that they are given in.
pub fn check_tool_manifests(tools: &Vec<ToolDirFact>) -> (r: Vec<CheckResult>)
    ensures
        r@.len() == tools@.len(),
        forall|i: int| 0 <= i < r@.len() ==> tool_checked(tools@[i], #[trigger] r@[i]),
{
    let mut out: Vec<CheckResult> = Vec::new();
    let mut i: usize = 0;
    while i < tools.len()
        invariant
            i <= tools@.len(),
            out@.len() == i,
            forall|k: int| 0 <= k < i ==> tool_checked(tools@[k], #[trigger] out@[k]),
        decreases tools@.len() - i,
    {
        out.push(check_tool_manifest(&tools[i]));
        i = i + 1;
    }
    out
}

/// Checks for the sandbox of a platform; `available` says whether it is there.
pub fn check_sandbox(platform: Platform, available: bool) -> (r: CheckResult)
    ensures
        r.name@ == "Sandbox"@,
        r.ok == (platform == Platform::Other || available),
        r.message@ == (match platform {
            Platform::Linux => if available {
                "Landlock available — full filesystem isolation enabled"@
            } else {
                "Landlock not available (kernel < 5.13). Tool isolation will degrade to NO_NEW_PRIVS + setrlimit only."@
            },
            Platform::MacOs => if available {
                "sandbox-exec found — macOS sandbox available"@
            } else {
                "sandbox-exec not found. Tool isolation will be limited to setrlimit only."@
            },
            Platform::Other => "Sandbox checks not applicable on this platform"@,
        }),
{
    let message = match platform {
        Platform::Linux => if available {
            "Landlock available — full filesystem isolation enabled"
        } else {
            "Landlock not available (kernel < 5.13). Tool isolation will degrade to NO_NEW_PRIVS + setrlimit only."
        },
        Platform::MacOs => if available {
            "sandbox-exec found — macOS sandbox available"
        } else {
            "sandbox-exec not found. Tool isolation will be limited to setrlimit only."
        },
        Platform::Other => "Sandbox checks not applicable on this platform",
    };
    CheckResult {
        name: "Sandbox",
        ok: available || platform == Platform::Other,
        message: message.to_string(),
    }
}

/// The line on a check.
pub open spec fn check_line(c: CheckResult) -> Seq<char> {
    "["@ + (if c.ok {
        "OK"@
    } else {
        "FAIL"@
    }) + "] "@ + c.name@ + " — "@ + c.message@
}

/// Whether all checks passed.
pub open spec fn all_passed(checks: Seq<CheckResult>) -> bool {
    forall|i: int| 0 <= i < checks.len() ==> (#[trigger] checks[i]).ok
}

/// The lines of a report on checks.
pub open spec fn report_lines(checks: Seq<CheckResult>) -> Seq<Seq<char>> {
    checks.map_values(|c: CheckResult| check_line(c)).push(
        if all_passed(checks) {
            "\nAll checks passed."@
        } else {
            "\nSome checks failed. Fix the issues above and run `livefolders doctor` again."@
        },
    )
}

/// Reports on checks: the lines to be printed, and whether all passed.
pub fn run_doctor(checks: &Vec<CheckResult>) -> (r: (Vec<String>, bool))
    ensures
        views(r.0@) == report_lines(checks@),
        r.1 == all_passed(checks@),
{
    let mut lines: Vec<String> = Vec::new();
    let mut all_ok: bool = true;
    let mut i: usize = 0;
    while i < checks.len()
        invariant
            i <= checks@.len(),
            lines@.len() == i,
            all_ok == (forall|k: int| 0 <= k < i ==> (#[trigger] checks@[k]).ok),
            forall|k: int| 0 <= k < i ==> (#[trigger] lines@[k])@ == check_line(checks@[k]),
        decreases checks@.len() - i,
    {
        let c = &checks[i];
        let mut s = "[".to_string();
        s.push_str(
            if c.ok {
                "OK"
            } else {
                "FAIL"
            },
        );
        s.push_str("] ");
        s.push_str(c.name);
        s.push_str(" — ");
        s.push_str(&c.message);
        lines.push(s);
        if !c.ok {
            all_ok = false;
        }
        i = i + 1;
    }
    if all_ok {
        lines.push("\nAll checks passed.".to_string());
    } else {
        lines.push(
            "\nSome checks failed. Fix the issues above and run `livefolders doctor` again.".to_string(),
        );
    }
    proof {
        assert(views(lines@) =~= report_lines(checks@));
    }
    (lines, all_ok)
}

} // verus!
