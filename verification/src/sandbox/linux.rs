//! The policy for Linux: Landlock for files, seccomp for the network, resource
//! limits.
use super::{default_reads, allows_network, opt_spec, SandboxMode, DEFAULT_READ_PATHS};
use crate::manifest::SandboxSpec;
use crate::split::views;
use vstd::prelude::*;

verus! {

/// What a sandboxed process may do.
#[derive(Debug)]
pub struct LinuxSandbox {
    pub read_paths: Vec<String>,
    pub write_paths: Vec<String>,
    pub block_network: bool,
    pub max_procs: Option<u64>,
    pub max_memory_mb: Option<u64>,
    pub mode: SandboxMode,
}

/// What is done to a process before its program runs.
#[derive(Clone, Copy, Debug, PartialEq, Eq, Structural)]
pub enum SandboxStep {
    /// Keep the process from gaining privileges.
    NoNewPrivileges,
    /// Restrict the files that it can reach.
    RestrictFiles,
    /// Keep it from making sockets.
    BlockSockets,
    /// Limit the number of processes.
    LimitProcesses(u64),
    /// Limit the address space, in megabytes.
    LimitMemory(u64),
}

/// What follows from the outcome of a part of a step.
#[derive(Debug)]
pub enum StepVerdict {
    /// The part succeeded; go on.
    Proceed,
    /// The step ends here, with less than full isolation; say so where `warn`.
    Degraded { warn: bool },
    /// The process must not run.
    Refused(String),
}

/// The bytes that limit an address space of so many megabytes.
pub open spec fn memory_bytes(max_mb: u64) -> int {
    max_mb * 1024 * 1024
}

/// The bytes that limit an address space of so many megabytes.
pub fn memory_limit(max_mb: u64) -> (r: u64)
    requires
        memory_bytes(max_mb) <= u64::MAX,
    ensures
        r == memory_bytes(max_mb),
{
    max_mb * 1024 * 1024
}

/// What follows from a part that failed with `e`: in strict mode the process must
/// not run; otherwise what is available is applied and the step ends, with a warning
/// where warnings are wanted.
pub open spec fn verdict_on(
    e: Option<Seq<char>>,
    mode: SandboxMode,
    head: Seq<char>,
    v: StepVerdict,
) -> bool {
    match e {
        None => v is Proceed,
        Some(e) => if mode == SandboxMode::Strict {
            v matches StepVerdict::Refused(m) && m@ == head + e
        } else {
            v == (StepVerdict::Degraded { warn: mode == SandboxMode::Warn })
        },
    }
}

/// The message of a failed part.
pub open spec fn failure(r: Result<(), String>) -> Option<Seq<char>> {
    match r {
        Ok(_) => None,
        Err(e) => Some(e@),
    }
}

/// What follows from the outcome of a part.
pub(crate) fn judge(r: &Result<(), String>, mode: SandboxMode, head: &str) -> (v: StepVerdict)
    ensures
        verdict_on(failure(*r), mode, head@, v),
{
    match r {
        Ok(_) => StepVerdict::Proceed,
        Err(e) => {
            if mode == SandboxMode::Strict {
                let mut m = head.to_string();
                m.push_str(e);
                StepVerdict::Refused(m)
            } else {
                StepVerdict::Degraded { warn: mode == SandboxMode::Warn }
            }
        },
    }
}

/// What follows from the attempt to create a Landlock ruleset.
pub fn landlock_created(r: &Result<(), String>, mode: SandboxMode) -> (v: StepVerdict)
    ensures
        verdict_on(failure(*r), mode, "Landlock not available: "@, v),
{
    judge(r, mode, "Landlock not available: ")
}

/// What follows from the attempt to add the rules for the allowed paths.
pub fn landlock_rules_added(r: &Result<(), String>, mode: SandboxMode) -> (v: StepVerdict)
    ensures
        verdict_on(failure(*r), mode, "Landlock add_rules failed: "@, v),
{
    judge(r, mode, "Landlock add_rules failed: ")
}

/// What follows from the attempt to put a Landlock ruleset into force; `Ok` says
/// whether it is fully enforced.
pub fn landlock_restricted(r: &Result<bool, String>, mode: SandboxMode) -> (v: StepVerdict)
    ensures
        match *r {
            Ok(true) => v is Proceed,
            Ok(false) => if mode == SandboxMode::Strict {
                v matches StepVerdict::Refused(m) && m@
                    == "Landlock not fully enforced; refusing in strict mode"@
            } else {
                v == (StepVerdict::Degraded { warn: mode == SandboxMode::Warn })
            },
            Err(e) => verdict_on(Some(e@), mode, "Landlock restrict_self failed: "@, v),
        },
{
    match r {
        Ok(full) => {
            if *full {
                StepVerdict::Proceed
            } else if mode == SandboxMode::Strict {
                StepVerdict::Refused(
                    "Landlock not fully enforced; refusing in strict mode".to_string(),
                )
            } else {
                StepVerdict::Degraded { warn: mode == SandboxMode::Warn }
            }
        },
        Err(e) => {
            if mode == SandboxMode::Strict {
                let mut m = "Landlock restrict_self failed: ".to_string();
                m.push_str(e);
                StepVerdict::Refused(m)
            } else {
                StepVerdict::Degraded { warn: mode == SandboxMode::Warn }
            }
        },
    }
}

/// What follows from the attempt to put a seccomp filter into force.
pub fn seccomp_applied(r: &Result<(), String>, mode: SandboxMode) -> (v: StepVerdict)
    ensures
        verdict_on(failure(*r), mode, "seccomp apply: "@, v),
{
    judge(r, mode, "seccomp apply: ")
}

/// What follows from the attempt to keep a process from gaining privileges.
pub fn privileges_given_up(r: &Result<(), String>, mode: SandboxMode) -> (v: StepVerdict)
    ensures
        verdict_on(failure(*r), mode, "no_new_privs: "@, v),
{
    judge(r, mode, "no_new_privs: ")
}

/// What follows from the attempt to limit a resource.
pub fn resource_limited(r: &Result<(), String>, mode: SandboxMode) -> (v: StepVerdict)
    ensures
        verdict_on(failure(*r), mode, "setrlimit: "@, v),
{
    judge(r, mode, "setrlimit: ")
}

impl LinuxSandbox {
    /// Whether this is the policy that a manifest asks for: the default paths and
    /// its own ones can be read, only its own ones written, and the network is shut
    /// unless the manifest opens it.
    pub open spec fn enforces(&self, spec: Option<SandboxSpec>, mode: SandboxMode) -> bool {
        &&& views(self.read_paths@) == default_reads() + (match spec {
            None => seq![],
            Some(s) => views(s.fs.read@),
        })
        &&& views(self.write_paths@) == (match spec {
            None => seq![],
            Some(s) => views(s.fs.write@),
        })
        &&& self.block_network == !allows_network(spec)
        &&& self.max_procs == (match spec {
            None => None,
            Some(s) => s.resources.max_procs,
        })
        &&& self.max_memory_mb == (match spec {
            None => None,
            Some(s) => s.resources.max_memory_mb,
        })
        &&& self.mode == mode
    }

    /// The policy that a manifest asks for.
    pub fn new(spec: Option<&SandboxSpec>, mode: SandboxMode) -> (r: Self)
        ensures
            r.enforces(opt_spec(spec), mode),
    {
        let mut read_paths: Vec<String> = Vec::new();
        let mut i: usize = 0;
        while i < 8
            invariant
                i <= 8,
                read_paths@.len() == i,
                forall|k: int|
                    0 <= k < i ==> (#[trigger] read_paths@[k])@ == DEFAULT_READ_PATHS@[k]@,
            decreases 8 - i,
        {
            read_paths.push(DEFAULT_READ_PATHS[i].to_string());
            i = i + 1;
        }
        proof {
            assert(views(read_paths@) =~= default_reads());
        }
        let mut write_paths: Vec<String> = Vec::new();
        let mut block_network: bool = true;
        let mut max_procs: Option<u64> = None;
        let mut max_memory_mb: Option<u64> = None;
        match spec {
            None => {
                proof {
                    assert(views(read_paths@) =~= default_reads() + seq![]);
                    assert(views(write_paths@) =~= seq![]);
                }
            },
            Some(s) => {
                let mut more = crate::paths::copy_texts(&s.fs.read);
                let ghost added = views(more@);
                let ghost given = views(read_paths@);
                read_paths.append(&mut more);
                proof {
                    assert(views(read_paths@) =~= given + added);
                }
                write_paths = crate::paths::copy_texts(&s.fs.write);
                if let Some(n) = s.network {
                    block_network = !n;
                }
                max_procs = s.resources.max_procs;
                max_memory_mb = s.resources.max_memory_mb;
            },
        }
        LinuxSandbox { read_paths, write_paths, block_network, max_procs, max_memory_mb, mode }
    }

    /// What is done to a process before its program runs, in order.
    pub open spec fn step_list(&self) -> Seq<SandboxStep> {
        seq![SandboxStep::NoNewPrivileges, SandboxStep::RestrictFiles] + (if self.block_network {
            seq![SandboxStep::BlockSockets]
        } else {
            seq![]
        }) + (match self.max_procs {
            Some(n) => seq![SandboxStep::LimitProcesses(n)],
            None => seq![],
        }) + (match self.max_memory_mb {
            Some(m) => seq![SandboxStep::LimitMemory(m)],
            None => seq![],
        })
    }

    /// What is done to a process before its program runs, in order.
    pub fn steps(&self) -> (r: Vec<SandboxStep>)
        ensures
            r@ == self.step_list(),
    {
        let mut out: Vec<SandboxStep> = Vec::new();
        out.push(SandboxStep::NoNewPrivileges);
        out.push(SandboxStep::RestrictFiles);
        if self.block_network {
            out.push(SandboxStep::BlockSockets);
        }
        if let Some(n) = self.max_procs {
            out.push(SandboxStep::LimitProcesses(n));
        }
        if let Some(m) = self.max_memory_mb {
            out.push(SandboxStep::LimitMemory(m));
        }
        proof {
            assert(out@ =~= self.step_list());
        }
        out
    }
}

/// In strict mode no failure is passed over: a part that failed keeps the process
/// from running.
pub proof fn strict_never_degrades(e: Option<Seq<char>>, head: Seq<char>, v: StepVerdict)
    requires
        verdict_on(e, SandboxMode::Strict, head, v),
    ensures
        !(v is Degraded),
        v is Proceed <==> e is None,
{
}

/// In warn mode no failure keeps the process from running, and none is passed over in
/// silence.
pub proof fn warn_never_refuses(e: Option<Seq<char>>, head: Seq<char>, v: StepVerdict)
    requires
        verdict_on(e, SandboxMode::Warn, head, v),
    ensures
        !(v is Refused),
        v is Proceed <==> e is None,
        v is Degraded ==> v == (StepVerdict::Degraded { warn: true }),
{
}

/// Without a sandbox section in the manifest a tool has no network and no path to
/// write to.
pub proof fn default_denies_network(s: LinuxSandbox, mode: SandboxMode)
    requires
        s.enforces(None, mode),
    ensures
        s.block_network,
        s.step_list().contains(SandboxStep::BlockSockets),
        views(s.write_paths@) == Seq::<Seq<char>>::empty(),
{
    assert(s.step_list()[2] == SandboxStep::BlockSockets);
}

} // verus!
