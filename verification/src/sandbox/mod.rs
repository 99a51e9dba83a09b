//! Sandbox policies for handlers.
pub mod linux;
pub mod macos;
pub mod noop;
pub mod seccomp;

use crate::manifest::SandboxSpec;
use crate::text::str_views;
use linux::LinuxSandbox;
use macos::MacOsSandbox;
use noop::NoopSandbox;
use vstd::prelude::*;

verus! {

/// How strictly a sandbox policy is applied.
#[derive(Clone, Copy, Debug, PartialEq, Eq, Structural)]
pub enum SandboxMode {
    /// Refuse to run if the sandbox cannot be fully applied.
    Strict,
    /// Apply what is available; log a warning when degraded.
    Warn,
    /// Skip sandboxing entirely (debugging only).
    Disabled,
}

impl Default for SandboxMode {
    fn default() -> (r: Self)
        ensures
            r == SandboxMode::Warn,
    {
        SandboxMode::Warn
    }
}

/// Built-in default filesystem read paths allowed for every tool.
pub const DEFAULT_READ_PATHS: [&'static str; 8] = [
    "/usr",
    "/lib",
    "/lib64",
    "/etc/ssl/certs",
    "/etc/localtime",
    "/etc/nsswitch.conf",
    "/etc/hosts",
    "/tmp",
];

/// Built-in default executable paths allowed for every tool.
pub const DEFAULT_EXEC_PATHS: [&'static str; 3] = ["/usr/bin", "/bin", "/usr/local/bin"];

/// The paths that every tool may read.
pub open spec fn default_reads() -> Seq<Seq<char>> {
    str_views(DEFAULT_READ_PATHS@)
}

/// Whether a tool may use the network: only where its manifest says so.
pub open spec fn allows_network(spec: Option<SandboxSpec>) -> bool {
    match spec {
        None => false,
        Some(s) => s.network == Some(true),
    }
}

/// The optional value behind an optional reference.
pub open spec fn opt_spec(spec: Option<&SandboxSpec>) -> Option<SandboxSpec> {
    match spec {
        None => None,
        Some(s) => Some(*s),
    }
}

/// The systems that have a sandbox of their own.
#[derive(Clone, Copy, Debug, PartialEq, Eq, Structural)]
pub enum Platform {
    Linux,
    MacOs,
    Other,
}

/// A sandbox policy for a platform.
pub enum SandboxPolicy {
    Noop(NoopSandbox),
    Linux(LinuxSandbox),
    MacOs(MacOsSandbox),
}

/// The sandbox policy for a platform. A disabled sandbox, and one for a platform
/// that has none, does nothing.
pub fn build(spec: Option<&SandboxSpec>, mode: SandboxMode, platform: Platform) -> (r:
    SandboxPolicy)
    ensures
        match r {
            SandboxPolicy::Noop(_) => mode == SandboxMode::Disabled || platform == Platform::Other,
            SandboxPolicy::Linux(s) => mode != SandboxMode::Disabled && platform == Platform::Linux
                && s.enforces(opt_spec(spec), mode),
            SandboxPolicy::MacOs(s) => mode != SandboxMode::Disabled && platform == Platform::MacOs
                && s.enforces(opt_spec(spec), mode),
        },
{
    if mode == SandboxMode::Disabled {
        return SandboxPolicy::Noop(NoopSandbox);
    }
    match platform {
        Platform::Linux => SandboxPolicy::Linux(LinuxSandbox::new(spec, mode)),
        Platform::MacOs => SandboxPolicy::MacOs(MacOsSandbox::new(spec, mode)),
        Platform::Other => SandboxPolicy::Noop(NoopSandbox),
    }
}

} // verus!
