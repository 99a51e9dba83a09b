//! What a sandboxed handler may do, and what becomes of one whose sandbox fails.
use crate::manifest::SandboxSpec;
use crate::sandbox::linux::{
    failure, memory_bytes, verdict_on, LinuxSandbox, SandboxStep, StepVerdict,
};
use crate::sandbox::macos::{profile_lines, MacOsSandbox};
use crate::sandbox::seccomp::{ends_on, ends_with, SocketBlock};
use crate::sandbox::{allows_network, default_reads, opt_spec, SandboxMode};
use crate::split::{join, views};
use vstd::prelude::*;

verus! {

/// Every tool may read the same few places.
pub proof fn the_same_places_can_be_read()
    ensures
        default_reads() == seq![
            "/usr"@,
            "/lib"@,
            "/lib64"@,
            "/etc/ssl/certs"@,
            "/etc/localtime"@,
            "/etc/nsswitch.conf"@,
            "/etc/hosts"@,
            "/tmp"@,
        ],
{
    assert(default_reads() =~= seq![
        "/usr"@,
        "/lib"@,
        "/lib64"@,
        "/etc/ssl/certs"@,
        "/etc/localtime"@,
        "/etc/nsswitch.conf"@,
        "/etc/hosts"@,
        "/tmp"@,
    ]);
}

/// A tool may use the network only where its manifest says so.
pub proof fn the_network_is_shut_unless_opened(s: SandboxSpec)
    ensures
        !allows_network(None),
        allows_network(Some(s)) <==> s.network is Some && s.network->0,
        opt_spec(None) is None,
        opt_spec(Some(&s)) == Some(s),
{
}

/// What is done to a process on Linux: it gains no privileges and its files are restricted,
/// always; the network is shut and resources are limited as its manifest says; and the files
/// that it reaches are those that every tool may read and those of its manifest.
pub proof fn linux_confines_a_handler(b: LinuxSandbox, s: SandboxSpec, mode: SandboxMode)
    requires
        b.enforces(Some(s), mode),
    ensures
        b.step_list().len() >= 2,
        b.step_list()[0] == SandboxStep::NoNewPrivileges,
        b.step_list()[1] == SandboxStep::RestrictFiles,
        b.step_list().contains(SandboxStep::BlockSockets) <==> s.network != Some(true),
        forall|n: u64|
            #[trigger] b.step_list().contains(SandboxStep::LimitProcesses(n))
                <==> s.resources.max_procs == Some(n),
        forall|n: u64|
            #[trigger] b.step_list().contains(SandboxStep::LimitMemory(n))
                <==> s.resources.max_memory_mb == Some(n),
        views(b.read_paths@) == default_reads() + views(s.fs.read@),
        views(b.write_paths@) == views(s.fs.write@),
        b.mode == mode,
{
    let all = b.step_list();
    let k: int = if b.block_network {
        1
    } else {
        0
    };
    let p: int = if b.max_procs is Some {
        1
    } else {
        0
    };
    assert(all[0] == SandboxStep::NoNewPrivileges && all[1] == SandboxStep::RestrictFiles);
    if b.block_network {
        assert(all[2] == SandboxStep::BlockSockets);
    }
    if b.max_procs is Some {
        assert(all[2 + k] == SandboxStep::LimitProcesses(b.max_procs->0));
    }
    if b.max_memory_mb is Some {
        assert(all[2 + k + p] == SandboxStep::LimitMemory(b.max_memory_mb->0));
    }
    assert forall|i: int| 0 <= i < all.len() implies (#[trigger] all[i] == SandboxStep::BlockSockets
        ==> b.block_network) && (all[i] matches SandboxStep::LimitProcesses(n) ==> b.max_procs
        == Some(n)) && (all[i] matches SandboxStep::LimitMemory(n) ==> b.max_memory_mb == Some(
        n,
    )) by {}
}

/// Without a section on it in the manifest a handler may read what every tool may read,
/// write nothing, and use no network; nothing else is limited.
pub proof fn linux_confines_by_default(b: LinuxSandbox, mode: SandboxMode)
    requires
        b.enforces(None, mode),
    ensures
        b.step_list() == seq![
            SandboxStep::NoNewPrivileges,
            SandboxStep::RestrictFiles,
            SandboxStep::BlockSockets,
        ],
        views(b.read_paths@) == default_reads(),
        b.write_paths@.len() == 0,
        b.mode == mode,
{
    assert(b.step_list() =~= seq![
        SandboxStep::NoNewPrivileges,
        SandboxStep::RestrictFiles,
        SandboxStep::BlockSockets,
    ]);
    assert(default_reads() + Seq::<Seq<char>>::empty() =~= default_reads());
    assert(views(b.write_paths@).len() == b.write_paths@.len());
}

/// A limit of memory is counted in units of 2^20 bytes.
pub proof fn memory_is_counted_in_megabytes(n: u64)
    ensures
        memory_bytes(n) == n * 1048576,
        memory_bytes(0) == 0,
{
    assert(n * 1024 * 1024 == n * 1048576) by (nonlinear_arith);
}

/// What follows from a part of a sandbox that failed: in strict mode the handler does not
/// run, and the message says which part and why; otherwise it runs with less, and only a
/// mode that warns says so. What did not fail changes nothing.
pub proof fn failures_are_judged_by_mode(
    e: Seq<char>,
    mode: SandboxMode,
    head: Seq<char>,
    v: StepVerdict,
    w: StepVerdict,
    b: SocketBlock,
)
    requires
        verdict_on(Some(e), mode, head, v),
        verdict_on(None, mode, head, w),
        ends_on(b, e, mode, head),
    ensures
        w is Proceed,
        mode == SandboxMode::Strict ==> (v matches StepVerdict::Refused(m) && m@ == head + e) && (
        b matches SocketBlock::Refused(m) && m@ == head + e),
        mode == SandboxMode::Warn ==> v == (StepVerdict::Degraded { warn: true }) && b == (
        SocketBlock::Degraded { warn: true }),
        mode == SandboxMode::Disabled ==> v == (StepVerdict::Degraded { warn: false }) && b == (
        SocketBlock::Degraded { warn: false }),
{
    let u = choose|u: StepVerdict|
        verdict_on(Some(e), mode, head, u) && #[trigger] ends_with(b, u);
    assert(ends_with(b, u));
}

/// A part failed exactly if it has a message, and that is the message.
pub proof fn failures_have_messages(r: Result<(), String>)
    ensures
        r is Ok <==> failure(r) is None,
        r matches Err(e) ==> failure(r) == Some(e@),
{
}

/// A place in a profile for macOS.
pub open spec fn place_text(p: Seq<char>) -> Seq<char> {
    "(subpath \""@ + p + "\")"@
}

/// The profile for macOS denies what it does not allow. It allows to read what every tool
/// may read and what the manifest names, to write what the manifest names and nothing where
/// it names nothing, and the network where the manifest opens it.
pub proof fn macos_confines_a_handler(b: MacOsSandbox, s: SandboxSpec, mode: SandboxMode)
    requires
        b.enforces(Some(s), mode),
    ensures
        ({
            let read = "(allow file-read* "@ + join(
                (default_reads() + views(s.fs.read@)).map_values(|p: Seq<char>| place_text(p)),
                " "@,
            ) + ")"@;
            let write = "(allow file-write* "@ + join(
                views(s.fs.write@).map_values(|p: Seq<char>| place_text(p)),
                " "@,
            ) + ")"@;
            let net = if s.network == Some(true) {
                "(allow network*)"@
            } else {
                "(deny network*)"@
            };
            &&& s.fs.write@.len() > 0 ==> b.profile@ == join(
                seq![
                    "(version 1)"@,
                    "(deny default)"@,
                    "(allow process-exec*)"@,
                    "(allow process-fork)"@,
                    "(allow signal)"@,
                    read,
                    write,
                    net,
                ],
                "\n"@,
            )
            &&& s.fs.write@.len() == 0 ==> b.profile@ == join(
                seq![
                    "(version 1)"@,
                    "(deny default)"@,
                    "(allow process-exec*)"@,
                    "(allow process-fork)"@,
                    "(allow signal)"@,
                    read,
                    net,
                ],
                "\n"@,
            )
            &&& b.mode == mode
        }),
{
    let lines = profile_lines(Some(s));
    let r = default_reads() + views(s.fs.read@);
    let w = views(s.fs.write@);
    assert(w.len() == s.fs.write@.len());
    assert(r.map_values(|p: Seq<char>| place_text(p)) =~= r.map_values(
        |p: Seq<char>| crate::sandbox::macos::subpath(p),
    ));
    assert(w.map_values(|p: Seq<char>| place_text(p)) =~= w.map_values(
        |p: Seq<char>| crate::sandbox::macos::subpath(p),
    ));
    let read = "(allow file-read* "@ + join(r.map_values(|p: Seq<char>| place_text(p)), " "@)
        + ")"@;
    let write = "(allow file-write* "@ + join(w.map_values(|p: Seq<char>| place_text(p)), " "@)
        + ")"@;
    let net = if s.network == Some(true) {
        "(allow network*)"@
    } else {
        "(deny network*)"@
    };
    if s.fs.write@.len() > 0 {
        assert(lines =~= seq![
            "(version 1)"@,
            "(deny default)"@,
            "(allow process-exec*)"@,
            "(allow process-fork)"@,
            "(allow signal)"@,
            read,
            write,
            net,
        ]);
    } else {
        assert(lines =~= seq![
            "(version 1)"@,
            "(deny default)"@,
            "(allow process-exec*)"@,
            "(allow process-fork)"@,
            "(allow signal)"@,
            read,
            net,
        ]);
    }
}

/// Without a section on it in the manifest a profile for macOS allows to read what every
/// tool may read, and neither to write nor to use the network.
pub proof fn macos_confines_by_default(b: MacOsSandbox, mode: SandboxMode)
    requires
        b.enforces(None, mode),
    ensures
        b.profile@ == join(
            seq![
                "(version 1)"@,
                "(deny default)"@,
                "(allow process-exec*)"@,
                "(allow process-fork)"@,
                "(allow signal)"@,
                "(allow file-read* "@ + join(
                    default_reads().map_values(|p: Seq<char>| place_text(p)),
                    " "@,
                ) + ")"@,
                "(deny network*)"@,
            ],
            "\n"@,
        ),
        b.mode == mode,
{
    let r = default_reads();
    assert(r + Seq::<Seq<char>>::empty() =~= r);
    assert(r.map_values(|p: Seq<char>| place_text(p)) =~= r.map_values(
        |p: Seq<char>| crate::sandbox::macos::subpath(p),
    ));
    assert(profile_lines(None) =~= seq![
        "(version 1)"@,
        "(deny default)"@,
        "(allow process-exec*)"@,
        "(allow process-fork)"@,
        "(allow signal)"@,
        "(allow file-read* "@ + join(r.map_values(|p: Seq<char>| place_text(p)), " "@) + ")"@,
        "(deny network*)"@,
    ]);
}

} // verus!
