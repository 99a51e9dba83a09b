//! The seccomp filter that keeps a process from making sockets.
use super::linux::{judge, verdict_on, StepVerdict};
use super::SandboxMode;
use vstd::prelude::*;

verus! {

/// The processors that a filter can be made for.
#[derive(Clone, Copy, Debug, PartialEq, Eq, Structural)]
pub enum Arch {
    X86,
    Arm,
}

/// What becomes of a system call.
#[derive(Clone, Copy, Debug, PartialEq, Eq, Structural)]
pub enum FilterAction {
    /// It is made.
    Allow,
    /// It fails with an error number.
    Errno(u32),
}

/// Why there is no filter.
#[derive(Debug)]
pub enum FilterFailure {
    /// The filter was refused.
    Init(String),
    /// The filter could not be turned into a program.
    Compile(String),
}

/// The processor that `seccompiler` knows by a name.
pub uninterp spec fn arch_named(name: Seq<char>) -> Option<Arch>;

/// The instructions into which `seccompiler` turns a filter on one system call. An
/// instruction is its operation, its two jump offsets and its operand.
pub uninterp spec fn filter_program(
    syscall: i64,
    otherwise: FilterAction,
    matched: FilterAction,
    arch: Arch,
) -> Seq<(u16, u8, u8, u32)>;

/// `<seccompiler::TargetArch as TryFrom<&str>>::try_from`: which processor is meant
/// is determined by the name. The two that there are go by `x86_64` and `aarch64`;
/// what is refused is named in the message.
#[verifier::external_body]
fn target_arch(name: &str) -> (r: Result<Arch, String>)
    ensures
        r matches Ok(a) ==> arch_named(name@) == Some(a),
        r is Err <==> arch_named(name@) is None,
        r matches Err(m) ==> m@ == "Invalid target arch: "@ + name@ + "."@,
        name@ == "x86_64"@ ==> r is Ok && r->Ok_0 == Arch::X86,
        name@ == "aarch64"@ ==> r is Ok && r->Ok_0 == Arch::Arm,
{
    match seccompiler::TargetArch::try_from(name) {
        Ok(seccompiler::TargetArch::x86_64) => Ok(Arch::X86),
        Ok(seccompiler::TargetArch::aarch64) => Ok(Arch::Arm),
        Err(e) => Err(e.to_string()),
    }
}

/// `seccompiler::SeccompFilter::new` and the conversion of the filter into a
/// `seccompiler::BpfProgram`, for a filter on one system call without conditions:
/// the program is determined by the arguments. The filter is refused only where its
/// two actions are equal, and a program for one system call is never too long. A
/// number of a system call that is no `u32` would panic.
#[verifier::external_body]
fn compile_filter(
    syscall: i64,
    otherwise: FilterAction,
    matched: FilterAction,
    arch: Arch,
) -> (r: Result<Vec<(u16, u8, u8, u32)>, FilterFailure>)
    requires
        0 <= syscall <= u32::MAX,
    ensures
        r is Err <==> otherwise == matched,
        r matches Ok(p) ==> p@ == filter_program(syscall, otherwise, matched, arch),
        r matches Err(e) ==> (e matches FilterFailure::Init(m) && m@
            == "`match_action` and `mismatch_action` are equal."@),
{
    let [miss, hit] = [otherwise, matched].map(
        |a| match a {
            FilterAction::Allow => seccompiler::SeccompAction::Allow,
            FilterAction::Errno(n) => seccompiler::SeccompAction::Errno(n),
        },
    );
    let target = match arch {
        Arch::X86 => seccompiler::TargetArch::x86_64,
        Arch::Arm => seccompiler::TargetArch::aarch64,
    };
    let filter = seccompiler::SeccompFilter::new([(syscall, vec![])].into(), miss, hit, target)
        .map_err(|e| FilterFailure::Init(e.to_string()))?;
    let program = seccompiler::BpfProgram::try_from(filter)
        .map_err(|e| FilterFailure::Compile(e.to_string()))?;
    Ok(program.into_iter().map(|i| (i.code, i.jt, i.jf, i.k)).collect())
}

/// What is done to keep a process from making sockets.
#[derive(Debug)]
pub enum SocketBlock {
    /// Put the program of a filter into force.
    Install(Vec<(u16, u8, u8, u32)>),
    /// The step ends here, with less than full isolation; say so where `warn`.
    Degraded { warn: bool },
    /// The process must not run.
    Refused(String),
}

/// Whether a step ends as a verdict on a failed part says.
pub open spec fn ends_with(b: SocketBlock, v: StepVerdict) -> bool {
    match v {
        StepVerdict::Proceed => false,
        StepVerdict::Degraded { warn } => b == (SocketBlock::Degraded { warn }),
        StepVerdict::Refused(m) => b matches SocketBlock::Refused(n) && n@ == m@,
    }
}

/// Whether a step ends because a part failed with `e`.
pub open spec fn ends_on(
    b: SocketBlock,
    e: Seq<char>,
    mode: SandboxMode,
    head: Seq<char>,
) -> bool {
    exists|v: StepVerdict| verdict_on(Some(e), mode, head, v) && #[trigger] ends_with(b, v)
}

fn ended(e: String, mode: SandboxMode, head: &str) -> (b: SocketBlock)
    ensures
        ends_on(b, e@, mode, head@),
{
    let failed: Result<(), String> = Err(e);
    let v = judge(&failed, mode, head);
    let ghost said = v;
    let b = match v {
        StepVerdict::Proceed => SocketBlock::Degraded { warn: false },
        StepVerdict::Degraded { warn } => SocketBlock::Degraded { warn },
        StepVerdict::Refused(m) => SocketBlock::Refused(m),
    };
    proof {
        assert(ends_with(b, said));
    }
    b
}

/// What follows from the attempt to make a filter: one that was refused or could not be
/// turned into a program is fatal in strict mode.
pub fn filter_made(
    made: Result<Vec<(u16, u8, u8, u32)>, FilterFailure>,
    mode: SandboxMode,
) -> (r: SocketBlock)
    ensures
        match made {
            Ok(p) => r == SocketBlock::Install(p),
            Err(FilterFailure::Init(m)) => ends_on(r, m@, mode, "seccomp init: "@),
            Err(FilterFailure::Compile(m)) => ends_on(r, m@, mode, "seccomp compile: "@),
        },
{
    match made {
        Ok(p) => SocketBlock::Install(p),
        Err(FilterFailure::Init(m)) => ended(m, mode, "seccomp init: "),
        Err(FilterFailure::Compile(m)) => ended(m, mode, "seccomp compile: "),
    }
}

/// How a process on a processor is kept from making sockets, where `syscall` is the
/// number of the system call that makes one: it fails with `errno`, and every other
/// one is made. What follows from a processor without filters depends on the mode.
pub fn block_sockets(arch: &str, syscall: i64, errno: u32, mode: SandboxMode) -> (r: SocketBlock)
    requires
        0 <= syscall <= u32::MAX,
    ensures
        match arch_named(arch@) {
            Some(a) => r matches SocketBlock::Install(p) && p@ == filter_program(
                syscall,
                FilterAction::Allow,
                FilterAction::Errno(errno),
                a,
            ),
            None => ends_on(
                r,
                "Invalid target arch: "@ + arch@ + "."@,
                mode,
                "seccomp: unsupported arch: "@,
            ),
        },
        arch@ == "x86_64"@ || arch@ == "aarch64"@ ==> r is Install,
{
    match target_arch(arch) {
        Ok(a) => filter_made(
            compile_filter(syscall, FilterAction::Allow, FilterAction::Errno(errno), a),
            mode,
        ),
        Err(m) => ended(m, mode, "seccomp: unsupported arch: "),
    }
}

} // verus!
