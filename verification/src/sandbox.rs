//! Sandbox profiles: what each kind of sandboxed process may do, and the
//! warnings a profile deserves before it is applied.
use vstd::prelude::*;
use crate::text::{str_eq, to_owned_string};

verus! {

/// Filesystem access policy.
#[derive(Debug, Clone)]
pub enum FileSystemPolicy {
    /// No filesystem access at all.
    NoAccess,
    /// Read-only access to specific paths.
    ReadOnly { paths: Vec<String> },
    /// Read-write access to specific paths.
    ReadWrite { paths: Vec<String> },
}

/// Network access policy.
#[derive(Debug, Clone)]
pub enum NetworkPolicy {
    /// No network access.
    NoAccess,
    /// Outbound connections only, to specific ports.
    Outbound { allowed_ports: Vec<u16> },
    /// Loopback only (localhost).
    LoopbackOnly,
}

/// Sandbox profile — what a sandboxed process is allowed to do.
#[derive(Debug, Clone)]
pub struct SandboxProfile {
    /// Human-readable name for this profile.
    pub name: String,
    /// Filesystem access.
    pub allow_filesystem: FileSystemPolicy,
    /// Network access.
    pub allow_network: NetworkPolicy,
    /// Whether the process can spawn child processes.
    pub allow_process_spawn: bool,
    /// Whether the process can access the GPU.
    pub allow_gpu: bool,
    /// Whether the process can access audio/video devices.
    pub allow_media_devices: bool,
    /// Memory limit in bytes (0 = unlimited).
    pub memory_limit_bytes: u64,
    /// CPU time limit in seconds (0 = unlimited).
    pub cpu_time_limit_seconds: u64,
}

/// A sandbox policy rule.
#[derive(Debug, Clone)]
pub struct SandboxRule {
    /// Rule name.
    pub name: String,
    /// Whether this rule is enforced (vs. audit-only).
    pub enforced: bool,
    /// Description of the rule.
    pub description: String,
}

/// Sandbox errors.
#[derive(Debug)]
pub enum SandboxError {
    CreationFailed(String),
    PolicyViolation(String),
    PlatformUnavailable(String),
    Internal(String),
}

/// A sandboxed process handle.
#[derive(Debug)]
pub struct SandboxedProcess {
    /// Process ID.
    pub pid: u32,
    /// The sandbox profile applied.
    pub profile: SandboxProfile,
    /// Whether the process is still running.
    pub running: bool,
}

/// Result type of sandbox operations.
pub type SandboxResult<T> = Result<T, SandboxError>;

/// A profile that grants neither filesystem nor network access nor process
/// spawning, GPU or media devices.
pub open spec fn locked_down(p: SandboxProfile) -> bool {
    &&& p.allow_filesystem is NoAccess
    &&& p.allow_network is NoAccess
    &&& !p.allow_process_spawn
    &&& !p.allow_gpu
    &&& !p.allow_media_devices
}

impl SandboxProfile {
    /// The maximally restrictive profile — the default for untrusted processes.
    pub fn maximum_restriction() -> (r: Self)
        ensures
            r.name@ == "Maximum Restriction"@,
            locked_down(r),
            r.memory_limit_bytes == 512 * 1024 * 1024,
            r.cpu_time_limit_seconds == 30,
    {
        SandboxProfile {
            name: to_owned_string("Maximum Restriction"),
            allow_filesystem: FileSystemPolicy::NoAccess,
            allow_network: NetworkPolicy::NoAccess,
            allow_process_spawn: false,
            allow_gpu: false,
            allow_media_devices: false,
            memory_limit_bytes: 512 * 1024 * 1024,
            cpu_time_limit_seconds: 30,
        }
    }

    /// The renderer profile: GPU only; network goes through the broker.
    pub fn renderer() -> (r: Self)
        ensures
            r.name@ == "Renderer"@,
            r.allow_filesystem is NoAccess,
            r.allow_network is NoAccess,
            !r.allow_process_spawn,
            r.allow_gpu,
            !r.allow_media_devices,
            r.memory_limit_bytes == 1024 * 1024 * 1024,
            r.cpu_time_limit_seconds == 0,
    {
        SandboxProfile {
            name: to_owned_string("Renderer"),
            allow_filesystem: FileSystemPolicy::NoAccess,
            allow_network: NetworkPolicy::NoAccess,
            allow_process_spawn: false,
            allow_gpu: true,
            allow_media_devices: false,
            memory_limit_bytes: 1024 * 1024 * 1024,
            cpu_time_limit_seconds: 0,
        }
    }

    /// The network-process profile: read-only filesystem (certificate stores
    /// are added at runtime) and outbound connections to ports 80, 443,
    /// 8080 and 8443 only.
    pub fn network_process() -> (r: Self)
        ensures
            r.name@ == "Network"@,
            r.allow_filesystem matches FileSystemPolicy::ReadOnly { paths } && paths@.len() == 0,
            r.allow_network matches NetworkPolicy::Outbound { allowed_ports } && allowed_ports@ == seq![
                80u16,
                443u16,
                8080u16,
                8443u16,
            ],
            !r.allow_process_spawn,
            !r.allow_gpu,
            !r.allow_media_devices,
            r.memory_limit_bytes == 256 * 1024 * 1024,
            r.cpu_time_limit_seconds == 0,
    {
        let mut ports: Vec<u16> = Vec::new();
        ports.push(80);
        ports.push(443);
        ports.push(8080);
        ports.push(8443);
        SandboxProfile {
            name: to_owned_string("Network"),
            allow_filesystem: FileSystemPolicy::ReadOnly { paths: Vec::new() },
            allow_network: NetworkPolicy::Outbound { allowed_ports: ports },
            allow_process_spawn: false,
            allow_gpu: false,
            allow_media_devices: false,
            memory_limit_bytes: 256 * 1024 * 1024,
            cpu_time_limit_seconds: 0,
        }
    }

    /// The agent profile: network goes through the broker.
    pub fn agent() -> (r: Self)
        ensures
            r.name@ == "Agent"@,
            locked_down(r),
            r.memory_limit_bytes == 256 * 1024 * 1024,
            r.cpu_time_limit_seconds == 60,
    {
        SandboxProfile {
            name: to_owned_string("Agent"),
            allow_filesystem: FileSystemPolicy::NoAccess,
            allow_network: NetworkPolicy::NoAccess,
            allow_process_spawn: false,
            allow_gpu: false,
            allow_media_devices: false,
            memory_limit_bytes: 256 * 1024 * 1024,
            cpu_time_limit_seconds: 60,
        }
    }

    /// The JavaScript engine profile.
    pub fn js_engine() -> (r: Self)
        ensures
            r.name@ == "JavaScript Engine"@,
            locked_down(r),
            r.memory_limit_bytes == 512 * 1024 * 1024,
            r.cpu_time_limit_seconds == 10,
    {
        SandboxProfile {
            name: to_owned_string("JavaScript Engine"),
            allow_filesystem: FileSystemPolicy::NoAccess,
            allow_network: NetworkPolicy::NoAccess,
            allow_process_spawn: false,
            allow_gpu: false,
            allow_media_devices: false,
            memory_limit_bytes: 512 * 1024 * 1024,
            cpu_time_limit_seconds: 10,
        }
    }
}

/// The warning for an unlimited memory budget.
pub open spec fn warn_memory() -> Seq<char> {
    "No memory limit set — process may consume unlimited memory"@
}

/// The warning for allowed process spawning.
pub open spec fn warn_spawn() -> Seq<char> {
    "Process spawning is allowed — sandboxed process can create children"@
}

/// The warning for outbound network access outside the network process.
pub open spec fn warn_network() -> Seq<char> {
    "Outbound network access granted to non-network process"@
}

/// The warnings a profile deserves, in order: no memory limit; process
/// spawning allowed; outbound network for a profile not named "Network".
pub open spec fn profile_warnings(p: SandboxProfile) -> Seq<Seq<char>> {
    let w1: Seq<Seq<char>> = if p.memory_limit_bytes == 0 { seq![warn_memory()] } else { seq![] };
    let w2: Seq<Seq<char>> = if p.allow_process_spawn { seq![warn_spawn()] } else { seq![] };
    let w3: Seq<Seq<char>> = if p.allow_network is Outbound && p.name@ != "Network"@ {
        seq![warn_network()]
    } else {
        seq![]
    };
    w1 + w2 + w3
}

/// Validate a sandbox profile before applying it.
pub fn validate_profile(profile: &SandboxProfile) -> (r: Vec<String>)
    ensures
        r@.len() == profile_warnings(*profile).len(),
        forall|k: int| 0 <= k < r@.len() ==> (#[trigger] r@[k])@ == profile_warnings(*profile)[k],
{
    let mut warnings: Vec<String> = Vec::new();
    let ghost p = *profile;
    if profile.memory_limit_bytes == 0 {
        warnings.push(
            to_owned_string("No memory limit set — process may consume unlimited memory"),
        );
    }
    let ghost n1 = warnings@.len();
    if profile.allow_process_spawn {
        warnings.push(
            to_owned_string("Process spawning is allowed — sandboxed process can create children"),
        );
    }
    let ghost n2 = warnings@.len();
    let outbound = match profile.allow_network {
        NetworkPolicy::Outbound { .. } => true,
        _ => false,
    };
    if outbound && !str_eq(profile.name.as_str(), "Network") {
        warnings.push(to_owned_string("Outbound network access granted to non-network process"));
    }
    proof {
        let w1: Seq<Seq<char>> = if p.memory_limit_bytes == 0 { seq![warn_memory()] } else { seq![] };
        let w2: Seq<Seq<char>> = if p.allow_process_spawn { seq![warn_spawn()] } else { seq![] };
        let w3: Seq<Seq<char>> = if p.allow_network is Outbound && p.name@ != "Network"@ {
            seq![warn_network()]
        } else {
            seq![]
        };
        assert(n1 == w1.len());
        assert(n2 == w1.len() + w2.len());
        assert forall|k: int| 0 <= k < warnings@.len() implies (#[trigger] warnings@[k])@ == (w1 + w2
            + w3)[k] by {
            if k < n1 {
            } else if k < n2 {
            } else {
            }
        }
    }
    warnings
}

/// Apply a sandbox profile to the current process. On platforms without an
/// enforcement backend there is nothing to install and this succeeds; the
/// Windows Job Object backend is installed by the host process.
pub fn apply_sandbox(profile: &SandboxProfile) -> (r: SandboxResult<()>)
    ensures
        r is Ok,
{
    apply_linux_sandbox(profile)
}

/// The Linux seccomp-BPF backend is pending: nothing is installed.
pub fn apply_linux_sandbox(profile: &SandboxProfile) -> (r: SandboxResult<()>)
    ensures
        r is Ok,
{
    Ok(())
}

/// The macOS Seatbelt backend installs nothing yet.
pub fn apply_macos_sandbox(profile: &SandboxProfile) -> (r: SandboxResult<()>)
    ensures
        r is Ok,
{
    Ok(())
}

/// Every profile built in for an untrusted process role forbids process
/// spawning, and only the network process may connect outbound.
pub proof fn lemma_builtin_profiles_forbid_spawn(p: SandboxProfile)
    requires
        locked_down(p),
    ensures
        !p.allow_process_spawn,
        !(p.allow_network is Outbound),
        profile_warnings(p).len() == if p.memory_limit_bytes == 0 { 1int } else { 0int },
{
}

} // verus!
