//! Native Linux boundary capabilities: what a probe observed, and the decisions the
//! supervisor makes over those observations before it installs any boundary.
use vstd::prelude::*;
use vstd::string::StringSliceAdditionalSpecFns;

use crate::launcher::string_models;
use crate::text::{
    bytes_equal, copy_range, fields, fields_from, lines, next_line, read_set, strictly_sorted, string_bytes, trim_range, trimmed,
    unsigned_digits, unsigned_text, utf8_string, decimal_value,
};

verus! {

/// The lowest Landlock ABI the boundary relies on.
pub const MIN_LANDLOCK_ABI: u32 = 3;

/// The highest Landlock ABI whose access rights are known.
pub const MAX_KNOWN_LANDLOCK_ABI: u32 = 11;

/// Identifies one supported native Linux architecture.
#[derive(Clone, Copy, Debug, PartialEq, Eq, Structural)]
pub enum Architecture {
    /// The x86-64 architecture.
    X86_64,
    /// The 64-bit Arm architecture.
    Aarch64,
}

/// The stable receipt wire name of each architecture.
pub open spec fn architecture_name(a: Architecture) -> Seq<char> {
    match a {
        Architecture::X86_64 => "x86_64"@,
        Architecture::Aarch64 => "aarch64"@,
    }
}

impl Architecture {
    /// Returns the stable receipt wire name.
    pub fn as_str(self) -> (r: &'static str)
        ensures
            r@ == architecture_name(self),
    {
        match self {
            Architecture::X86_64 => "x86_64",
            Architecture::Aarch64 => "aarch64",
        }
    }
}

/// Identifies one fail-closed native capability result.
#[derive(Clone, Copy, Debug, PartialEq, Eq, Structural)]
pub enum ProbeError {
    /// The host operating system is not Linux.
    UnsupportedOperatingSystem,
    /// The Linux machine architecture is outside the version 1 set.
    UnsupportedArchitecture,
    /// The exact kernel release could not be read.
    KernelReleaseUnavailable,
    /// The kernel did not report a nonzero Landlock ABI.
    LandlockUnavailable,
    /// The kernel Landlock ABI is outside the known version 1 range.
    LandlockAbiUnsupported,
    /// The kernel did not support querying `no_new_privs`.
    NoNewPrivilegesUnavailable,
    /// The kernel did not expose seccomp filter actions.
    SeccompUnavailable,
    /// A seccomp action required by the version 1 profile is absent.
    SeccompActionMissing,
    /// A unified cgroup v2 mount or configured delegation root could not be resolved.
    CgroupV2Unavailable,
    /// The configured root is not an empty delegated parent of the supervisor.
    CgroupV2DelegationUnavailable,
    /// The pids controller required by version 1 is unavailable.
    CgroupV2ControllerMissing,
}

/// The stable machine-readable code of each probe error.
pub open spec fn probe_error_code(e: ProbeError) -> Seq<char> {
    match e {
        ProbeError::UnsupportedOperatingSystem => "platform.os.unsupported"@,
        ProbeError::UnsupportedArchitecture => "platform.architecture.unsupported"@,
        ProbeError::KernelReleaseUnavailable => "platform.kernel-release.unavailable"@,
        ProbeError::LandlockUnavailable => "platform.landlock.unavailable"@,
        ProbeError::LandlockAbiUnsupported => "platform.landlock.abi-unsupported"@,
        ProbeError::NoNewPrivilegesUnavailable => "platform.no-new-privileges.unavailable"@,
        ProbeError::SeccompUnavailable => "platform.seccomp.unavailable"@,
        ProbeError::SeccompActionMissing => "platform.seccomp.action-missing"@,
        ProbeError::CgroupV2Unavailable => "platform.cgroup-v2.unavailable"@,
        ProbeError::CgroupV2DelegationUnavailable => "platform.cgroup-v2.delegation-unavailable"@,
        ProbeError::CgroupV2ControllerMissing => "platform.cgroup-v2.controller-missing"@,
    }
}

impl ProbeError {
    /// Returns the stable machine-readable error code.
    pub fn code(self) -> (r: &'static str)
        ensures
            r@ == probe_error_code(self),
    {
        match self {
            ProbeError::UnsupportedOperatingSystem => "platform.os.unsupported",
            ProbeError::UnsupportedArchitecture => "platform.architecture.unsupported",
            ProbeError::KernelReleaseUnavailable => "platform.kernel-release.unavailable",
            ProbeError::LandlockUnavailable => "platform.landlock.unavailable",
            ProbeError::LandlockAbiUnsupported => "platform.landlock.abi-unsupported",
            ProbeError::NoNewPrivilegesUnavailable => "platform.no-new-privileges.unavailable",
            ProbeError::SeccompUnavailable => "platform.seccomp.unavailable",
            ProbeError::SeccompActionMissing => "platform.seccomp.action-missing",
            ProbeError::CgroupV2Unavailable => "platform.cgroup-v2.unavailable",
            ProbeError::CgroupV2DelegationUnavailable => "platform.cgroup-v2.delegation-unavailable",
            ProbeError::CgroupV2ControllerMissing => "platform.cgroup-v2.controller-missing",
        }
    }
}

/// Distinct probe errors have distinct codes.
pub proof fn lemma_probe_codes_distinct(a: ProbeError, b: ProbeError)
    requires
        a != b,
    ensures
        probe_error_code(a) != probe_error_code(b),
{
    reveal_strlit("platform.os.unsupported");
    reveal_strlit("platform.architecture.unsupported");
    reveal_strlit("platform.kernel-release.unavailable");
    reveal_strlit("platform.landlock.unavailable");
    reveal_strlit("platform.landlock.abi-unsupported");
    reveal_strlit("platform.no-new-privileges.unavailable");
    reveal_strlit("platform.seccomp.unavailable");
    reveal_strlit("platform.seccomp.action-missing");
    reveal_strlit("platform.cgroup-v2.unavailable");
    reveal_strlit("platform.cgroup-v2.delegation-unavailable");
    reveal_strlit("platform.cgroup-v2.controller-missing");
    let ca = probe_error_code(a);
    let cb = probe_error_code(b);
    if ca.len() == cb.len() {
        assert(ca[9] != cb[9]);
    }
}


/// Reports one independently probed capability.
#[derive(Clone, Debug, PartialEq, Eq)]
pub enum Capability<T> {
    /// The capability was observed with its exact value.
    Available(T),
    /// The capability could not satisfy the supported profile.
    Unavailable(ProbeError),
}

impl<T> Capability<T> {
    /// Reports whether the capability is available.
    pub fn is_available(&self) -> (r: bool)
        ensures
            r == (self is Available),
    {
        match self {
            Capability::Available(_) => true,
            Capability::Unavailable(_) => false,
        }
    }

    fn into_result(self) -> (r: Result<T, ProbeError>)
        ensures
            match self {
                Capability::Available(v) => r == Ok::<T, ProbeError>(v),
                Capability::Unavailable(e) => r == Err::<T, ProbeError>(e),
            },
    {
        match self {
            Capability::Available(value) => Ok(value),
            Capability::Unavailable(error) => Err(error),
        }
    }
}

/// A nonzero Landlock ABI version.
#[derive(Clone, Copy, Debug, PartialEq, Eq)]
pub struct LandlockAbi(u32);

impl LandlockAbi {
    #[verifier::type_invariant]
    spec fn nonzero(self) -> bool {
        self.0 != 0
    }

    /// The ABI version.
    pub closed spec fn value(self) -> u32 {
        self.0
    }

    /// Wraps a nonzero ABI version; zero is `None`.
    pub fn new(value: u32) -> (r: Option<Self>)
        ensures
            r is Some <==> value != 0,
            r matches Some(a) ==> a.value() == value,
    {
        if value == 0 {
            None
        } else {
            Some(LandlockAbi(value))
        }
    }

    /// Returns the ABI version, which is never zero.
    pub fn get(self) -> (r: u32)
        ensures
            r == self.value(),
            r != 0,
    {
        proof {
            use_type_invariant(&self);
        }
        self.0
    }
}

/// The seccomp actions the version 1 profile needs: `allow`, `errno` and `kill_process`.
pub open spec fn required_seccomp_actions(actions: Seq<Seq<u8>>) -> bool {
    &&& actions.contains("allow".spec_bytes())
    &&& actions.contains("errno".spec_bytes())
    &&& actions.contains("kill_process".spec_bytes())
}

/// Contains the seccomp features required by the version 1 profile.
#[derive(Debug, PartialEq, Eq)]
pub struct SeccompCapability {
    available_actions: Vec<String>,
}

impl SeccompCapability {
    /// Every kernel-reported action, by its bytes, in canonical order.
    pub closed spec fn actions(self) -> Seq<Seq<u8>> {
        string_models(self.available_actions@)
    }

    #[verifier::type_invariant]
    spec fn well_formed(self) -> bool {
        strictly_sorted(self.actions()) && required_seccomp_actions(self.actions())
    }

    /// Returns every kernel-reported action in canonical order.
    pub fn available_actions(&self) -> (r: &[String])
        ensures
            string_models(r@) == self.actions(),
            strictly_sorted(self.actions()),
            required_seccomp_actions(self.actions()),
    {
        proof {
            use_type_invariant(self);
        }
        self.available_actions.as_slice()
    }
}

impl Clone for SeccompCapability {
    fn clone(&self) -> (r: Self)
        ensures
            r.actions() == self.actions(),
    {
        proof {
            use_type_invariant(self);
        }
        let available_actions = self.available_actions.clone();
        proof {
            assert forall|i: int| 0 <= i < available_actions@.len() implies available_actions@[i] == self.available_actions@[i] by {
                assert(cloned::<String>(self.available_actions[i], available_actions[i]));
            }
            assert(available_actions@ =~= self.available_actions@);
        }
        SeccompCapability { available_actions }
    }
}

/// The model of a cgroup v2 capability.
pub struct CgroupModel {
    pub directory: Seq<u8>,
    pub mount_id: u64,
    pub directory_inode: u64,
    pub controllers: Seq<Seq<u8>>,
}

/// Contains one usable delegated cgroup v2 root.
#[derive(Debug, PartialEq, Eq)]
pub struct CgroupV2Capability {
    directory: String,
    mount_id: u64,
    directory_inode: u64,
    controllers: Vec<String>,
}

impl CgroupV2Capability {
    /// The model of this capability.
    pub closed spec fn model(self) -> CgroupModel {
        CgroupModel {
            directory: string_bytes(self.directory),
            mount_id: self.mount_id,
            directory_inode: self.directory_inode,
            controllers: string_models(self.controllers@),
        }
    }

    #[verifier::type_invariant]
    spec fn well_formed(self) -> bool {
        strictly_sorted(self.model().controllers) && self.model().controllers.contains("pids".spec_bytes())
    }

    /// Returns the empty delegated cgroup v2 root.
    pub fn directory(&self) -> (r: &str)
        ensures
            r.spec_bytes() == self.model().directory,
    {
        self.directory.as_str()
    }

    /// Returns the kernel mount identifier for the unified hierarchy.
    pub fn mount_id(&self) -> (r: u64)
        ensures
            r == self.model().mount_id,
    {
        self.mount_id
    }

    /// Returns the inode identity of the delegated root at probe time.
    pub fn directory_inode(&self) -> (r: u64)
        ensures
            r == self.model().directory_inode,
    {
        self.directory_inode
    }

    /// Returns available controllers in canonical order.
    pub fn controllers(&self) -> (r: &[String])
        ensures
            string_models(r@) == self.model().controllers,
            strictly_sorted(self.model().controllers),
            self.model().controllers.contains("pids".spec_bytes()),
    {
        proof {
            use_type_invariant(self);
        }
        self.controllers.as_slice()
    }
}

impl Clone for CgroupV2Capability {
    fn clone(&self) -> (r: Self)
        ensures
            r.model() == self.model(),
    {
        proof {
            use_type_invariant(self);
        }
        let controllers = self.controllers.clone();
        proof {
            assert forall|i: int| 0 <= i < controllers@.len() implies controllers@[i] == self.controllers@[i] by {
                assert(cloned::<String>(self.controllers[i], controllers[i]));
            }
            assert(controllers@ =~= self.controllers@);
        }
        CgroupV2Capability {
            directory: self.directory.clone(),
            mount_id: self.mount_id,
            directory_inode: self.directory_inode,
            controllers,
        }
    }
}

/// Contains each capability result, including failures on unsupported hosts.
#[derive(Clone, Debug, PartialEq, Eq)]
pub struct CapabilityReport {
    /// Native Linux operating-system support.
    pub operating_system: Capability<()>,
    /// Supported machine architecture.
    pub architecture: Capability<Architecture>,
    /// Exact Linux kernel release.
    pub kernel_release: Capability<String>,
    /// Nonzero Landlock ABI reported by the kernel.
    pub landlock_abi: Capability<LandlockAbi>,
    /// `PR_GET_NO_NEW_PRIVS` support.
    pub no_new_privileges: Capability<()>,
    /// Required seccomp filter actions.
    pub seccomp: Capability<SeccompCapability>,
    /// Delegated cgroup v2 directory and required controllers.
    pub cgroup_v2: Capability<CgroupV2Capability>,
}

/// The first capability of a report, in the order the supervisor requires them, that
/// is unavailable: operating system, architecture, kernel release, Landlock, seccomp,
/// cgroup v2 and `no_new_privs`.
pub open spec fn first_unavailable(r: CapabilityReport) -> Option<ProbeError> {
    if let Capability::Unavailable(e) = r.operating_system {
        Some(e)
    } else if let Capability::Unavailable(e) = r.architecture {
        Some(e)
    } else if let Capability::Unavailable(e) = r.kernel_release {
        Some(e)
    } else if let Capability::Unavailable(e) = r.landlock_abi {
        Some(e)
    } else if let Capability::Unavailable(e) = r.seccomp {
        Some(e)
    } else if let Capability::Unavailable(e) = r.cgroup_v2 {
        Some(e)
    } else if let Capability::Unavailable(e) = r.no_new_privileges {
        Some(e)
    } else {
        None
    }
}

impl CapabilityReport {
    /// Requires every capability and returns the supported host identity; the first
    /// unavailable capability, in the order of `first_unavailable`, is the error.
    pub fn require_supported(self) -> (r: Result<SupportedLinux, ProbeError>)
        ensures
            r is Err <==> first_unavailable(self) is Some,
            r matches Err(e) ==> first_unavailable(self) == Some(e),
            r matches Ok(s) ==> {
                &&& self.architecture == Capability::<Architecture>::Available(s.architecture_of())
                &&& self.kernel_release == Capability::<String>::Available(s.kernel_release_of())
                &&& self.landlock_abi == Capability::<LandlockAbi>::Available(s.landlock_abi_of())
                &&& self.seccomp == Capability::<SeccompCapability>::Available(s.seccomp_of())
                &&& self.cgroup_v2 == Capability::<CgroupV2Capability>::Available(s.cgroup_v2_of())
            },
    {
        self.operating_system.into_result()?;
        let architecture = self.architecture.into_result()?;
        let kernel_release = self.kernel_release.into_result()?;
        let landlock_abi = self.landlock_abi.into_result()?;
        let seccomp = self.seccomp.into_result()?;
        let cgroup_v2 = self.cgroup_v2.into_result()?;
        self.no_new_privileges.into_result()?;
        Ok(SupportedLinux { architecture, kernel_release, landlock_abi, seccomp, cgroup_v2 })
    }
}

/// Contains the complete observed identity of one supported Linux host.
#[derive(Clone, Debug, PartialEq, Eq)]
pub struct SupportedLinux {
    architecture: Architecture,
    kernel_release: String,
    landlock_abi: LandlockAbi,
    seccomp: SeccompCapability,
    cgroup_v2: CgroupV2Capability,
}

impl SupportedLinux {
    pub closed spec fn architecture_of(self) -> Architecture {
        self.architecture
    }

    pub closed spec fn kernel_release_of(self) -> String {
        self.kernel_release
    }

    pub closed spec fn landlock_abi_of(self) -> LandlockAbi {
        self.landlock_abi
    }

    pub closed spec fn seccomp_of(self) -> SeccompCapability {
        self.seccomp
    }

    pub closed spec fn cgroup_v2_of(self) -> CgroupV2Capability {
        self.cgroup_v2
    }

    /// Returns the supported architecture.
    pub fn architecture(&self) -> (r: Architecture)
        ensures
            r == self.architecture_of(),
    {
        self.architecture
    }

    /// Returns the exact Linux kernel release.
    pub fn kernel_release(&self) -> (r: &str)
        ensures
            r@ == self.kernel_release_of()@,
    {
        self.kernel_release.as_str()
    }

    /// Returns the nonzero Landlock ABI.
    pub fn landlock_abi(&self) -> (r: LandlockAbi)
        ensures
            r == self.landlock_abi_of(),
    {
        self.landlock_abi
    }

    /// Returns the supported seccomp capability.
    pub fn seccomp(&self) -> (r: &SeccompCapability)
        ensures
            *r == self.seccomp_of(),
    {
        &self.seccomp
    }

    /// Returns the delegated cgroup v2 capability.
    pub fn cgroup_v2(&self) -> (r: &CgroupV2Capability)
        ensures
            *r == self.cgroup_v2_of(),
    {
        &self.cgroup_v2
    }

    /// Reports support for installing `no_new_privs`, which every supported host has.
    pub fn supports_no_new_privileges(&self) -> (r: bool)
        ensures
            r,
    {
        true
    }
}

/// The report of a host that is not Linux: every capability is unavailable for that reason.
pub fn probe_unsupported_platform() -> (r: CapabilityReport)
    ensures
        r.operating_system == Capability::<()>::Unavailable(ProbeError::UnsupportedOperatingSystem),
        r.architecture == Capability::<Architecture>::Unavailable(ProbeError::UnsupportedOperatingSystem),
        r.kernel_release == Capability::<String>::Unavailable(ProbeError::UnsupportedOperatingSystem),
        r.landlock_abi == Capability::<LandlockAbi>::Unavailable(ProbeError::UnsupportedOperatingSystem),
        r.no_new_privileges == Capability::<()>::Unavailable(ProbeError::UnsupportedOperatingSystem),
        r.seccomp == Capability::<SeccompCapability>::Unavailable(ProbeError::UnsupportedOperatingSystem),
        r.cgroup_v2 == Capability::<CgroupV2Capability>::Unavailable(ProbeError::UnsupportedOperatingSystem),
{
    CapabilityReport {
        operating_system: Capability::Unavailable(ProbeError::UnsupportedOperatingSystem),
        architecture: Capability::Unavailable(ProbeError::UnsupportedOperatingSystem),
        kernel_release: Capability::Unavailable(ProbeError::UnsupportedOperatingSystem),
        landlock_abi: Capability::Unavailable(ProbeError::UnsupportedOperatingSystem),
        no_new_privileges: Capability::Unavailable(ProbeError::UnsupportedOperatingSystem),
        seccomp: Capability::Unavailable(ProbeError::UnsupportedOperatingSystem),
        cgroup_v2: Capability::Unavailable(ProbeError::UnsupportedOperatingSystem),
    }
}

/// A report whose operating system is unavailable never yields a supported host,
/// and the reason it gives is the operating system's.
pub proof fn lemma_unsupported_host_never_supported(r: CapabilityReport, e: ProbeError)
    requires
        r.operating_system == Capability::<()>::Unavailable(e),
    ensures
        first_unavailable(r) == Some(e),
{
}

/// Decides the Landlock capability from the ABI version the kernel reported
/// (`None` when it reported none): zero or none is `LandlockUnavailable`, a version
/// outside the known range is `LandlockAbiUnsupported`.
pub fn landlock_capability(abi: Option<u32>) -> (r: Capability<LandlockAbi>)
    ensures
        match abi {
            Some(v) if v != 0 => if MIN_LANDLOCK_ABI <= v <= MAX_KNOWN_LANDLOCK_ABI {
                r matches Capability::Available(a) && a.value() == v
            } else {
                r == Capability::<LandlockAbi>::Unavailable(ProbeError::LandlockAbiUnsupported)
            },
            _ => r == Capability::<LandlockAbi>::Unavailable(ProbeError::LandlockUnavailable),
        },
{
    match abi {
        Some(v) => match LandlockAbi::new(v) {
            Some(a) => if MIN_LANDLOCK_ABI <= v && v <= MAX_KNOWN_LANDLOCK_ABI {
                Capability::Available(a)
            } else {
                Capability::Unavailable(ProbeError::LandlockAbiUnsupported)
            },
            None => Capability::Unavailable(ProbeError::LandlockUnavailable),
        },
        None => Capability::Unavailable(ProbeError::LandlockUnavailable),
    }
}

/// Decides `no_new_privs` support from the kernel's answer (`None` when the query
/// failed): only a positive answer is available.
pub fn no_new_privileges_capability(supported: Option<bool>) -> (r: Capability<()>)
    ensures
        r == (if supported == Some(true) {
            Capability::<()>::Available(())
        } else {
            Capability::<()>::Unavailable(ProbeError::NoNewPrivilegesUnavailable)
        }),
{
    match supported {
        Some(true) => Capability::Available(()),
        _ => Capability::Unavailable(ProbeError::NoNewPrivilegesUnavailable),
    }
}

/// Reports whether a canonical set holds `name`.
pub(crate) fn set_contains(set: &[String], name: &str) -> (r: bool)
    ensures
        r == string_models(set@).contains(name.spec_bytes()),
{
    let mut k: usize = 0;
    while k < set.len()
        invariant
            k <= set@.len(),
            forall|j: int| 0 <= j < k ==> string_models(set@)[j] != name.spec_bytes(),
        decreases set@.len() - k,
    {
        if bytes_equal(set[k].as_str().as_bytes(), name.as_bytes()) {
            assert(string_models(set@)[k as int] == name.spec_bytes());
            return true;
        }
        k = k + 1;
    }
    false
}

/// Decides the seccomp capability: a kernel without seccomp, or an unreadable action
/// list (`None`, or text that is not UTF-8), is `SeccompUnavailable`; a list without
/// `allow`, `errno` and `kill_process` is `SeccompActionMissing`; otherwise the
/// distinct actions in canonical order are available.
pub fn seccomp_capability(seccomp_supported: bool, actions: Option<&str>) -> (r: Capability<SeccompCapability>)
    ensures
        match actions {
            Some(text) if seccomp_supported && crate::text::fields_utf8(text.spec_bytes()) => if required_seccomp_actions(
                fields(text.spec_bytes()),
            ) {
                r matches Capability::Available(c) && forall|x: Seq<u8>|
                    c.actions().contains(x) <==> fields(text.spec_bytes()).contains(x)
            } else {
                r == Capability::<SeccompCapability>::Unavailable(ProbeError::SeccompActionMissing)
            },
            _ => r == Capability::<SeccompCapability>::Unavailable(ProbeError::SeccompUnavailable),
        },
{
    if !seccomp_supported {
        return Capability::Unavailable(ProbeError::SeccompUnavailable);
    }
    let text = match actions {
        Some(text) => text,
        None => {
            return Capability::Unavailable(ProbeError::SeccompUnavailable);
        },
    };
    let set = match read_set(text.as_bytes()) {
        Some(set) => set,
        None => {
            return Capability::Unavailable(ProbeError::SeccompUnavailable);
        },
    };
    proof {
        reveal_strlit("allow");
        reveal_strlit("errno");
        reveal_strlit("kill_process");
    }
    if !set_contains(set.as_slice(), "allow") || !set_contains(set.as_slice(), "errno") || !set_contains(
        set.as_slice(),
        "kill_process",
    ) {
        return Capability::Unavailable(ProbeError::SeccompActionMissing);
    }
    Capability::Available(SeccompCapability { available_actions: set })
}

/// Decides a capability read from one kernel file: its trimmed text when nonempty
/// UTF-8, else `error`; `None` is a file that could not be read.
pub fn read_nonempty(text: Option<&str>, error: ProbeError) -> (r: Capability<String>)
    ensures
        match text {
            Some(t) if trimmed(t.spec_bytes()).len() > 0 && vstd::utf8::valid_utf8(trimmed(t.spec_bytes())) => r matches Capability::Available(
                s,
            ) && string_bytes(s) == trimmed(t.spec_bytes()),
            _ => r == Capability::<String>::Unavailable(error),
        },
{
    let t = match text {
        Some(t) => t,
        None => {
            return Capability::Unavailable(error);
        },
    };
    let bytes = t.as_bytes();
    let (a, b) = trim_range(bytes);
    if a == b {
        return Capability::Unavailable(error);
    }
    let mut piece: Vec<u8> = Vec::new();
    let mut k: usize = a;
    while k < b
        invariant
            a <= k <= b <= bytes@.len(),
            piece@ == bytes@.subrange(a as int, k as int),
        decreases b - k,
    {
        piece.push(bytes[k]);
        proof {
            assert(piece@ =~= bytes@.subrange(a as int, k + 1));
        }
        k = k + 1;
    }
    match utf8_string(piece) {
        Some(s) => Capability::Available(s),
        None => Capability::Unavailable(error),
    }
}


/// The position of the first ` - ` separator in `line` at or after `i`.
pub open spec fn separator_at(line: Seq<u8>, i: int) -> Option<int>
    decreases line.len() - i,
{
    if i < 0 || i + 3 > line.len() {
        None
    } else if line[i] == 0x20 && line[i + 1] == 0x2d && line[i + 2] == 0x20 {
        Some(i)
    } else {
        separator_at(line, i + 1)
    }
}

/// `s` with every left-to-right, non-overlapping occurrence of the four bytes `pat`
/// replaced by the byte `rep`, as `str::replace` does.
pub open spec fn replace_escape(s: Seq<u8>, pat: Seq<u8>, rep: u8) -> Seq<u8>
    decreases s.len(),
{
    if s.len() < 4 {
        s
    } else if s.subrange(0, 4) == pat {
        seq![rep] + replace_escape(s.subrange(4, s.len() as int), pat, rep)
    } else {
        seq![s[0]] + replace_escape(s.subrange(1, s.len() as int), pat, rep)
    }
}

/// A mount path with the kernel's octal escapes for space, tab, line feed and
/// backslash decoded, one escape after the other.
pub open spec fn decoded_mount_path(s: Seq<u8>) -> Seq<u8> {
    replace_escape(
        replace_escape(
            replace_escape(replace_escape(s, seq![0x5cu8, 0x30, 0x34, 0x30], 0x20), seq![0x5cu8, 0x30, 0x31, 0x31], 0x09),
            seq![0x5cu8, 0x30, 0x31, 0x32],
            0x0a,
        ),
        seq![0x5cu8, 0x31, 0x33, 0x34],
        0x5c,
    )
}

/// The unified cgroup v2 mount one `/proc/self/mountinfo` line describes: the
/// filesystem type after the ` - ` separator is `cgroup2`, the first field is the
/// mount identifier and the fifth is the mount point.
pub open spec fn line_mount(line: Seq<u8>) -> Option<(u64, Seq<u8>)> {
    match separator_at(line, 0) {
        None => None,
        Some(sep) => {
            let mount = fields(line.subrange(0, sep));
            let filesystem = fields(line.subrange(sep + 3, line.len() as int));
            if filesystem.len() == 0 || filesystem[0] != "cgroup2".spec_bytes() || mount.len() == 0 || !unsigned_text(
                mount[0],
            ) || decimal_value(unsigned_digits(mount[0])) > u64::MAX || mount.len() < 5 {
                None
            } else {
                Some((decimal_value(unsigned_digits(mount[0])) as u64, decoded_mount_path(mount[4])))
            }
        },
    }
}

/// The first mount of a list of lines that is a cgroup v2 mount.
pub open spec fn first_mount(ls: Seq<Seq<u8>>) -> Option<(u64, Seq<u8>)>
    decreases ls.len(),
{
    if ls.len() == 0 {
        None
    } else if line_mount(ls[0]) is Some {
        line_mount(ls[0])
    } else {
        first_mount(ls.subrange(1, ls.len() as int))
    }
}

fn find_separator(line: &[u8]) -> (r: Option<usize>)
    ensures
        r is None ==> separator_at(line@, 0) is None,
        r matches Some(i) ==> separator_at(line@, 0) == Some(i as int) && i + 3 <= line@.len(),
{
    if line.len() < 3 {
        return None;
    }
    let mut i: usize = 0;
    while i <= line.len() - 3
        invariant
            i <= line@.len(),
            line@.len() >= 3,
            separator_at(line@, 0) == separator_at(line@, i as int),
        decreases line@.len() - i,
    {
        if line[i] == 0x20 && line[i + 1] == 0x2d && line[i + 2] == 0x20 {
            return Some(i);
        }
        i = i + 1;
    }
    None
}

#[verifier::spinoff_prover]
#[verifier::rlimit(40)]
fn replace_escape_bytes(s: &[u8], pat: &[u8], rep: u8) -> (r: Vec<u8>)
    requires
        pat@.len() == 4,
    ensures
        r@ == replace_escape(s@, pat@, rep),
{
    let mut out: Vec<u8> = Vec::new();
    let mut i: usize = 0;
    assert(s@.subrange(0, s@.len() as int) =~= s@);
    assert(out@ + s@ =~= s@);
    while i < s.len()
        invariant
            i <= s@.len(),
            pat@.len() == 4,
            replace_escape(s@, pat@, rep) == out@ + replace_escape(s@.subrange(i as int, s@.len() as int), pat@, rep),
        decreases s@.len() - i,
    {
        let ghost rest = s@.subrange(i as int, s@.len() as int);
        if s.len() - i >= 4 && s[i] == pat[0] && s[i + 1] == pat[1] && s[i + 2] == pat[2] && s[i + 3] == pat[3] {
            proof {
                assert(rest.subrange(0, 4) =~= pat@);
                assert(rest.subrange(4, rest.len() as int) =~= s@.subrange(i + 4, s@.len() as int));
            }
            out.push(rep);
            i = i + 4;
        } else {
            proof {
                if rest.len() >= 4 {
                    assert(rest.subrange(0, 4) != pat@) by {
                        if rest.subrange(0, 4) == pat@ {
                            assert(rest.subrange(0, 4)[0] == s@[i as int]);
                            assert(rest.subrange(0, 4)[1] == s@[i + 1]);
                            assert(rest.subrange(0, 4)[2] == s@[i + 2]);
                            assert(rest.subrange(0, 4)[3] == s@[i + 3]);
                        }
                    }
                    assert(rest.subrange(1, rest.len() as int) =~= s@.subrange(i + 1, s@.len() as int));
                    assert(replace_escape(rest, pat@, rep) == seq![s@[i as int]] + replace_escape(
                        s@.subrange(i + 1, s@.len() as int),
                        pat@,
                        rep,
                    ));
                } else {
                    assert(replace_escape(rest, pat@, rep) == rest);
                    assert(rest.len() < 4);
                    assert(replace_escape(s@.subrange(i + 1, s@.len() as int), pat@, rep) == s@.subrange(i + 1, s@.len() as int));
                    assert(rest =~= seq![s@[i as int]] + s@.subrange(i + 1, s@.len() as int));
                }
            }
            out.push(s[i]);
            i = i + 1;
        }
    }
    proof {
        assert(s@.subrange(i as int, s@.len() as int) =~= Seq::<u8>::empty());
        assert(out@ + Seq::<u8>::empty() =~= out@);
    }
    out
}

fn decode_mount_path(value: &[u8]) -> (r: Vec<u8>)
    ensures
        r@ == decoded_mount_path(value@),
{
    let space: [u8; 4] = [0x5c, 0x30, 0x34, 0x30];
    let tab: [u8; 4] = [0x5c, 0x30, 0x31, 0x31];
    let line_feed: [u8; 4] = [0x5c, 0x30, 0x31, 0x32];
    let backslash: [u8; 4] = [0x5c, 0x31, 0x33, 0x34];
    assert(space@ =~= seq![0x5cu8, 0x30, 0x34, 0x30]);
    assert(tab@ =~= seq![0x5cu8, 0x30, 0x31, 0x31]);
    assert(line_feed@ =~= seq![0x5cu8, 0x30, 0x31, 0x32]);
    assert(backslash@ =~= seq![0x5cu8, 0x31, 0x33, 0x34]);
    let a = replace_escape_bytes(value, &space, 0x20);
    let b = replace_escape_bytes(a.as_slice(), &tab, 0x09);
    let c = replace_escape_bytes(b.as_slice(), &line_feed, 0x0a);
    replace_escape_bytes(c.as_slice(), &backslash, 0x5c)
}

proof fn lemma_field_index(s: Seq<u8>, start: int, a: int, b: int)
    requires
        fields_from(s, start) == seq![s.subrange(a, b)] + fields_from(s, b),
    ensures
        fields_from(s, start).len() == fields_from(s, b).len() + 1,
        fields_from(s, start)[0] == s.subrange(a, b),
        forall|k: int| 0 <= k < fields_from(s, b).len() ==> fields_from(s, start)[k + 1] == fields_from(s, b)[k],
{
}

fn mount_line(line: &[u8]) -> (r: Option<(u64, Vec<u8>)>)
    ensures
        r is Some <==> line_mount(line@) is Some,
        r matches Some((id, path)) ==> line_mount(line@) == Some((id, path@)),
{
    let sep = match find_separator(line) {
        Some(sep) => sep,
        None => {
            return None;
        },
    };
    assert(separator_at(line@, 0) == Some(sep as int));
    assert(sep + 3 <= line.len());
    let mount = copy_range(line, 0, sep);
    let filesystem = copy_range(line, sep + 3, line.len());
    proof {
        reveal_strlit("cgroup2");
    }
    match crate::text::next_field(filesystem.as_slice(), 0) {
        None => {
            return None;
        },
        Some((a, b)) => {
            proof {
                lemma_field_index(filesystem@, 0, a as int, b as int);
            }
            let kind = copy_range(filesystem.as_slice(), a, b);
            if !bytes_equal(kind.as_slice(), "cgroup2".as_bytes()) {
                return None;
            }
        },
    }
    let ghost mf = fields(mount@);
    let (a0, b0) = match crate::text::next_field(mount.as_slice(), 0) {
        Some(f) => f,
        None => {
            return None;
        },
    };
    proof {
        lemma_field_index(mount@, 0, a0 as int, b0 as int);
    }
    let first = copy_range(mount.as_slice(), a0, b0);
    let id = match crate::text::parse_unsigned_u64(first.as_slice()) {
        Some(id) => id,
        None => {
            return None;
        },
    };
    let mut start = b0;
    let mut k: usize = 1;
    while k < 4
        invariant
            1 <= k <= 4,
            start <= mount@.len(),
            mf == fields(mount@),
            mount@ == line@.subrange(0, sep as int),
            separator_at(line@, 0) == Some(sep as int),
            mf.len() == k + fields_from(mount@, start as int).len(),
            forall|j: int| 0 <= j < fields_from(mount@, start as int).len() ==> mf[k + j] == fields_from(mount@, start as int)[j],
        decreases 4 - k,
    {
        match crate::text::next_field(mount.as_slice(), start) {
            None => {
                return None;
            },
            Some((a, b)) => {
                proof {
                    lemma_field_index(mount@, start as int, a as int, b as int);
                }
                start = b;
                k = k + 1;
            },
        }
    }
    match crate::text::next_field(mount.as_slice(), start) {
        None => None,
        Some((a, b)) => {
            proof {
                lemma_field_index(mount@, start as int, a as int, b as int);
                assert(mf[4] == mount@.subrange(a as int, b as int));
            }
            let raw = copy_range(mount.as_slice(), a, b);
            Some((id, decode_mount_path(raw.as_slice())))
        },
    }
}

/// Finds the unified cgroup v2 mount in `/proc/self/mountinfo` text: the mount
/// identifier and decoded mount point of the first `cgroup2` line; `None` when there
/// is none, or when its decoded mount point is not UTF-8 text.
pub fn parse_cgroup_v2_mount(mountinfo: &str) -> (r: Option<(u64, String)>)
    ensures
        r is Some <==> (first_mount(lines(mountinfo.spec_bytes())) matches Some((_, p)) && vstd::utf8::valid_utf8(p)),
        r matches Some((id, path)) ==> first_mount(lines(mountinfo.spec_bytes())) == Some((id, string_bytes(path))),
{
    let text = mountinfo.as_bytes();
    let ghost all = lines(text@);
    let mut start: usize = 0;
    while start < text.len()
        invariant
            start <= text@.len(),
            text@ == mountinfo.spec_bytes(),
            all == lines(text@),
            first_mount(all) == first_mount(crate::text::lines_from(text@, start as int)),
        decreases text@.len() - start,
    {
        match next_line(text, start) {
            None => {
                return None;
            },
            Some((a, b, next)) => {
                let line = copy_range(text, a, b);
                let ghost rest = crate::text::lines_from(text@, start as int);
                proof {
                    assert(rest[0] == line@);
                    assert(rest.subrange(1, rest.len() as int) =~= crate::text::lines_from(text@, next as int));
                }
                match mount_line(line.as_slice()) {
                    Some((id, path)) => {
                        proof {
                            assert(line_mount(rest[0]) == Some((id, path@)));
                            assert(first_mount(rest) == Some((id, path@)));
                            assert(first_mount(all) == Some((id, path@)));
                        }
                        let ghost decoded = path@;
                        let converted = utf8_string(path);
                        match converted {
                            Some(p) => {
                                assert(vstd::utf8::valid_utf8(decoded));
                                assert(string_bytes(p) == decoded);
                                return Some((id, p));
                            },
                            None => {
                                assert(!vstd::utf8::valid_utf8(decoded));
                                return None;
                            },
                        }
                    },
                    None => {
                        start = next;
                    },
                }
            },
        }
    }
    proof {
        assert(crate::text::lines_from(text@, start as int).len() == 0);
    }
    None
}


/// The supervisor's cgroup in `/proc/self/cgroup` text: the rest of the first line
/// that starts with `0::`.
pub open spec fn unified_cgroup(ls: Seq<Seq<u8>>) -> Option<Seq<u8>>
    decreases ls.len(),
{
    if ls.len() == 0 {
        None
    } else if ls[0].len() >= 3 && ls[0][0] == 0x30 && ls[0][1] == 0x3a && ls[0][2] == 0x3a {
        Some(ls[0].subrange(3, ls[0].len() as int))
    } else {
        unified_cgroup(ls.subrange(1, ls.len() as int))
    }
}

/// Finds the supervisor's unified cgroup in `/proc/self/cgroup` text; `None` when no
/// line names one, or when the name is not UTF-8 text.
pub fn current_cgroup_path(text: &str) -> (r: Option<String>)
    ensures
        r is Some <==> (unified_cgroup(lines(text.spec_bytes())) matches Some(p) && vstd::utf8::valid_utf8(p)),
        r matches Some(path) ==> unified_cgroup(lines(text.spec_bytes())) == Some(string_bytes(path)),
{
    let bytes = text.as_bytes();
    let ghost all = lines(bytes@);
    let mut start: usize = 0;
    while start < bytes.len()
        invariant
            start <= bytes@.len(),
            bytes@ == text.spec_bytes(),
            all == lines(bytes@),
            unified_cgroup(all) == unified_cgroup(crate::text::lines_from(bytes@, start as int)),
        decreases bytes@.len() - start,
    {
        match next_line(bytes, start) {
            None => {
                return None;
            },
            Some((a, b, next)) => {
                let ghost rest = crate::text::lines_from(bytes@, start as int);
                proof {
                    assert(rest[0] == bytes@.subrange(a as int, b as int));
                    assert(rest.subrange(1, rest.len() as int) =~= crate::text::lines_from(bytes@, next as int));
                }
                if b - a >= 3 && bytes[a] == 0x30 && bytes[a + 1] == 0x3a && bytes[a + 2] == 0x3a {
                    let name = copy_range(bytes, a + 3, b);
                    proof {
                        assert(rest[0].subrange(3, rest[0].len() as int) =~= name@);
                        assert(unified_cgroup(all) == Some(name@));
                    }
                    let ghost found = name@;
                    let converted = utf8_string(name);
                    match converted {
                        Some(p) => {
                            assert(string_bytes(p) == found);
                            return Some(p);
                        },
                        None => {
                            return None;
                        },
                    }
                }
                start = next;
            },
        }
    }
    proof {
        assert(crate::text::lines_from(bytes@, start as int).len() == 0);
    }
    None
}

/// The segment starting at `j` of an absolute path is a proper name: nonempty and
/// neither `.` nor `..`.
pub open spec fn proper_segment(p: Seq<u8>, j: int) -> bool {
    &&& j < p.len() && p[j] != 0x2f
    &&& !(p[j] == 0x2e && (j + 1 == p.len() || p[j + 1] == 0x2f))
    &&& !(p[j] == 0x2e && j + 1 < p.len() && p[j + 1] == 0x2e && (j + 2 == p.len() || p[j + 2] == 0x2f))
}

/// A path as `std::fs::canonicalize` returns it: absolute, and either the root or a
/// sequence of proper names, each after one slash.
pub open spec fn canonical_path(p: Seq<u8>) -> bool {
    &&& p.len() > 0 && p[0] == 0x2f
    &&& p.len() == 1 || forall|i: int| 0 <= i < p.len() && p[i] == 0x2f ==> #[trigger] proper_segment(p, i + 1)
}

/// `Path::starts_with` on canonical paths: `child` is `parent` or lies below it.
pub open spec fn path_under(child: Seq<u8>, parent: Seq<u8>) -> bool {
    ||| parent == seq![0x2fu8]
    ||| child == parent
    ||| child.len() > parent.len() && child.subrange(0, parent.len() as int) == parent && child[parent.len() as int] == 0x2f
}

/// Reports whether a path is in the canonical form `std::fs::canonicalize` returns.
pub fn is_canonical_path(p: &str) -> (r: bool)
    ensures
        r == canonical_path(p.spec_bytes()),
{
    let s = p.as_bytes();
    if s.len() == 0 || s[0] != 0x2f {
        return false;
    }
    if s.len() == 1 {
        return true;
    }
    let mut i: usize = 0;
    while i < s.len()
        invariant
            i <= s@.len(),
            s@ == p.spec_bytes(),
            s@.len() > 1,
            forall|k: int| 0 <= k < i && s@[k] == 0x2f ==> #[trigger] proper_segment(s@, k + 1),
        decreases s@.len() - i,
    {
        if s[i] == 0x2f {
            let j = i + 1;
            let ok = j < s.len() && s[j] != 0x2f && !(s[j] == 0x2e && (j + 1 == s.len() || s[j + 1] == 0x2f)) && !(
            s[j] == 0x2e && j + 1 < s.len() && s[j + 1] == 0x2e && (j + 2 == s.len() || s[j + 2] == 0x2f));
            if !ok {
                assert(!proper_segment(s@, i + 1));
                return false;
            }
        }
        i = i + 1;
    }
    true
}

/// Reports whether `child` is `parent` or lies below it, as `Path::starts_with`
/// does for canonical paths.
pub fn path_is_under(child: &str, parent: &str) -> (r: bool)
    ensures
        r == path_under(child.spec_bytes(), parent.spec_bytes()),
{
    let c = child.as_bytes();
    let q = parent.as_bytes();
    if q.len() == 1 && q[0] == 0x2f {
        assert(q@ =~= seq![0x2fu8]);
        return true;
    }
    assert(q@ != seq![0x2fu8]);
    if bytes_equal(c, q) {
        return true;
    }
    if c.len() <= q.len() {
        return false;
    }
    let head = copy_range(c, 0, q.len());
    bytes_equal(head.as_slice(), q) && c[q.len()] == 0x2f
}

/// What the supervisor observed of its cgroup v2 hierarchy: the unified mount
/// (identifier and canonical mount point), the canonical configured root and the
/// canonical cgroup of the supervisor itself, the text of the root's `cgroup.procs`,
/// `cgroup.type`, `cgroup.controllers` and `cgroup.subtree_control`, whether the root
/// and both control files can be written, and the root's inode. `None` is an
/// observation that could not be made.
pub struct CgroupV2Observation {
    pub mount: Option<(u64, String)>,
    pub directory: Option<String>,
    pub current: Option<String>,
    pub procs: Option<String>,
    pub cgroup_type: Option<String>,
    pub controllers: Option<String>,
    pub subtree_control: Option<String>,
    pub writable: bool,
    pub directory_inode: Option<u64>,
}

/// The paths of an observation are canonical, as `std::fs::canonicalize` returns them.
pub open spec fn observation_paths_canonical(o: CgroupV2Observation) -> bool {
    &&& o.mount matches Some((_, m)) ==> canonical_path(string_bytes(m))
    &&& o.directory matches Some(d) ==> canonical_path(string_bytes(d))
    &&& o.current matches Some(c) ==> canonical_path(string_bytes(c))
}

/// A set file read as text names `name`.
pub open spec fn set_names(text: Option<String>, name: Seq<u8>) -> bool {
    text matches Some(t) && fields(string_bytes(t)).contains(name)
}

/// A set file was read and every field is UTF-8 text.
pub open spec fn set_readable(text: Option<String>) -> bool {
    text matches Some(t) && crate::text::fields_utf8(string_bytes(t))
}

/// Why a cgroup v2 observation is not a usable delegation root, checked in order:
/// the mount and root must resolve; the root must lie strictly below the mount; the
/// supervisor's cgroup must resolve and lie strictly below the root; the root must
/// hold no process and be a `domain`; its controllers must be readable and include
/// `pids`; `pids` must be enabled for its children; the root must be writable and
/// its inode known.
pub open spec fn cgroup_v2_error(o: CgroupV2Observation) -> Option<ProbeError> {
    if o.mount is None || o.directory is None {
        Some(ProbeError::CgroupV2Unavailable)
    } else if string_bytes(o.directory->0) == string_bytes((o.mount->0).1) || !path_under(
        string_bytes(o.directory->0),
        string_bytes((o.mount->0).1),
    ) {
        Some(ProbeError::CgroupV2DelegationUnavailable)
    } else if o.current is None {
        Some(ProbeError::CgroupV2Unavailable)
    } else if !path_under(string_bytes(o.current->0), string_bytes(o.directory->0)) || string_bytes(o.current->0)
        == string_bytes(o.directory->0) || !(o.procs matches Some(p) && trimmed(string_bytes(p)).len() == 0)
        || !(o.cgroup_type matches Some(t) && trimmed(string_bytes(t)) == "domain".spec_bytes()) {
        Some(ProbeError::CgroupV2DelegationUnavailable)
    } else if !set_readable(o.controllers) {
        Some(ProbeError::CgroupV2Unavailable)
    } else if !set_names(o.controllers, "pids".spec_bytes()) {
        Some(ProbeError::CgroupV2ControllerMissing)
    } else if !set_readable(o.subtree_control) || !set_names(o.subtree_control, "pids".spec_bytes())
        || !o.writable {
        Some(ProbeError::CgroupV2DelegationUnavailable)
    } else if o.directory_inode is None {
        Some(ProbeError::CgroupV2Unavailable)
    } else {
        None
    }
}

fn trimmed_is(text: &Option<String>, expected: &str) -> (r: bool)
    ensures
        r == (*text matches Some(t) && trimmed(string_bytes(t)) == expected.spec_bytes()),
{
    match text {
        Some(t) => {
            let bytes = t.as_str().as_bytes();
            let (a, b) = trim_range(bytes);
            let piece = copy_range(bytes, a, b);
            bytes_equal(piece.as_slice(), expected.as_bytes())
        },
        None => false,
    }
}

/// Decides whether an observed cgroup v2 hierarchy offers a usable delegation root:
/// the first failing check of `cgroup_v2_error` is the reason; otherwise the root, the
/// mount identifier, the root's inode and its distinct controllers are available.
pub fn cgroup_v2_capability(o: CgroupV2Observation) -> (r: Capability<CgroupV2Capability>)
    requires
        observation_paths_canonical(o),
    ensures
        match cgroup_v2_error(o) {
            Some(e) => r == Capability::<CgroupV2Capability>::Unavailable(e),
            None => r matches Capability::Available(c) && {
                &&& c.model().directory == string_bytes(o.directory->0)
                &&& c.model().mount_id == (o.mount->0).0
                &&& c.model().directory_inode == o.directory_inode->0
                &&& forall|x: Seq<u8>| #[trigger] c.model().controllers.contains(x) <==> fields(
                    string_bytes(o.controllers->0),
                ).contains(x)
            },
        },
{
    proof {
        reveal_strlit("domain");
        reveal_strlit("pids");
    }
    let (mount_id, mount) = match o.mount {
        Some(m) => m,
        None => {
            return Capability::Unavailable(ProbeError::CgroupV2Unavailable);
        },
    };
    let directory = match o.directory {
        Some(d) => d,
        None => {
            return Capability::Unavailable(ProbeError::CgroupV2Unavailable);
        },
    };
    if bytes_equal(directory.as_str().as_bytes(), mount.as_str().as_bytes()) || !path_is_under(
        directory.as_str(),
        mount.as_str(),
    ) {
        return Capability::Unavailable(ProbeError::CgroupV2DelegationUnavailable);
    }
    let current = match o.current {
        Some(c) => c,
        None => {
            return Capability::Unavailable(ProbeError::CgroupV2Unavailable);
        },
    };
    let procs_empty = match &o.procs {
        Some(p) => {
            let (a, b) = trim_range(p.as_str().as_bytes());
            a == b
        },
        None => false,
    };
    if !path_is_under(current.as_str(), directory.as_str()) || bytes_equal(
        current.as_str().as_bytes(),
        directory.as_str().as_bytes(),
    ) || !procs_empty || !trimmed_is(&o.cgroup_type, "domain") {
        return Capability::Unavailable(ProbeError::CgroupV2DelegationUnavailable);
    }
    let controllers = match &o.controllers {
        Some(t) => match read_set(t.as_str().as_bytes()) {
            Some(set) => set,
            None => {
                return Capability::Unavailable(ProbeError::CgroupV2Unavailable);
            },
        },
        None => {
            return Capability::Unavailable(ProbeError::CgroupV2Unavailable);
        },
    };
    if !set_contains(controllers.as_slice(), "pids") {
        return Capability::Unavailable(ProbeError::CgroupV2ControllerMissing);
    }
    let enabled = match &o.subtree_control {
        Some(t) => match read_set(t.as_str().as_bytes()) {
            Some(set) => set,
            None => {
                return Capability::Unavailable(ProbeError::CgroupV2DelegationUnavailable);
            },
        },
        None => {
            return Capability::Unavailable(ProbeError::CgroupV2DelegationUnavailable);
        },
    };
    if !set_contains(enabled.as_slice(), "pids") || !o.writable {
        return Capability::Unavailable(ProbeError::CgroupV2DelegationUnavailable);
    }
    let directory_inode = match o.directory_inode {
        Some(inode) => inode,
        None => {
            return Capability::Unavailable(ProbeError::CgroupV2Unavailable);
        },
    };
    Capability::Available(CgroupV2Capability { directory, mount_id, directory_inode, controllers })
}

} // verus!
