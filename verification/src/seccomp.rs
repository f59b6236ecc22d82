//! Compiles the closed version 1 seccomp deny-network profile to classic BPF.
use vstd::prelude::*;

use crate::probe::Architecture;

verus! {

pub const BPF_LOAD_WORD_ABSOLUTE: u16 = 0x20;
pub const BPF_JUMP_EQUAL_CONSTANT: u16 = 0x15;
pub const BPF_JUMP_GREATER_OR_EQUAL_CONSTANT: u16 = 0x35;
pub const BPF_RETURN_CONSTANT: u16 = 0x06;
pub const SECCOMP_DATA_NUMBER_OFFSET: u32 = 0;
pub const SECCOMP_DATA_ARCH_OFFSET: u32 = 4;
pub const SECCOMP_RETURN_KILL_PROCESS: u32 = 0x8000_0000;
pub const SECCOMP_RETURN_ERRNO: u32 = 0x0005_0000;
pub const SECCOMP_RETURN_ALLOW: u32 = 0x7fff_0000;
pub const ERRNO_PERMISSION: u32 = 1;
pub const AUDIT_ARCH_X86_64: u32 = 0xc000_003e;
pub const AUDIT_ARCH_AARCH64: u32 = 0xc000_00b7;
pub const X32_SYSCALL_BIT: u32 = 0x4000_0000;
pub const MAX_FILTER_INSTRUCTIONS: usize = 65535;

/// One classic-BPF instruction in the kernel `sock_filter` layout.
#[derive(Clone, Copy, Debug, PartialEq, Eq, Structural)]
pub struct BpfInstruction {
    pub code: u16,
    pub jump_true: u8,
    pub jump_false: u8,
    pub value: u32,
}

impl BpfInstruction {
    /// Creates one instruction from its four fields.
    pub fn new(code: u16, jump_true: u8, jump_false: u8, value: u32) -> (r: Self)
        ensures
            r == (BpfInstruction { code, jump_true, jump_false, value }),
    {
        BpfInstruction { code, jump_true, jump_false, value }
    }
}

/// Witnesses installation and read-back of the deny-network filter.
#[derive(Clone, Copy, Debug, PartialEq, Eq, Structural)]
pub struct SeccompBoundary {
    architecture: Architecture,
    denied_syscall_count: usize,
    instruction_count: usize,
}

impl SeccompBoundary {
    pub closed spec fn architecture_of(self) -> Architecture {
        self.architecture
    }

    pub closed spec fn denied_count_of(self) -> usize {
        self.denied_syscall_count
    }

    pub closed spec fn instruction_count_of(self) -> usize {
        self.instruction_count
    }

    /// Records the facts observed after the filter was installed and read back.
    pub fn installed(architecture: Architecture, denied_syscall_count: usize, instruction_count: usize) -> (r:
        Self)
        requires
            instruction_count == filter_length(architecture, denied_syscall_count as nat),
        ensures
            r.architecture_of() == architecture,
            r.denied_count_of() == denied_syscall_count,
            r.instruction_count_of() == instruction_count,
    {
        SeccompBoundary { architecture, denied_syscall_count, instruction_count }
    }

    /// Returns the audit architecture enforced by the filter preamble.
    pub fn architecture(self) -> (r: Architecture)
        ensures
            r == self.architecture_of(),
    {
        self.architecture
    }

    /// Returns the complete registered denied-syscall count.
    pub fn denied_syscall_count(self) -> (r: usize)
        ensures
            r == self.denied_count_of(),
    {
        self.denied_syscall_count
    }

    /// Returns the exact classic-BPF instruction count.
    pub fn instruction_count(self) -> (r: usize)
        ensures
            r == self.instruction_count_of(),
    {
        self.instruction_count
    }
}

/// Identifies one fail-closed seccomp installation result.
#[derive(Clone, Copy, Debug, PartialEq, Eq, Structural)]
pub enum SeccompError {
    /// The host operating system is not Linux.
    UnsupportedOperatingSystem,
    /// A syscall number or filter jump could not fit the classic-BPF contract.
    FilterInvalid,
    /// The kernel rejected filter installation or thread synchronization.
    InstallationFailed,
    /// `PR_GET_SECCOMP` did not report filter mode after installation.
    VerificationFailed,
}

/// The stable machine-readable code of each seccomp error.
pub open spec fn seccomp_error_code(e: SeccompError) -> Seq<char> {
    match e {
        SeccompError::UnsupportedOperatingSystem => "seccomp.os.unsupported"@,
        SeccompError::FilterInvalid => "seccomp.filter.invalid"@,
        SeccompError::InstallationFailed => "seccomp.installation.failed"@,
        SeccompError::VerificationFailed => "seccomp.verification.failed"@,
    }
}

impl SeccompError {
    /// Returns the stable machine-readable error code.
    pub fn code(self) -> (r: &'static str)
        ensures
            r@ == seccomp_error_code(self),
    {
        match self {
            SeccompError::UnsupportedOperatingSystem => "seccomp.os.unsupported",
            SeccompError::FilterInvalid => "seccomp.filter.invalid",
            SeccompError::InstallationFailed => "seccomp.installation.failed",
            SeccompError::VerificationFailed => "seccomp.verification.failed",
        }
    }
}

/// Law: distinct seccomp errors have distinct codes.
pub proof fn lemma_seccomp_codes_distinct(a: SeccompError, b: SeccompError)
    requires
        a != b,
    ensures
        seccomp_error_code(a) != seccomp_error_code(b),
{
    reveal_strlit("seccomp.os.unsupported");
    reveal_strlit("seccomp.filter.invalid");
    reveal_strlit("seccomp.installation.failed");
    reveal_strlit("seccomp.verification.failed");
    let ca = seccomp_error_code(a);
    let cb = seccomp_error_code(b);
    if ca.len() == cb.len() {
        assert(ca[8] != cb[8] || ca[9] != cb[9]);
    }
}

/// The audit-architecture value of each supported architecture.
pub open spec fn audit_architecture(architecture: Architecture) -> u32 {
    match architecture {
        Architecture::X86_64 => AUDIT_ARCH_X86_64,
        Architecture::Aarch64 => AUDIT_ARCH_AARCH64,
    }
}

/// The architecture check and the syscall-number load that start every filter.
pub open spec fn filter_preamble(architecture: Architecture) -> Seq<BpfInstruction> {
    let common = seq![
        BpfInstruction { code: BPF_LOAD_WORD_ABSOLUTE, jump_true: 0, jump_false: 0, value: SECCOMP_DATA_ARCH_OFFSET },
        BpfInstruction { code: BPF_JUMP_EQUAL_CONSTANT, jump_true: 1, jump_false: 0, value: audit_architecture(architecture) },
        BpfInstruction { code: BPF_RETURN_CONSTANT, jump_true: 0, jump_false: 0, value: SECCOMP_RETURN_KILL_PROCESS },
        BpfInstruction { code: BPF_LOAD_WORD_ABSOLUTE, jump_true: 0, jump_false: 0, value: SECCOMP_DATA_NUMBER_OFFSET },
    ];
    if architecture == Architecture::X86_64 {
        common + seq![
            BpfInstruction { code: BPF_JUMP_GREATER_OR_EQUAL_CONSTANT, jump_true: 0, jump_false: 1, value: X32_SYSCALL_BIT },
            BpfInstruction { code: BPF_RETURN_CONSTANT, jump_true: 0, jump_false: 0, value: SECCOMP_RETURN_KILL_PROCESS },
        ]
    } else {
        common
    }
}

/// The two instructions that deny one syscall number.
pub open spec fn deny_pair(syscall: u32) -> Seq<BpfInstruction> {
    seq![
        BpfInstruction { code: BPF_JUMP_EQUAL_CONSTANT, jump_true: 0, jump_false: 1, value: syscall },
        BpfInstruction { code: BPF_RETURN_CONSTANT, jump_true: 0, jump_false: 0, value: SECCOMP_RETURN_ERRNO | ERRNO_PERMISSION },
    ]
}

/// The deny pairs for every syscall number, in order.
pub open spec fn deny_body(denied: Seq<u32>) -> Seq<BpfInstruction>
    decreases denied.len(),
{
    if denied.len() == 0 {
        Seq::empty()
    } else {
        deny_body(denied.drop_last()) + deny_pair(denied.last())
    }
}

/// The complete filter for an architecture and a denied-syscall list.
pub open spec fn filter_program(architecture: Architecture, denied: Seq<u32>) -> Seq<BpfInstruction> {
    filter_preamble(architecture) + deny_body(denied) + seq![
        BpfInstruction { code: BPF_RETURN_CONSTANT, jump_true: 0, jump_false: 0, value: SECCOMP_RETURN_ALLOW },
    ]
}

/// A denied-syscall list is usable when it is nonempty and strictly increasing.
pub open spec fn strictly_increasing(denied: Seq<u32>) -> bool {
    forall|i: int, j: int| 0 <= i < j < denied.len() ==> denied[i] < denied[j]
}

/// The number of instructions in the filter for `denied`.
pub open spec fn filter_length(architecture: Architecture, denied_len: nat) -> nat {
    (if architecture == Architecture::X86_64 { 6nat } else { 4nat }) + 2 * denied_len + 1
}

/// The number of instructions of the filter for `denied_count` syscalls, when it fits
/// in a `usize`.
pub fn filter_instruction_count(architecture: Architecture, denied_count: usize) -> (r: Option<usize>)
    ensures
        filter_length(architecture, denied_count as nat) <= usize::MAX ==> r == Some(
            filter_length(architecture, denied_count as nat) as usize,
        ),
        filter_length(architecture, denied_count as nat) > usize::MAX ==> r is None,
{
    let preamble: usize = if architecture == Architecture::X86_64 { 6 } else { 4 };
    if denied_count > (usize::MAX - preamble - 1) / 2 {
        return None;
    }
    Some(preamble + 2 * denied_count + 1)
}

/// Runs a classic-BPF program over one `seccomp_data` (architecture, syscall number),
/// starting at `pc` with accumulator `acc`; `None` when the program leaves the
/// registered instruction set or runs off its end.
pub open spec fn bpf_run(filter: Seq<BpfInstruction>, arch: u32, nr: u32, pc: nat, acc: u32) -> Option<u32>
    decreases filter.len() - pc,
{
    if pc >= filter.len() {
        None
    } else {
        let ins = filter[pc as int];
        if ins.code == BPF_LOAD_WORD_ABSOLUTE {
            if ins.value == SECCOMP_DATA_NUMBER_OFFSET {
                bpf_run(filter, arch, nr, pc + 1, nr)
            } else if ins.value == SECCOMP_DATA_ARCH_OFFSET {
                bpf_run(filter, arch, nr, pc + 1, arch)
            } else {
                None
            }
        } else if ins.code == BPF_JUMP_EQUAL_CONSTANT {
            let jump = if acc == ins.value { ins.jump_true } else { ins.jump_false };
            let next = pc + jump as nat + 1;
            if next >= filter.len() { None } else { bpf_run(filter, arch, nr, next, acc) }
        } else if ins.code == BPF_JUMP_GREATER_OR_EQUAL_CONSTANT {
            let jump = if acc >= ins.value { ins.jump_true } else { ins.jump_false };
            let next = pc + jump as nat + 1;
            if next >= filter.len() { None } else { bpf_run(filter, arch, nr, next, acc) }
        } else if ins.code == BPF_RETURN_CONSTANT {
            Some(ins.value)
        } else {
            None
        }
    }
}

/// The decision the deny-network profile must make for one syscall.
pub open spec fn intended_action(architecture: Architecture, denied: Seq<u32>, arch: u32, nr: u32) -> u32 {
    if arch != audit_architecture(architecture) {
        SECCOMP_RETURN_KILL_PROCESS
    } else if architecture == Architecture::X86_64 && nr >= X32_SYSCALL_BIT {
        SECCOMP_RETURN_KILL_PROCESS
    } else if denied.contains(nr) {
        SECCOMP_RETURN_ERRNO | ERRNO_PERMISSION
    } else {
        SECCOMP_RETURN_ALLOW
    }
}

proof fn lemma_deny_body_len(denied: Seq<u32>)
    ensures
        deny_body(denied).len() == 2 * denied.len(),
    decreases denied.len(),
{
    if denied.len() > 0 {
        lemma_deny_body_len(denied.drop_last());
    }
}

proof fn lemma_deny_body_index(denied: Seq<u32>, i: int)
    requires
        0 <= i < denied.len(),
    ensures
        deny_body(denied)[2 * i] == (BpfInstruction {
            code: BPF_JUMP_EQUAL_CONSTANT,
            jump_true: 0,
            jump_false: 1,
            value: denied[i],
        }),
        deny_body(denied)[2 * i + 1] == (BpfInstruction {
            code: BPF_RETURN_CONSTANT,
            jump_true: 0,
            jump_false: 0,
            value: SECCOMP_RETURN_ERRNO | ERRNO_PERMISSION,
        }),
    decreases denied.len(),
{
    lemma_deny_body_len(denied);
    let prefix = denied.drop_last();
    lemma_deny_body_len(prefix);
    if i < denied.len() - 1 {
        lemma_deny_body_index(prefix, i);
    }
}

proof fn lemma_run_deny_tail(
    architecture: Architecture,
    denied: Seq<u32>,
    arch: u32,
    nr: u32,
    i: int,
)
    requires
        0 <= i <= denied.len(),
    ensures
        bpf_run(
            filter_program(architecture, denied),
            arch,
            nr,
            (filter_preamble(architecture).len() + 2 * i) as nat,
            nr,
        ) == Some(
            if denied.subrange(i, denied.len() as int).contains(nr) {
                SECCOMP_RETURN_ERRNO | ERRNO_PERMISSION
            } else {
                SECCOMP_RETURN_ALLOW
            },
        ),
    decreases denied.len() - i,
{
    let filter = filter_program(architecture, denied);
    let pre = filter_preamble(architecture);
    let body = deny_body(denied);
    lemma_deny_body_len(denied);
    assert(filter.len() == pre.len() + 2 * denied.len() + 1);
    let pc = (pre.len() + 2 * i) as nat;
    let tail = denied.subrange(i, denied.len() as int);
    if i == denied.len() {
        assert(filter[pc as int] == (BpfInstruction {
            code: BPF_RETURN_CONSTANT,
            jump_true: 0,
            jump_false: 0,
            value: SECCOMP_RETURN_ALLOW,
        }));
        assert(tail.len() == 0);
        assert(!tail.contains(nr));
    } else {
        lemma_deny_body_index(denied, i);
        assert(filter[pc as int] == body[2 * i]);
        assert(filter[pc + 1int] == body[2 * i + 1]);
        lemma_run_deny_tail(architecture, denied, arch, nr, i + 1);
        let rest = denied.subrange(i + 1, denied.len() as int);
        assert(tail =~= seq![denied[i]] + rest);
        assert(tail[0] == denied[i]);
        if nr == denied[i] {
            assert(tail.contains(nr));
            assert(bpf_run(filter, arch, nr, pc + 1, nr) == Some(SECCOMP_RETURN_ERRNO | ERRNO_PERMISSION));
        } else {
            assert(tail.contains(nr) == rest.contains(nr)) by {
                if tail.contains(nr) {
                    let k = choose|k: int| 0 <= k < tail.len() && tail[k] == nr;
                    assert(rest[k - 1] == nr);
                }
                if rest.contains(nr) {
                    let k = choose|k: int| 0 <= k < rest.len() && rest[k] == nr;
                    assert(tail[k + 1] == nr);
                }
            }
            assert(pc + 2 == (pre.len() + 2 * (i + 1)) as nat);
        }
    }
}

/// Law: the compiled filter makes exactly the deny-network decision for every
/// audit architecture and syscall number: a foreign architecture or an x32
/// number is killed, a registered number gets `EPERM`, and every other call is allowed.
pub proof fn lemma_filter_semantics(architecture: Architecture, denied: Seq<u32>, arch: u32, nr: u32)
    ensures
        bpf_run(filter_program(architecture, denied), arch, nr, 0, 0) == Some(
            intended_action(architecture, denied, arch, nr),
        ),
{
    let filter = filter_program(architecture, denied);
    let pre = filter_preamble(architecture);
    lemma_deny_body_len(denied);
    assert(filter.len() == pre.len() + 2 * denied.len() + 1);
    assert(filter[0] == pre[0]);
    assert(filter[1] == pre[1]);
    assert(filter[2] == pre[2]);
    assert(filter[3] == pre[3]);
    lemma_run_deny_tail(architecture, denied, arch, nr, 0);
    assert(denied.subrange(0, denied.len() as int) =~= denied);
    let body_start = pre.len() as nat;
    let verdict = Some(
        if denied.contains(nr) { SECCOMP_RETURN_ERRNO | ERRNO_PERMISSION } else { SECCOMP_RETURN_ALLOW },
    );
    assert(bpf_run(filter, arch, nr, body_start, nr) == verdict);
    if architecture == Architecture::X86_64 {
        assert(filter[4] == pre[4]);
        assert(filter[5] == pre[5]);
        if nr >= X32_SYSCALL_BIT {
            assert(bpf_run(filter, arch, nr, 5, nr) == Some(SECCOMP_RETURN_KILL_PROCESS));
            assert(bpf_run(filter, arch, nr, 4, nr) == Some(SECCOMP_RETURN_KILL_PROCESS));
        } else {
            assert(bpf_run(filter, arch, nr, 4, nr) == verdict);
        }
    }
    assert(bpf_run(filter, arch, nr, 3, arch) == bpf_run(filter, arch, nr, 4, nr));
    if arch == audit_architecture(architecture) {
        assert(bpf_run(filter, arch, nr, 1, arch) == bpf_run(filter, arch, nr, 3, arch));
    } else {
        assert(bpf_run(filter, arch, nr, 2, arch) == Some(SECCOMP_RETURN_KILL_PROCESS));
        assert(bpf_run(filter, arch, nr, 1, arch) == Some(SECCOMP_RETURN_KILL_PROCESS));
    }
    assert(bpf_run(filter, arch, nr, 0, 0) == bpf_run(filter, arch, nr, 1, arch));
}

/// Compiles the deny-network filter for one architecture.
pub fn build_filter(architecture: Architecture, denied_syscalls: &[u32]) -> (r: Result<
    Vec<BpfInstruction>,
    SeccompError,
>)
    ensures
        r is Ok <==> (denied_syscalls@.len() > 0 && strictly_increasing(denied_syscalls@)
            && filter_length(architecture, denied_syscalls@.len()) <= MAX_FILTER_INSTRUCTIONS),
        r matches Ok(filter) ==> filter@ == filter_program(architecture, denied_syscalls@),
        r matches Err(e) ==> e == SeccompError::FilterInvalid,
{
    let n = denied_syscalls.len();
    if n == 0 {
        return Err(SeccompError::FilterInvalid);
    }
    let mut k: usize = 1;
    while k < n
        invariant
            n == denied_syscalls@.len(),
            1 <= k <= n,
            forall|i: int, j: int| 0 <= i < j < k ==> denied_syscalls@[i] < denied_syscalls@[j],
        decreases n - k,
    {
        if denied_syscalls[k - 1] >= denied_syscalls[k] {
            return Err(SeccompError::FilterInvalid);
        }
        k = k + 1;
    }
    let base: usize = if architecture == Architecture::X86_64 { 6 } else { 4 };
    if n > (MAX_FILTER_INSTRUCTIONS - 1 - base) / 2 {
        return Err(SeccompError::FilterInvalid);
    }
    let audit = match architecture {
        Architecture::X86_64 => AUDIT_ARCH_X86_64,
        Architecture::Aarch64 => AUDIT_ARCH_AARCH64,
    };
    let mut filter: Vec<BpfInstruction> = Vec::new();
    filter.push(BpfInstruction::new(BPF_LOAD_WORD_ABSOLUTE, 0, 0, SECCOMP_DATA_ARCH_OFFSET));
    filter.push(BpfInstruction::new(BPF_JUMP_EQUAL_CONSTANT, 1, 0, audit));
    filter.push(BpfInstruction::new(BPF_RETURN_CONSTANT, 0, 0, SECCOMP_RETURN_KILL_PROCESS));
    filter.push(BpfInstruction::new(BPF_LOAD_WORD_ABSOLUTE, 0, 0, SECCOMP_DATA_NUMBER_OFFSET));
    if architecture == Architecture::X86_64 {
        filter.push(BpfInstruction::new(BPF_JUMP_GREATER_OR_EQUAL_CONSTANT, 0, 1, X32_SYSCALL_BIT));
        filter.push(BpfInstruction::new(BPF_RETURN_CONSTANT, 0, 0, SECCOMP_RETURN_KILL_PROCESS));
    }
    assert(filter@ =~= filter_preamble(architecture));
    let mut i: usize = 0;
    while i < n
        invariant
            n == denied_syscalls@.len(),
            i <= n,
            filter@ == filter_preamble(architecture) + deny_body(denied_syscalls@.take(i as int)),
        decreases n - i,
    {
        let syscall = denied_syscalls[i];
        filter.push(BpfInstruction::new(BPF_JUMP_EQUAL_CONSTANT, 0, 1, syscall));
        filter.push(BpfInstruction::new(BPF_RETURN_CONSTANT, 0, 0, SECCOMP_RETURN_ERRNO | ERRNO_PERMISSION));
        proof {
            let next = denied_syscalls@.take(i + 1);
            assert(next.drop_last() =~= denied_syscalls@.take(i as int));
            assert(next.last() == syscall);
            assert(filter@ =~= filter_preamble(architecture) + deny_body(next));
        }
        i = i + 1;
    }
    filter.push(BpfInstruction::new(BPF_RETURN_CONSTANT, 0, 0, SECCOMP_RETURN_ALLOW));
    assert(denied_syscalls@.take(n as int) =~= denied_syscalls@);
    assert(filter@ =~= filter_program(architecture, denied_syscalls@));
    Ok(filter)
}

/// Sorts and deduplicates the registered syscall numbers into the canonical
/// strictly increasing order that `build_filter` requires; fails when a number is
/// negative or does not fit in 32 bits.
pub fn canonical_syscall_numbers(numbers: &[i64]) -> (r: Result<Vec<u32>, SeccompError>)
    ensures
        r is Ok <==> (forall|i: int| 0 <= i < numbers@.len() ==> 0 <= #[trigger] numbers@[i] <= u32::MAX),
        r matches Ok(set) ==> strictly_increasing(set@) && (forall|x: u32|
            set@.contains(x) <==> numbers@.contains(x as i64)),
        r matches Err(e) ==> e == SeccompError::FilterInvalid,
{
    let mut set: Vec<u32> = Vec::new();
    let mut i: usize = 0;
    while i < numbers.len()
        invariant
            i <= numbers@.len(),
            forall|k: int| 0 <= k < i ==> 0 <= #[trigger] numbers@[k] <= u32::MAX,
            strictly_increasing(set@),
            forall|x: u32| set@.contains(x) <==> numbers@.take(i as int).contains(x as i64),
        decreases numbers@.len() - i,
    {
        let number = numbers[i];
        if number < 0 || number > 0xffff_ffff {
            return Err(SeccompError::FilterInvalid);
        }
        let value = number as u32;
        let ghost old_set = set@;
        crate::text::insert_sorted_u32(&mut set, value);
        proof {
            let prefix = numbers@.take(i as int);
            let next = numbers@.take(i + 1);
            assert(next =~= prefix.push(number));
            assert forall|x: u32| set@.contains(x) <==> next.contains(x as i64) by {
                if next.contains(x as i64) {
                    let k = choose|k: int| 0 <= k < next.len() && next[k] == x as i64;
                    if k < prefix.len() {
                        assert(prefix[k] == x as i64);
                    }
                }
                if prefix.contains(x as i64) {
                    let j = choose|j: int| 0 <= j < prefix.len() && prefix[j] == x as i64;
                    assert(next[j] == x as i64);
                }
                if x == value {
                    assert(next[i as int] == x as i64);
                }
            }
        }
        i = i + 1;
    }
    assert(numbers@.take(numbers@.len() as int) =~= numbers@);
    Ok(set)
}

} // verus!
