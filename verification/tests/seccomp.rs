use proofbound_runtime::probe::Architecture;
use proofbound_runtime::seccomp::{
    build_filter, canonical_syscall_numbers, BpfInstruction, SeccompError, AUDIT_ARCH_AARCH64,
    AUDIT_ARCH_X86_64, BPF_JUMP_EQUAL_CONSTANT, BPF_JUMP_GREATER_OR_EQUAL_CONSTANT,
    BPF_LOAD_WORD_ABSOLUTE, BPF_RETURN_CONSTANT, SECCOMP_DATA_ARCH_OFFSET,
    SECCOMP_DATA_NUMBER_OFFSET, SECCOMP_RETURN_ALLOW, SECCOMP_RETURN_ERRNO,
    SECCOMP_RETURN_KILL_PROCESS, X32_SYSCALL_BIT,
};

fn evaluate(filter: &[BpfInstruction], architecture: u32, syscall: u32) -> u32 {
    let mut accumulator = 0;
    let mut program_counter = 0;
    loop {
        let instruction = filter[program_counter];
        match instruction.code {
            BPF_LOAD_WORD_ABSOLUTE => {
                accumulator = match instruction.value {
                    SECCOMP_DATA_NUMBER_OFFSET => syscall,
                    SECCOMP_DATA_ARCH_OFFSET => architecture,
                    _ => panic!("unexpected absolute load offset"),
                };
                program_counter += 1;
            },
            BPF_JUMP_EQUAL_CONSTANT => {
                let jump = if accumulator == instruction.value {
                    instruction.jump_true
                } else {
                    instruction.jump_false
                };
                program_counter += usize::from(jump) + 1;
            },
            BPF_JUMP_GREATER_OR_EQUAL_CONSTANT => {
                let jump = if accumulator >= instruction.value {
                    instruction.jump_true
                } else {
                    instruction.jump_false
                };
                program_counter += usize::from(jump) + 1;
            },
            BPF_RETURN_CONSTANT => return instruction.value,
            _ => panic!("unexpected BPF instruction"),
        }
    }
}

#[test]
fn filter_denies_each_registered_syscall_and_allows_others() {
    let denied = [41, 42, 43];
    for (architecture, audit) in [
        (Architecture::X86_64, AUDIT_ARCH_X86_64),
        (Architecture::Aarch64, AUDIT_ARCH_AARCH64),
    ] {
        let filter = build_filter(architecture, &denied).expect("valid filter");
        for syscall in denied {
            assert_eq!(evaluate(&filter, audit, syscall), SECCOMP_RETURN_ERRNO | 1);
        }
        assert_eq!(evaluate(&filter, audit, 1), SECCOMP_RETURN_ALLOW);
        assert_eq!(evaluate(&filter, 0, 1), SECCOMP_RETURN_KILL_PROCESS);
    }
}

#[test]
fn x86_filter_kills_x32_syscall_numbers() {
    let filter = build_filter(Architecture::X86_64, &[41]).expect("valid filter");
    assert_eq!(
        evaluate(&filter, AUDIT_ARCH_X86_64, X32_SYSCALL_BIT | 41),
        SECCOMP_RETURN_KILL_PROCESS
    );
}

#[test]
fn filter_rejects_empty_duplicate_and_unsorted_denial_sets() {
    assert_eq!(build_filter(Architecture::X86_64, &[]), Err(SeccompError::FilterInvalid));
    assert_eq!(build_filter(Architecture::X86_64, &[1, 1]), Err(SeccompError::FilterInvalid));
    assert_eq!(build_filter(Architecture::X86_64, &[2, 1]), Err(SeccompError::FilterInvalid));
}

#[test]
fn seccomp_error_codes_are_unique_and_stable() {
    let errors = [
        SeccompError::UnsupportedOperatingSystem,
        SeccompError::FilterInvalid,
        SeccompError::InstallationFailed,
        SeccompError::VerificationFailed,
    ];
    let mut codes = errors.map(SeccompError::code);
    codes.sort_unstable();
    assert!(codes.windows(2).all(|pair| pair[0] != pair[1]));
}

#[test]
fn filter_layout_is_exact_for_each_architecture() {
    let x86 = build_filter(Architecture::X86_64, &[41, 42]).expect("valid filter");
    assert_eq!(x86.len(), 6 + 4 + 1);
    assert_eq!(x86[1], BpfInstruction::new(BPF_JUMP_EQUAL_CONSTANT, 1, 0, AUDIT_ARCH_X86_64));
    assert_eq!(x86[10], BpfInstruction::new(BPF_RETURN_CONSTANT, 0, 0, SECCOMP_RETURN_ALLOW));
    let arm = build_filter(Architecture::Aarch64, &[41, 42]).expect("valid filter");
    assert_eq!(arm.len(), 4 + 4 + 1);
    assert_eq!(evaluate(&arm, AUDIT_ARCH_AARCH64, X32_SYSCALL_BIT | 41), SECCOMP_RETURN_ALLOW);
    assert_eq!(evaluate(&arm, AUDIT_ARCH_X86_64, 41), SECCOMP_RETURN_KILL_PROCESS);
}

#[test]
fn syscall_numbers_are_sorted_deduplicated_and_range_checked() {
    assert_eq!(canonical_syscall_numbers(&[43, 41, 43, 42]), Ok(vec![41, 42, 43]));
    assert_eq!(canonical_syscall_numbers(&[]), Ok(vec![]));
    assert_eq!(canonical_syscall_numbers(&[-1]), Err(SeccompError::FilterInvalid));
    assert_eq!(
        canonical_syscall_numbers(&[1, 0x1_0000_0000]),
        Err(SeccompError::FilterInvalid)
    );
}
