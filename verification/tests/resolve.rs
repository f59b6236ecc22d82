use proofbound_runtime::model::{ArtifactIdentity, ArtifactRole, FileMode, Sha256Digest};
use proofbound_runtime::probe::Architecture;
use proofbound_runtime::resolve::{identify_contents, require_executable_mode, require_external_role, require_identity, require_role};
use proofbound_runtime::resolve::{
    parse_elf_interpreter, require_canonical_absolute_path, require_confined_relative_path,
    ResolutionError, ELF_HEADER_SIZE, ELF_MACHINE_AARCH64, ELF_MACHINE_X86_64,
    ELF_PROGRAM_HEADER_SIZE, ELF_PROGRAM_INTERPRETER,
};

const ELF_CLASS_64: u8 = 2;
const ELF_DATA_LITTLE_ENDIAN: u8 = 1;

fn elf(machine: u16, interpreter: Option<&[u8]>) -> Vec<u8> {
    let count = u16::from(interpreter.is_some());
    let mut image = vec![0_u8; ELF_HEADER_SIZE + usize::from(count) * ELF_PROGRAM_HEADER_SIZE];
    image[..4].copy_from_slice(b"\x7fELF");
    image[4] = ELF_CLASS_64;
    image[5] = ELF_DATA_LITTLE_ENDIAN;
    image[6] = 1;
    image[18..20].copy_from_slice(&machine.to_le_bytes());
    image[32..40].copy_from_slice(&(ELF_HEADER_SIZE as u64).to_le_bytes());
    image[52..54].copy_from_slice(&(ELF_HEADER_SIZE as u16).to_le_bytes());
    image[54..56].copy_from_slice(&(ELF_PROGRAM_HEADER_SIZE as u16).to_le_bytes());
    image[56..58].copy_from_slice(&count.to_le_bytes());
    if let Some(interpreter) = interpreter {
        let offset = image.len() as u64;
        image[ELF_HEADER_SIZE..ELF_HEADER_SIZE + 4].copy_from_slice(&ELF_PROGRAM_INTERPRETER.to_le_bytes());
        image[ELF_HEADER_SIZE + 8..ELF_HEADER_SIZE + 16].copy_from_slice(&offset.to_le_bytes());
        image[ELF_HEADER_SIZE + 32..ELF_HEADER_SIZE + 40].copy_from_slice(&(interpreter.len() as u64).to_le_bytes());
        image.extend_from_slice(interpreter);
    }
    image
}

#[test]
fn parses_static_and_dynamic_elf_images() {
    let static_image = elf(ELF_MACHINE_X86_64, None);
    assert_eq!(parse_elf_interpreter(&static_image, Architecture::X86_64), Ok(None));

    let dynamic = elf(ELF_MACHINE_X86_64, Some(b"/lib64/ld-linux.so.2\0"));
    assert_eq!(
        parse_elf_interpreter(&dynamic, Architecture::X86_64),
        Ok(Some("/lib64/ld-linux.so.2".to_owned()))
    );
}

#[test]
fn rejects_wrong_architecture_and_malformed_interpreters() {
    let image = elf(ELF_MACHINE_AARCH64, None);
    assert_eq!(
        parse_elf_interpreter(&image, Architecture::X86_64),
        Err(ResolutionError::ElfArchitectureMismatch)
    );

    for interpreter in [
        b"relative-loader\0".as_slice(),
        b"/lib/../loader\0".as_slice(),
        b"/loader".as_slice(),
        b"/bad\0tail\0".as_slice(),
    ] {
        let image = elf(ELF_MACHINE_X86_64, Some(interpreter));
        assert_eq!(
            parse_elf_interpreter(&image, Architecture::X86_64),
            Err(ResolutionError::ElfInterpreterInvalid)
        );
    }
}

#[test]
fn rejects_duplicate_interpreter_segments() {
    let mut image = elf(ELF_MACHINE_X86_64, Some(b"/loader\0"));
    image[56..58].copy_from_slice(&2_u16.to_le_bytes());
    let first_end = ELF_HEADER_SIZE + ELF_PROGRAM_HEADER_SIZE;
    image.splice(first_end..first_end, vec![0_u8; ELF_PROGRAM_HEADER_SIZE]);
    image[first_end..first_end + 4].copy_from_slice(&ELF_PROGRAM_INTERPRETER.to_le_bytes());
    image[first_end + 8..first_end + 16].copy_from_slice(&128_u64.to_le_bytes());
    image[first_end + 32..first_end + 40].copy_from_slice(&8_u64.to_le_bytes());
    assert_eq!(
        parse_elf_interpreter(&image, Architecture::X86_64),
        Err(ResolutionError::ElfInterpreterInvalid)
    );
}

#[test]
fn resolve_error_codes_are_unique_and_stable() {
    let errors = [
        ResolutionError::UnsupportedOperatingSystem,
        ResolutionError::RootUnavailable,
        ResolutionError::PathEscapesRoot,
        ResolutionError::ExternalPathInvalid,
        ResolutionError::ExternalRoleInvalid,
        ResolutionError::Openat2Unavailable,
        ResolutionError::PathUnavailable,
        ResolutionError::SymlinkInvalid,
        ResolutionError::ForbiddenFileKind,
        ResolutionError::ExecutableModeMissing,
        ResolutionError::ArtifactRoleMismatch,
        ResolutionError::IdentityMismatch,
        ResolutionError::IdentityDrift,
        ResolutionError::IdentityUnavailable,
        ResolutionError::ElfMalformed,
        ResolutionError::ElfArchitectureMismatch,
        ResolutionError::ElfInterpreterInvalid,
        ResolutionError::LoaderIdentityMissing,
        ResolutionError::LoaderIdentityUnexpected,
    ];
    let mut codes = errors.map(ResolutionError::code);
    codes.sort_unstable();
    assert!(codes.windows(2).all(|pair| pair[0] != pair[1]));
}

#[test]
fn truncated_and_foreign_images_are_malformed() {
    assert_eq!(parse_elf_interpreter(&[0x7f, b'E'], Architecture::X86_64), Err(ResolutionError::ElfMalformed));
    let mut big_endian = elf(ELF_MACHINE_X86_64, None);
    big_endian[5] = 2;
    assert_eq!(
        parse_elf_interpreter(&big_endian, Architecture::X86_64),
        Err(ResolutionError::ElfMalformed)
    );
    let arm = elf(ELF_MACHINE_AARCH64, Some(b"/lib/ld-linux-aarch64.so.1\0"));
    assert_eq!(
        parse_elf_interpreter(&arm, Architecture::Aarch64),
        Ok(Some("/lib/ld-linux-aarch64.so.1".to_owned()))
    );
}

#[test]
fn rooted_and_external_paths_are_confined() {
    assert_eq!(require_confined_relative_path("bin/tool"), Ok(()));
    assert_eq!(require_confined_relative_path("../etc/passwd"), Err(ResolutionError::PathEscapesRoot));
    assert_eq!(require_confined_relative_path("/etc/passwd"), Err(ResolutionError::PathEscapesRoot));
    assert_eq!(require_canonical_absolute_path("/usr/bin/env"), Ok(()));
    assert_eq!(
        require_canonical_absolute_path("usr/bin/env"),
        Err(ResolutionError::ExternalPathInvalid)
    );
    assert_eq!(
        require_canonical_absolute_path("/usr/../bin/env"),
        Err(ResolutionError::ExternalPathInvalid)
    );
}

#[test]
fn external_roles_identities_and_modes_are_checked_exactly() {
    assert_eq!(require_external_role(ArtifactRole::RuntimeLibrary), Ok(()));
    assert_eq!(require_external_role(ArtifactRole::RuntimeLoaderExecutable), Ok(()));
    assert_eq!(
        require_external_role(ArtifactRole::ProjectInput),
        Err(ResolutionError::ExternalRoleInvalid)
    );
    let identity = ArtifactIdentity::new(
        ArtifactRole::RuntimeExecutable,
        Sha256Digest::from_bytes([7; 32]),
        12,
        FileMode::new(0o755).expect("valid mode"),
    );
    assert_eq!(require_role(&identity, ArtifactRole::RuntimeExecutable), Ok(()));
    assert_eq!(
        require_role(&identity, ArtifactRole::RuntimeLibrary),
        Err(ResolutionError::ArtifactRoleMismatch)
    );
    let other = ArtifactIdentity::new(
        ArtifactRole::RuntimeExecutable,
        Sha256Digest::from_bytes([8; 32]),
        12,
        FileMode::new(0o755).expect("valid mode"),
    );
    assert_eq!(require_identity(&identity, &identity), Ok(()));
    assert_eq!(require_identity(&identity, &other), Err(ResolutionError::IdentityMismatch));
    assert_eq!(require_executable_mode(FileMode::new(0o644).expect("valid mode")), Err(ResolutionError::ExecutableModeMissing));
    assert_eq!(require_executable_mode(FileMode::new(0o100).expect("valid mode")), Ok(()));
}

#[test]
fn contents_are_measured_by_digest_length_and_mode() {
    let identity = identify_contents(ArtifactRole::RuntimeExecutable, b"abc", 0o100755);
    assert_eq!(
        identity.digest().as_bytes(),
        &[
            0xba, 0x78, 0x16, 0xbf, 0x8f, 0x01, 0xcf, 0xea, 0x41, 0x41, 0x40, 0xde, 0x5d, 0xae, 0x22, 0x23,
            0xb0, 0x03, 0x61, 0xa3, 0x96, 0x17, 0x7a, 0x9c, 0xb4, 0x10, 0xff, 0x61, 0xf2, 0x00, 0x15, 0xad,
        ]
    );
    assert_eq!(identity.size(), 3);
    assert_eq!(identity.mode().get(), 0o755);
    assert_eq!(identity.role(), ArtifactRole::RuntimeExecutable);
}
