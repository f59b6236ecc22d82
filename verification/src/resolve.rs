//! Resolution of registered artifacts: the path forms an artifact may be named by,
//! and the `PT_INTERP` loader path of an ELF image.
use vstd::prelude::*;

use crate::model::{ArtifactIdentity, ArtifactRole, FileMode};
use crate::probe::Architecture;
use crate::text::{copy_range, utf8_string, string_bytes};
use crate::trace::le_u64;

verus! {

/// The size of a 64-bit ELF header.
pub const ELF_HEADER_SIZE: usize = 64;

/// The size of one 64-bit ELF program header.
pub const ELF_PROGRAM_HEADER_SIZE: usize = 56;

/// The largest accepted interpreter segment, in bytes.
pub const ELF_INTERPRETER_MAX: u64 = 4096;

/// The `e_machine` value of x86-64.
pub const ELF_MACHINE_X86_64: u16 = 62;

/// The `e_machine` value of 64-bit Arm.
pub const ELF_MACHINE_AARCH64: u16 = 183;

/// The program-header type of an interpreter segment.
pub const ELF_PROGRAM_INTERPRETER: u32 = 3;

/// Identifies one fail-closed resolution result.
#[derive(Clone, Copy, Debug, PartialEq, Eq, Structural)]
pub enum ResolutionError {
    /// The host operating system is not Linux.
    UnsupportedOperatingSystem,
    /// The registered plan root could not be opened as a non-symlink directory.
    RootUnavailable,
    /// A rooted path was absolute or contained a parent component.
    PathEscapesRoot,
    /// An external path was not absolute and lexically normalized.
    ExternalPathInvalid,
    /// The supplied role does not authorize external resolution.
    ExternalRoleInvalid,
    /// The kernel cannot provide the required `openat2` resolution guarantee.
    Openat2Unavailable,
    /// The requested path could not be opened.
    PathUnavailable,
    /// Resolution encountered a symlink loop or forbidden magic link.
    SymlinkInvalid,
    /// The resolved object was not a regular file.
    ForbiddenFileKind,
    /// The resolved executable did not have an execute permission bit.
    ExecutableModeMissing,
    /// A registered identity had the wrong artifact role.
    ArtifactRoleMismatch,
    /// The observed descriptor identity did not match the registered identity.
    IdentityMismatch,
    /// A retained descriptor changed identity before use.
    IdentityDrift,
    /// File identity could not be measured consistently.
    IdentityUnavailable,
    /// The executable was not a valid 64-bit little-endian ELF image.
    ElfMalformed,
    /// The ELF machine did not match the selected platform architecture.
    ElfArchitectureMismatch,
    /// The ELF interpreter segment was malformed or noncanonical.
    ElfInterpreterInvalid,
    /// A dynamic executable had no registered loader identity.
    LoaderIdentityMissing,
    /// A static executable had an unexpected loader identity.
    LoaderIdentityUnexpected,
}

/// The stable machine-readable code of each resolution error.
pub open spec fn resolution_error_code(e: ResolutionError) -> Seq<char> {
    match e {
        ResolutionError::UnsupportedOperatingSystem => "resolve.os.unsupported"@,
        ResolutionError::RootUnavailable => "resolve.root.unavailable"@,
        ResolutionError::PathEscapesRoot => "resolve.path.escapes-root"@,
        ResolutionError::ExternalPathInvalid => "resolve.path.external-invalid"@,
        ResolutionError::ExternalRoleInvalid => "resolve.role.external-invalid"@,
        ResolutionError::Openat2Unavailable => "resolve.openat2.unavailable"@,
        ResolutionError::PathUnavailable => "resolve.path.unavailable"@,
        ResolutionError::SymlinkInvalid => "resolve.path.symlink-invalid"@,
        ResolutionError::ForbiddenFileKind => "resolve.file-kind.forbidden"@,
        ResolutionError::ExecutableModeMissing => "resolve.executable.mode-missing"@,
        ResolutionError::ArtifactRoleMismatch => "resolve.identity.role-mismatch"@,
        ResolutionError::IdentityMismatch => "resolve.identity.mismatch"@,
        ResolutionError::IdentityDrift => "resolve.identity.drift"@,
        ResolutionError::IdentityUnavailable => "resolve.identity.unavailable"@,
        ResolutionError::ElfMalformed => "resolve.elf.malformed"@,
        ResolutionError::ElfArchitectureMismatch => "resolve.elf.architecture-mismatch"@,
        ResolutionError::ElfInterpreterInvalid => "resolve.elf.interpreter-invalid"@,
        ResolutionError::LoaderIdentityMissing => "resolve.loader.identity-missing"@,
        ResolutionError::LoaderIdentityUnexpected => "resolve.loader.identity-unexpected"@,
    }
}

impl ResolutionError {
    /// Returns the stable machine-readable error code.
    pub fn code(self) -> (r: &'static str)
        ensures
            r@ == resolution_error_code(self),
    {
        match self {
            ResolutionError::UnsupportedOperatingSystem => "resolve.os.unsupported",
            ResolutionError::RootUnavailable => "resolve.root.unavailable",
            ResolutionError::PathEscapesRoot => "resolve.path.escapes-root",
            ResolutionError::ExternalPathInvalid => "resolve.path.external-invalid",
            ResolutionError::ExternalRoleInvalid => "resolve.role.external-invalid",
            ResolutionError::Openat2Unavailable => "resolve.openat2.unavailable",
            ResolutionError::PathUnavailable => "resolve.path.unavailable",
            ResolutionError::SymlinkInvalid => "resolve.path.symlink-invalid",
            ResolutionError::ForbiddenFileKind => "resolve.file-kind.forbidden",
            ResolutionError::ExecutableModeMissing => "resolve.executable.mode-missing",
            ResolutionError::ArtifactRoleMismatch => "resolve.identity.role-mismatch",
            ResolutionError::IdentityMismatch => "resolve.identity.mismatch",
            ResolutionError::IdentityDrift => "resolve.identity.drift",
            ResolutionError::IdentityUnavailable => "resolve.identity.unavailable",
            ResolutionError::ElfMalformed => "resolve.elf.malformed",
            ResolutionError::ElfArchitectureMismatch => "resolve.elf.architecture-mismatch",
            ResolutionError::ElfInterpreterInvalid => "resolve.elf.interpreter-invalid",
            ResolutionError::LoaderIdentityMissing => "resolve.loader.identity-missing",
            ResolutionError::LoaderIdentityUnexpected => "resolve.loader.identity-unexpected",
        }
    }
}

/// Distinct resolution errors have distinct codes.
pub proof fn lemma_resolution_codes_distinct(a: ResolutionError, b: ResolutionError)
    requires
        a != b,
    ensures
        resolution_error_code(a) != resolution_error_code(b),
{
    reveal_strlit("resolve.os.unsupported");
    reveal_strlit("resolve.root.unavailable");
    reveal_strlit("resolve.path.escapes-root");
    reveal_strlit("resolve.path.external-invalid");
    reveal_strlit("resolve.role.external-invalid");
    reveal_strlit("resolve.openat2.unavailable");
    reveal_strlit("resolve.path.unavailable");
    reveal_strlit("resolve.path.symlink-invalid");
    reveal_strlit("resolve.file-kind.forbidden");
    reveal_strlit("resolve.executable.mode-missing");
    reveal_strlit("resolve.identity.role-mismatch");
    reveal_strlit("resolve.identity.mismatch");
    reveal_strlit("resolve.identity.drift");
    reveal_strlit("resolve.identity.unavailable");
    reveal_strlit("resolve.elf.malformed");
    reveal_strlit("resolve.elf.architecture-mismatch");
    reveal_strlit("resolve.elf.interpreter-invalid");
    reveal_strlit("resolve.loader.identity-missing");
    reveal_strlit("resolve.loader.identity-unexpected");
    let ca = resolution_error_code(a);
    let cb = resolution_error_code(b);
    if ca.len() == cb.len() {
        assert(ca[9] != cb[9]);
    }
}


/// `p` holds a `..` segment: two dots between slashes or the ends of the text.
pub open spec fn has_parent_segment(p: Seq<u8>) -> bool {
    exists|i: int|
        0 <= i && i + 2 <= p.len() && #[trigger] p[i] == 0x2e && p[i + 1] == 0x2e && (i == 0 || p[i - 1] == 0x2f)
            && (i + 2 == p.len() || p[i + 2] == 0x2f)
}

/// An absolute path without a `..` component: what `Path` accepts as absolute and
/// lexically free of parent steps (an absolute path has no `.` component).
pub open spec fn absolute_without_parent(p: Seq<u8>) -> bool {
    p.len() > 0 && p[0] == 0x2f && !has_parent_segment(p)
}

/// A relative path that cannot leave its root: not absolute and without a `..` component.
pub open spec fn confined_relative(p: Seq<u8>) -> bool {
    !(p.len() > 0 && p[0] == 0x2f) && !has_parent_segment(p)
}

fn find_parent_segment(p: &[u8]) -> (r: bool)
    ensures
        r == has_parent_segment(p@),
{
    let mut i: usize = 0;
    while i < p.len()
        invariant
            i <= p@.len(),
            forall|k: int|
                0 <= k < i ==> !(k + 2 <= p@.len() && #[trigger] p@[k] == 0x2e && p@[k + 1] == 0x2e && (k == 0 || p@[k
                    - 1] == 0x2f) && (k + 2 == p@.len() || p@[k + 2] == 0x2f)),
        decreases p@.len() - i,
    {
        if p.len() - i >= 2 && p[i] == 0x2e && p[i + 1] == 0x2e && (i == 0 || p[i - 1] == 0x2f) && (p.len() - i == 2
            || p[i + 2] == 0x2f) {
            return true;
        }
        i = i + 1;
    }
    false
}

/// Checks that an external path is absolute and free of `..` steps; anything else is
/// `ExternalPathInvalid`.
pub fn require_canonical_absolute_path(path: &str) -> (r: Result<(), ResolutionError>)
    ensures
        r is Ok <==> absolute_without_parent(vstd::string::StringSliceAdditionalSpecFns::spec_bytes(path)),
        r matches Err(e) ==> e == ResolutionError::ExternalPathInvalid,
{
    let p = path.as_bytes();
    if p.len() == 0 || p[0] != 0x2f || find_parent_segment(p) {
        Err(ResolutionError::ExternalPathInvalid)
    } else {
        Ok(())
    }
}

/// Checks that a rooted path is relative and free of `..` steps; anything else is
/// `PathEscapesRoot`.
pub fn require_confined_relative_path(path: &str) -> (r: Result<(), ResolutionError>)
    ensures
        r is Ok <==> confined_relative(vstd::string::StringSliceAdditionalSpecFns::spec_bytes(path)),
        r matches Err(e) ==> e == ResolutionError::PathEscapesRoot,
{
    let p = path.as_bytes();
    if (p.len() > 0 && p[0] == 0x2f) || find_parent_segment(p) {
        Err(ResolutionError::PathEscapesRoot)
    } else {
        Ok(())
    }
}

/// The little-endian value of the `n` bytes at `off`.
pub open spec fn le_at(b: Seq<u8>, off: int, n: int) -> int {
    le_u64(b.subrange(off, off + n))
}

/// The `e_machine` value an architecture's images carry.
pub open spec fn elf_machine(a: Architecture) -> int {
    match a {
        Architecture::X86_64 => ELF_MACHINE_X86_64 as int,
        Architecture::Aarch64 => ELF_MACHINE_AARCH64 as int,
    }
}

/// The program-header table an ELF header describes: its offset, entry size and
/// entry count. The header must be a 64-bit little-endian version 1 ELF header of
/// 64 bytes for `a`'s machine, with entries at least 56 bytes long.
pub open spec fn elf_layout(h: Seq<u8>, a: Architecture) -> Result<(u64, u16, u16), ResolutionError> {
    if h.len() != 64 || h[0] != 0x7f || h[1] != 0x45 || h[2] != 0x4c || h[3] != 0x46 || h[4] != 2 || h[5] != 1
        || h[6] != 1 || le_at(h, 52, 2) != 64 {
        Err(ResolutionError::ElfMalformed)
    } else if le_at(h, 18, 2) != elf_machine(a) {
        Err(ResolutionError::ElfArchitectureMismatch)
    } else if le_at(h, 54, 2) < 56 {
        Err(ResolutionError::ElfMalformed)
    } else {
        Ok((le_at(h, 32, 8) as u64, le_at(h, 54, 2) as u16, le_at(h, 56, 2) as u16))
    }
}

/// The interpreter segment among the program headers of `table` from entry `i` on,
/// given the one `found` before: a second interpreter, or one whose size is outside
/// two to 4096 bytes, is `ElfInterpreterInvalid`; an entry beyond the table is `ElfMalformed`.
pub open spec fn segment_scan(table: Seq<u8>, size: int, count: int, i: int, found: Option<(u64, u64)>) -> Result<
    Option<(u64, u64)>,
    ResolutionError,
>
    decreases count - i,
{
    if i < 0 || i >= count {
        Ok(found)
    } else if i * size + 56 > table.len() {
        Err(ResolutionError::ElfMalformed)
    } else if le_at(table, i * size, 4) == ELF_PROGRAM_INTERPRETER {
        if found is Some {
            Err(ResolutionError::ElfInterpreterInvalid)
        } else if le_at(table, i * size + 32, 8) < 2 || le_at(table, i * size + 32, 8) > ELF_INTERPRETER_MAX {
            Err(ResolutionError::ElfInterpreterInvalid)
        } else {
            segment_scan(
                table,
                size,
                count,
                i + 1,
                Some((le_at(table, i * size + 8, 8) as u64, le_at(table, i * size + 32, 8) as u64)),
            )
        }
    } else {
        segment_scan(table, size, count, i + 1, found)
    }
}

/// The loader path an interpreter segment holds: NUL-terminated, nonempty, without
/// another NUL, and absolute without `..` steps.
pub open spec fn interpreter_path(b: Seq<u8>) -> Option<Seq<u8>> {
    if b.len() == 0 || b.last() != 0 {
        None
    } else {
        let p = b.drop_last();
        if p.len() == 0 || p.contains(0u8) || !absolute_without_parent(p) {
            None
        } else {
            Some(p)
        }
    }
}

/// The interpreter an ELF image for `a` names: `None` for a static image, the loader
/// path for a dynamic one.
pub open spec fn elf_interpreter(image: Seq<u8>, a: Architecture) -> Result<Option<Seq<u8>>, ResolutionError> {
    if image.len() < 64 {
        Err(ResolutionError::ElfMalformed)
    } else {
        match elf_layout(image.subrange(0, 64), a) {
            Err(e) => Err(e),
            Ok((offset, size, count)) => {
                let end = offset + size * count;
                if offset > usize::MAX || end > usize::MAX || end > image.len() {
                    Err(ResolutionError::ElfMalformed)
                } else {
                    match segment_scan(image.subrange(offset as int, end), size as int, count as int, 0, None) {
                        Err(e) => Err(e),
                        Ok(None) => Ok(None),
                        Ok(Some((start, length))) => {
                            if start > usize::MAX || start + length > usize::MAX || start + length > image.len() {
                                Err(ResolutionError::ElfInterpreterInvalid)
                            } else {
                                match interpreter_path(image.subrange(start as int, start + length)) {
                                    Some(p) => Ok(Some(p)),
                                    None => Err(ResolutionError::ElfInterpreterInvalid),
                                }
                            }
                        },
                    }
                }
            },
        }
    }
}

fn le_read(b: &[u8], off: usize, n: usize) -> (r: u64)
    requires
        n <= 8,
        off + n <= b@.len(),
    ensures
        r == le_at(b@, off as int, n as int),
{
    let mut value: u64 = 0;
    let mut k: usize = n;
    while k > 0
        invariant
            k <= n <= 8,
            off + n <= b@.len(),
            b@.len() == b.len(),
            value == le_u64(b@.subrange(off + k, off + n)),
            value < crate::trace::pow256((n - k) as nat),
        decreases k,
    {
        let byte = b[off + k - 1];
        proof {
            assert(b@.subrange(off + k - 1, off + n as int).subrange(1, n - k + 1) =~= b@.subrange(off + k, off + n));
            assert(crate::trace::pow256((n - k + 1) as nat) == 256 * crate::trace::pow256((n - k) as nat));
            assert(value * 256 + byte < crate::trace::pow256((n - k + 1) as nat)) by (nonlinear_arith)
                requires
                    value < crate::trace::pow256((n - k) as nat),
                    byte < 256,
                    crate::trace::pow256((n - k + 1) as nat) == 256 * crate::trace::pow256((n - k) as nat),
            ;
            assert(crate::trace::pow256(8) == 0x1_0000_0000_0000_0000) by {
                reveal_with_fuel(crate::trace::pow256, 9);
            }
            lemma_pow256_le((n - k + 1) as nat, 8);
        }
        value = value * 256 + byte as u64;
        k = k - 1;
    }
    value
}

proof fn lemma_pow256_le(a: nat, b: nat)
    requires
        a <= b,
    ensures
        crate::trace::pow256(a) <= crate::trace::pow256(b),
    decreases b,
{
    if a < b {
        lemma_pow256_le(a, (b - 1) as nat);
    }
}

proof fn lemma_le_bound(b: Seq<u8>, n: nat)
    requires
        b.len() == n,
    ensures
        le_u64(b) < crate::trace::pow256(n),
    decreases n,
{
    if n > 0 {
        lemma_le_bound(b.subrange(1, b.len() as int), (n - 1) as nat);
    }
}

fn elf_layout_of(image: &[u8], architecture: Architecture) -> (r: Result<(u64, u16, u16), ResolutionError>)
    requires
        image@.len() >= 64,
    ensures
        r == elf_layout(image@.subrange(0, 64), architecture),
{
    let ghost h = image@.subrange(0, 64);
    proof {
        assert forall|off: int, n: int| 0 <= off && 0 <= n && off + n <= 64 implies #[trigger] le_at(h, off, n) == le_at(image@, off, n) by {
            assert(h.subrange(off, off + n) =~= image@.subrange(off, off + n));
        }
        lemma_le_bound(image@.subrange(54, 56), 2);
        lemma_le_bound(image@.subrange(56, 58), 2);
        lemma_le_bound(image@.subrange(32, 40), 8);
        assert(crate::trace::pow256(2) == 0x1_0000) by {
            reveal_with_fuel(crate::trace::pow256, 3);
        }
        assert(crate::trace::pow256(8) == 0x1_0000_0000_0000_0000) by {
            reveal_with_fuel(crate::trace::pow256, 9);
        }
    }
    if image[0] != 0x7f || image[1] != 0x45 || image[2] != 0x4c || image[3] != 0x46 || image[4] != 2 || image[5] != 1
        || image[6] != 1 || le_read(image, 52, 2) != 64 {
        return Err(ResolutionError::ElfMalformed);
    }
    let expected: u64 = match architecture {
        Architecture::X86_64 => ELF_MACHINE_X86_64 as u64,
        Architecture::Aarch64 => ELF_MACHINE_AARCH64 as u64,
    };
    if le_read(image, 18, 2) != expected {
        return Err(ResolutionError::ElfArchitectureMismatch);
    }
    let entry_size = le_read(image, 54, 2);
    if entry_size < 56 {
        return Err(ResolutionError::ElfMalformed);
    }
    Ok((le_read(image, 32, 8), entry_size as u16, le_read(image, 56, 2) as u16))
}

fn interpreter_segment(table: &[u8], entry_size: u16, entry_count: u16) -> (r: Result<Option<(u64, u64)>, ResolutionError>)
    ensures
        r == segment_scan(table@, entry_size as int, entry_count as int, 0, None),
{
    let size = entry_size as usize;
    let mut found: Option<(u64, u64)> = None;
    let mut index: usize = 0;
    while index < entry_count as usize
        invariant
            index <= entry_count,
            size == entry_size,
            segment_scan(table@, entry_size as int, entry_count as int, 0, None) == segment_scan(
                table@,
                entry_size as int,
                entry_count as int,
                index as int,
                found,
            ),
        decreases entry_count - index,
    {
        assert(index * size <= 0xffff * 0xffff) by (nonlinear_arith)
            requires
                index <= 0xffff,
                size <= 0xffff,
        ;
        let start = index * size;
        if start > table.len() || table.len() - start < 56 {
            return Err(ResolutionError::ElfMalformed);
        }
        if le_read(table, start, 4) == ELF_PROGRAM_INTERPRETER as u64 {
            if found.is_some() {
                return Err(ResolutionError::ElfInterpreterInvalid);
            }
            let offset = le_read(table, start + 8, 8);
            let length = le_read(table, start + 32, 8);
            if length < 2 || length > ELF_INTERPRETER_MAX {
                return Err(ResolutionError::ElfInterpreterInvalid);
            }
            found = Some((offset, length));
        }
        index = index + 1;
    }
    Ok(found)
}

fn contains_nul(bytes: &[u8]) -> (r: bool)
    ensures
        r == bytes@.contains(0u8),
{
    let mut k: usize = 0;
    while k < bytes.len()
        invariant
            k <= bytes@.len(),
            forall|j: int| 0 <= j < k ==> bytes@[j] != 0,
        decreases bytes@.len() - k,
    {
        if bytes[k] == 0 {
            assert(bytes@[k as int] == 0);
            return true;
        }
        k = k + 1;
    }
    false
}

fn parse_interpreter_bytes(bytes: &[u8]) -> (r: Result<String, ResolutionError>)
    ensures
        r is Ok <==> (interpreter_path(bytes@) matches Some(p) && vstd::utf8::valid_utf8(p)),
        r matches Ok(s) ==> interpreter_path(bytes@) == Some(string_bytes(s)),
        r matches Err(e) ==> e == ResolutionError::ElfInterpreterInvalid,
{
    if bytes.len() == 0 || bytes[bytes.len() - 1] != 0 {
        return Err(ResolutionError::ElfInterpreterInvalid);
    }
    let path = copy_range(bytes, 0, bytes.len() - 1);
    assert(path@ =~= bytes@.drop_last());
    if path.len() == 0 || contains_nul(path.as_slice()) || path[0] != 0x2f || find_parent_segment(path.as_slice()) {
        return Err(ResolutionError::ElfInterpreterInvalid);
    }
    let ghost p = path@;
    match utf8_string(path) {
        Some(s) => Ok(s),
        None => Err(ResolutionError::ElfInterpreterInvalid),
    }
}

/// The interpreter an ELF image names, as a path that is UTF-8 text.
pub open spec fn elf_interpreter_text(image: Seq<u8>, a: Architecture) -> Result<Option<Seq<u8>>, ResolutionError> {
    match elf_interpreter(image, a) {
        Ok(Some(p)) => if vstd::utf8::valid_utf8(p) {
            Ok(Some(p))
        } else {
            Err(ResolutionError::ElfInterpreterInvalid)
        },
        other => other,
    }
}

/// Parses the optional `PT_INTERP` path from a complete ELF image: `None` for a
/// static image, the absolute loader path of a dynamic one.
pub fn parse_elf_interpreter(image: &[u8], architecture: Architecture) -> (r: Result<Option<String>, ResolutionError>)
    ensures
        match elf_interpreter_text(image@, architecture) {
            Ok(None) => r == Ok::<Option<String>, ResolutionError>(None),
            Ok(Some(p)) => r matches Ok(Some(s)) && string_bytes(s) == p,
            Err(e) => r == Err::<Option<String>, ResolutionError>(e),
        },
{
    if image.len() < ELF_HEADER_SIZE {
        return Err(ResolutionError::ElfMalformed);
    }
    let (offset, entry_size, entry_count) = elf_layout_of(image, architecture)?;
    assert(entry_size as u64 * entry_count as u64 <= 0xffff * 0xffff) by (nonlinear_arith)
        requires
            entry_size <= 0xffff,
            entry_count <= 0xffff,
    ;
    let table_size = entry_size as u64 * entry_count as u64;
    if offset > usize::MAX as u64 || table_size > usize::MAX as u64 - offset {
        return Err(ResolutionError::ElfMalformed);
    }
    let start = offset as usize;
    let end = start + table_size as usize;
    if end > image.len() {
        return Err(ResolutionError::ElfMalformed);
    }
    let table = copy_range(image, start, end);
    let segment = interpreter_segment(table.as_slice(), entry_size, entry_count)?;
    let (at, length) = match segment {
        None => {
            return Ok(None);
        },
        Some(s) => s,
    };
    if at > usize::MAX as u64 || length > usize::MAX as u64 - at {
        return Err(ResolutionError::ElfInterpreterInvalid);
    }
    let from = at as usize;
    let to = from + length as usize;
    if to > image.len() {
        return Err(ResolutionError::ElfInterpreterInvalid);
    }
    let bytes = copy_range(image, from, to);
    match parse_interpreter_bytes(bytes.as_slice()) {
        Ok(s) => Ok(Some(s)),
        Err(e) => Err(e),
    }
}


/// The roles an artifact outside the project root may have: the runtime executable,
/// its loader and its libraries.
pub open spec fn external_role(role: ArtifactRole) -> bool {
    role == ArtifactRole::RuntimeExecutable || role == ArtifactRole::RuntimeLoaderExecutable || role
        == ArtifactRole::RuntimeLibrary
}

/// Checks that an external artifact has a runtime role; anything else is `ExternalRoleInvalid`.
pub fn require_external_role(role: ArtifactRole) -> (r: Result<(), ResolutionError>)
    ensures
        r is Ok <==> external_role(role),
        r matches Err(e) ==> e == ResolutionError::ExternalRoleInvalid,
{
    match role {
        ArtifactRole::RuntimeExecutable | ArtifactRole::RuntimeLoaderExecutable | ArtifactRole::RuntimeLibrary => Ok(()),
        _ => Err(ResolutionError::ExternalRoleInvalid),
    }
}

/// Checks that an identity was measured for `role`; anything else is `ArtifactRoleMismatch`.
pub fn require_role(identity: &ArtifactIdentity, role: ArtifactRole) -> (r: Result<(), ResolutionError>)
    ensures
        r is Ok <==> identity.role_of() == role,
        r matches Err(e) ==> e == ResolutionError::ArtifactRoleMismatch,
{
    if identity.role() == role {
        Ok(())
    } else {
        Err(ResolutionError::ArtifactRoleMismatch)
    }
}

/// Checks that a measured identity is the expected one; anything else is `IdentityMismatch`.
pub fn require_identity(actual: &ArtifactIdentity, expected: &ArtifactIdentity) -> (r: Result<(), ResolutionError>)
    ensures
        r is Ok <==> *actual == *expected,
        r matches Err(e) ==> e == ResolutionError::IdentityMismatch,
{
    if actual.same(expected) {
        Ok(())
    } else {
        Err(ResolutionError::IdentityMismatch)
    }
}

/// Checks that a mode grants execution to someone; otherwise `ExecutableModeMissing`.
pub fn require_executable_mode(mode: FileMode) -> (r: Result<(), ResolutionError>)
    ensures
        r is Ok <==> mode.bits() & 0o111 != 0,
        r matches Err(e) ==> e == ResolutionError::ExecutableModeMissing,
{
    if mode.get() & 0o111 == 0 {
        Err(ResolutionError::ExecutableModeMissing)
    } else {
        Ok(())
    }
}


/// Measures a regular file from its complete contents and mode: the SHA-256 digest
/// of the contents, their length, and the permission, set-id and sticky bits.
pub fn identify_contents(role: ArtifactRole, contents: &[u8], mode: u32) -> (r: ArtifactIdentity)
    ensures
        r.role_of() == role,
        r.digest_of().bytes() == crate::connector_process::sha256(contents@),
        r.size_of() == contents@.len(),
        r.mode_of().bits() == mode % 4096,
{
    let digest = crate::connector_process::sha256_digest(contents);
    let bits = (mode % 4096) as u16;
    let file_mode = FileMode::new(bits).unwrap();
    ArtifactIdentity::new(role, digest, contents.len() as u64, file_mode)
}

} // verus!
