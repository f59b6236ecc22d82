//! Fresh execution identities.
use vstd::prelude::*;

use crate::model::{is_version4, ExecutionId};

verus! {

/// Identifies one native execution-setup failure.
#[derive(Clone, Copy, Debug, PartialEq, Eq, Structural)]
pub enum ExecutionSetupError {
    /// The host operating system is not Linux.
    UnsupportedOperatingSystem,
    /// The operating-system random source did not return a complete identity.
    RandomUnavailable,
}

/// The stable machine-readable code of each execution setup error.
pub open spec fn execution_error_code(e: ExecutionSetupError) -> Seq<char> {
    match e {
        ExecutionSetupError::UnsupportedOperatingSystem => "execution.os.unsupported"@,
        ExecutionSetupError::RandomUnavailable => "execution.id.random-unavailable"@,
    }
}

impl ExecutionSetupError {
    /// Returns the stable machine-readable error code.
    pub fn code(self) -> (r: &'static str)
        ensures
            r@ == execution_error_code(self),
    {
        match self {
            ExecutionSetupError::UnsupportedOperatingSystem => "execution.os.unsupported",
            ExecutionSetupError::RandomUnavailable => "execution.id.random-unavailable",
        }
    }
}

/// Distinct execution setup errors have distinct codes.
pub proof fn lemma_execution_codes_distinct(a: ExecutionSetupError, b: ExecutionSetupError)
    requires
        a != b,
    ensures
        execution_error_code(a) != execution_error_code(b),
{
    reveal_strlit("execution.os.unsupported");
    reveal_strlit("execution.id.random-unavailable");
    let ca = execution_error_code(a);
    let cb = execution_error_code(b);
    assert(ca.len() != cb.len());
}


/// The identifier that random bytes become once the RFC 4122 version (4) and variant
/// bits are set: byte 6 keeps its low nibble under version 4, byte 8 its low six
/// bits under the variant `10`.
pub open spec fn stamped_version4(random: Seq<u8>) -> Seq<u8> {
    random.update(6, ((random[6] % 16) + 0x40) as u8).update(8, ((random[8] % 64) + 0x80) as u8)
}

/// Turns sixteen random bytes into a fresh version 4 execution identity.
pub fn execution_id_from_random(random: [u8; 16]) -> (r: ExecutionId)
    ensures
        r.bytes() == stamped_version4(random@),
        is_version4(r.bytes()),
{
    let mut bytes = random;
    bytes[6] = (random[6] % 16) + 0x40;
    bytes[8] = (random[8] % 64) + 0x80;
    assert(bytes@ =~= stamped_version4(random@));
    ExecutionId::from_version4(bytes)
}

} // verus!
