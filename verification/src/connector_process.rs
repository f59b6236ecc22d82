//! The separately supervised connector process: its bootstrap vocabulary, the
//! fixed-layout control reports it sends, and the bindings the supervisor checks.
use vstd::prelude::*;
use vstd::string::StringSliceAdditionalSpecFns;

use crate::cbor::{be2, be8, be_word, lemma_be2_round_trip, lemma_be8_round_trip};
use crate::model::{is_version4, ExecutionId, FileMode, Sha256Digest};
use crate::launcher::string_models;
use crate::text::{
    all_lower_hex, decimal_text, decimal_value, hex_decode, lemma_decimal_round_trip, lemma_lower_hex_round_trip,
    lower_hex, string_bytes, strs_bytes, unsigned_digits, unsigned_text,
};
use sha2::Digest;

verus! {

/// The connector bootstrap protocol version.
pub const CONNECTOR_PROTOCOL: &'static str = "1";

/// The number of bootstrap arguments: fourteen names, each with its value.
pub const CONNECTOR_BOOTSTRAP_ARGUMENTS: usize = 28;

/// The largest accepted control report, in bytes.
pub const MAX_CONNECTOR_REPORT_BYTES: usize = 256;

/// The largest accepted connector executable, in bytes.
pub const MAX_CONNECTOR_EXECUTABLE_BYTES: u64 = 268435456;

/// The largest accepted service execution plan, in bytes.
pub const MAX_PLAN_BYTES: u64 = 1048576;

/// The largest accepted trust-root set, in bytes.
pub const MAX_TRUST_ROOT_BYTES: u64 = 16777216;

/// The kind byte of a readiness report.
pub const READY_REPORT: u8 = 1;

/// The kind byte of a terminal report.
pub const TERMINAL_REPORT: u8 = 2;

/// The kind byte of a failure report.
pub const FAILURE_REPORT: u8 = 3;

/// The eight bytes that open every control report: `PBRCP001`.
pub open spec fn report_magic() -> Seq<u8> {
    seq![0x50u8, 0x42, 0x52, 0x43, 0x50, 0x30, 0x30, 0x31]
}

/// The stable machine-readable code of each connector-process error.
pub open spec fn connector_error_code(e: ConnectorProcessError) -> Seq<char> {
    match e {
        ConnectorProcessError::UnsupportedOperatingSystem => "network.connector.os.unsupported"@,
        ConnectorProcessError::ArtifactPath => "network.connector.artifact.path-invalid"@,
        ConnectorProcessError::ArtifactUnavailable => "network.connector.artifact.unavailable"@,
        ConnectorProcessError::ArtifactRole => "network.connector.artifact.role-invalid"@,
        ConnectorProcessError::ArtifactIdentity => "network.connector.artifact.identity-unavailable"@,
        ConnectorProcessError::ArtifactIdentityDrift => "network.connector.artifact.identity-drift"@,
        ConnectorProcessError::ArtifactTooLarge => "network.connector.artifact.too-large"@,
        ConnectorProcessError::ConnectorNotExecutable => "network.connector.executable.mode-missing"@,
        ConnectorProcessError::ConnectorExecutableInvalid => "network.connector.executable.invalid"@,
        ConnectorProcessError::ConnectorLoaderMissing => "network.connector.loader.missing"@,
        ConnectorProcessError::PlanInvalid => "network.connector.plan.invalid"@,
        ConnectorProcessError::BindingInvalid => "network.connector.binding.invalid"@,
        ConnectorProcessError::BootstrapInvalid => "network.connector.bootstrap.invalid"@,
        ConnectorProcessError::Channel => "network.connector.channel.failed"@,
        ConnectorProcessError::ReaperUnavailable => "network.connector.reaper.unavailable"@,
        ConnectorProcessError::Spawn => "network.connector.spawn.failed"@,
        ConnectorProcessError::Timeout => "network.connector.timeout"@,
        ConnectorProcessError::Protocol => "network.connector.protocol.invalid"@,
        ConnectorProcessError::ConnectorFailed(_) => "network.connector.reported-failure"@,
        ConnectorProcessError::Engine => "network.connector.engine.failed"@,
        ConnectorProcessError::ChannelAlreadyTransferred => "network.connector.channel.already-transferred"@,
        ConnectorProcessError::Wait => "network.connector.wait.failed"@,
        ConnectorProcessError::Exit => "network.connector.exit.failed"@,
    }
}

impl ConnectorProcessError {
    /// Returns the stable machine-readable error code.
    pub fn code(self) -> (r: &'static str)
        ensures
            r@ == connector_error_code(self),
    {
        match self {
            ConnectorProcessError::UnsupportedOperatingSystem => "network.connector.os.unsupported",
            ConnectorProcessError::ArtifactPath => "network.connector.artifact.path-invalid",
            ConnectorProcessError::ArtifactUnavailable => "network.connector.artifact.unavailable",
            ConnectorProcessError::ArtifactRole => "network.connector.artifact.role-invalid",
            ConnectorProcessError::ArtifactIdentity => "network.connector.artifact.identity-unavailable",
            ConnectorProcessError::ArtifactIdentityDrift => "network.connector.artifact.identity-drift",
            ConnectorProcessError::ArtifactTooLarge => "network.connector.artifact.too-large",
            ConnectorProcessError::ConnectorNotExecutable => "network.connector.executable.mode-missing",
            ConnectorProcessError::ConnectorExecutableInvalid => "network.connector.executable.invalid",
            ConnectorProcessError::ConnectorLoaderMissing => "network.connector.loader.missing",
            ConnectorProcessError::PlanInvalid => "network.connector.plan.invalid",
            ConnectorProcessError::BindingInvalid => "network.connector.binding.invalid",
            ConnectorProcessError::BootstrapInvalid => "network.connector.bootstrap.invalid",
            ConnectorProcessError::Channel => "network.connector.channel.failed",
            ConnectorProcessError::ReaperUnavailable => "network.connector.reaper.unavailable",
            ConnectorProcessError::Spawn => "network.connector.spawn.failed",
            ConnectorProcessError::Timeout => "network.connector.timeout",
            ConnectorProcessError::Protocol => "network.connector.protocol.invalid",
            ConnectorProcessError::ConnectorFailed(_) => "network.connector.reported-failure",
            ConnectorProcessError::Engine => "network.connector.engine.failed",
            ConnectorProcessError::ChannelAlreadyTransferred => "network.connector.channel.already-transferred",
            ConnectorProcessError::Wait => "network.connector.wait.failed",
            ConnectorProcessError::Exit => "network.connector.exit.failed",
        }
    }
}

/// Errors of distinct kinds have distinct codes.
pub proof fn lemma_connector_codes_distinct(a: ConnectorProcessError, b: ConnectorProcessError)
    requires
        a != b,
        !(a is ConnectorFailed && b is ConnectorFailed),
    ensures
        connector_error_code(a) != connector_error_code(b),
{
    reveal_strlit("network.connector.os.unsupported");
    reveal_strlit("network.connector.artifact.path-invalid");
    reveal_strlit("network.connector.artifact.unavailable");
    reveal_strlit("network.connector.artifact.role-invalid");
    reveal_strlit("network.connector.artifact.identity-unavailable");
    reveal_strlit("network.connector.artifact.identity-drift");
    reveal_strlit("network.connector.artifact.too-large");
    reveal_strlit("network.connector.executable.mode-missing");
    reveal_strlit("network.connector.executable.invalid");
    reveal_strlit("network.connector.loader.missing");
    reveal_strlit("network.connector.plan.invalid");
    reveal_strlit("network.connector.binding.invalid");
    reveal_strlit("network.connector.bootstrap.invalid");
    reveal_strlit("network.connector.channel.failed");
    reveal_strlit("network.connector.reaper.unavailable");
    reveal_strlit("network.connector.spawn.failed");
    reveal_strlit("network.connector.timeout");
    reveal_strlit("network.connector.protocol.invalid");
    reveal_strlit("network.connector.reported-failure");
    reveal_strlit("network.connector.engine.failed");
    reveal_strlit("network.connector.channel.already-transferred");
    reveal_strlit("network.connector.wait.failed");
    reveal_strlit("network.connector.exit.failed");
    let ca = connector_error_code(a);
    let cb = connector_error_code(b);
    if ca.len() == cb.len() {
        assert(ca[18] != cb[18] || ca[27] != cb[27]);
    }
}

/// Identifies one fail-closed connector-process error.
#[derive(Clone, Copy, Debug, PartialEq, Eq, Structural)]
pub enum ConnectorProcessError {
    /// The host is not Linux.
    UnsupportedOperatingSystem,
    /// A service-support path was not canonical and absolute.
    ArtifactPath,
    /// A service-support file could not be opened.
    ArtifactUnavailable,
    /// A service-support artifact had the wrong role.
    ArtifactRole,
    /// A service-support file could not be identified.
    ArtifactIdentity,
    /// A retained service-support identity changed before use.
    ArtifactIdentityDrift,
    /// An input artifact exceeded its closed byte bound.
    ArtifactTooLarge,
    /// The connector executable had no execute permission bit.
    ConnectorNotExecutable,
    /// The connector executable was not a supported ELF image.
    ConnectorExecutableInvalid,
    /// A dynamic connector's `PT_INTERP` pathname was not registered.
    ConnectorLoaderMissing,
    /// The service execution plan was invalid.
    PlanInvalid,
    /// A declared path or identity binding did not match.
    BindingInvalid,
    /// The connector bootstrap vocabulary was invalid.
    BootstrapInvalid,
    /// A private connector channel could not be created.
    Channel,
    /// The connector reaper could not be established before process creation.
    ReaperUnavailable,
    /// The retained connector process could not be spawned.
    Spawn,
    /// The connector did not report before its declared deadline.
    Timeout,
    /// A connector control packet was absent, malformed, or out of order.
    Protocol,
    /// The connector reported one typed terminal failure.
    ConnectorFailed(ConnectorFailure),
    /// The connector engine failed after reporting its typed reason.
    Engine,
    /// The child-side channel was already transferred.
    ChannelAlreadyTransferred,
    /// The connector process could not be waited for.
    Wait,
    /// The connector exited unsuccessfully after a terminal report.
    Exit,
}

/// Identifies one service-support artifact without extending legacy receipt roles.
#[derive(Clone, Copy, Debug, PartialEq, Eq, Structural)]
pub enum ServiceArtifactRole {
    /// Contains the exact connector executable.
    ConnectorExecutable,
    /// Contains one connector runtime file.
    ConnectorRuntimeLibrary,
    /// Contains the declared resolver configuration.
    ResolverConfiguration,
    /// Contains the caller-selected TLS trust roots.
    TrustRootSet,
}

/// The service-session name of each service-support role.
pub open spec fn service_role_name(role: ServiceArtifactRole) -> Seq<char> {
    match role {
        ServiceArtifactRole::ConnectorExecutable => "connector-executable"@,
        ServiceArtifactRole::ConnectorRuntimeLibrary => "connector-runtime-library"@,
        ServiceArtifactRole::ResolverConfiguration => "resolver-configuration"@,
        ServiceArtifactRole::TrustRootSet => "trust-root-set"@,
    }
}

impl ServiceArtifactRole {
    /// Returns the stable service-session role name.
    pub fn as_str(self) -> (r: &'static str)
        ensures
            r@ == service_role_name(self),
    {
        match self {
            ServiceArtifactRole::ConnectorExecutable => "connector-executable",
            ServiceArtifactRole::ConnectorRuntimeLibrary => "connector-runtime-library",
            ServiceArtifactRole::ResolverConfiguration => "resolver-configuration",
            ServiceArtifactRole::TrustRootSet => "trust-root-set",
        }
    }
}

/// Contains one nonzero connector-process generation.
#[derive(Clone, Copy, Debug, PartialEq, Eq, Structural)]
pub struct ConnectorProcessGeneration(u64);

impl ConnectorProcessGeneration {
    #[verifier::type_invariant]
    spec fn nonzero(self) -> bool {
        self.0 != 0
    }

    pub closed spec fn value(self) -> u64 {
        self.0
    }

    /// Validates one process generation: zero is `BindingInvalid`.
    pub fn new(value: u64) -> (r: Result<Self, ConnectorProcessError>)
        ensures
            r is Ok <==> value != 0,
            r matches Ok(g) ==> g.value() == value,
            r matches Err(e) ==> e == ConnectorProcessError::BindingInvalid,
    {
        if value == 0 {
            Err(ConnectorProcessError::BindingInvalid)
        } else {
            Ok(ConnectorProcessGeneration(value))
        }
    }

    /// Returns the nonzero generation value.
    pub fn get(self) -> (r: u64)
        ensures
            r == self.value(),
            r != 0,
    {
        proof {
            use_type_invariant(&self);
        }
        self.0
    }
}

/// Contains one nonzero private service-channel identity.
#[derive(Clone, Copy, Debug, PartialEq, Eq)]
pub struct ServiceChannelId([u8; 16]);

/// Sixteen zero bytes.
pub open spec fn all_zero(bytes: Seq<u8>) -> bool {
    forall|k: int| 0 <= k < bytes.len() ==> bytes[k] == 0
}

impl ServiceChannelId {
    #[verifier::type_invariant]
    spec fn nonzero(self) -> bool {
        !all_zero(self.0@)
    }

    pub closed spec fn bytes(self) -> Seq<u8> {
        self.0@
    }

    /// Rejects the reserved all-zero channel identity as `BindingInvalid`.
    pub fn new(value: [u8; 16]) -> (r: Result<Self, ConnectorProcessError>)
        ensures
            r is Ok <==> !all_zero(value@),
            r matches Ok(c) ==> c.bytes() == value@,
            r matches Err(e) ==> e == ConnectorProcessError::BindingInvalid,
    {
        let mut k: usize = 0;
        while k < 16
            invariant
                k <= 16,
                forall|j: int| 0 <= j < k ==> value@[j] == 0,
            decreases 16 - k,
        {
            if value[k] != 0 {
                return Ok(ServiceChannelId(value));
            }
            k = k + 1;
        }
        Err(ConnectorProcessError::BindingInvalid)
    }

    /// Returns the exact channel-identity bytes.
    pub fn as_bytes(&self) -> (r: &[u8; 16])
        ensures
            r@ == self.bytes(),
            !all_zero(r@),
    {
        proof {
            use_type_invariant(self);
        }
        &self.0
    }

    /// Reports whether two identities hold the same bytes.
    pub fn same(&self, other: &Self) -> (r: bool)
        ensures
            r == (self.bytes() == other.bytes()),
    {
        crate::text::bytes_equal(&self.0, &other.0)
    }
}

/// Contains the identity of one service-support artifact.
#[derive(Clone, Copy, Debug, PartialEq, Eq)]
pub struct ServiceArtifactIdentity {
    role: ServiceArtifactRole,
    digest: Sha256Digest,
    size: u64,
    mode: FileMode,
}

impl ServiceArtifactIdentity {
    pub closed spec fn role_of(self) -> ServiceArtifactRole {
        self.role
    }

    pub closed spec fn digest_of(self) -> Sha256Digest {
        self.digest
    }

    pub closed spec fn size_of(self) -> u64 {
        self.size
    }

    pub closed spec fn mode_of(self) -> FileMode {
        self.mode
    }

    /// Records one measured service-support identity.
    pub fn new(role: ServiceArtifactRole, digest: Sha256Digest, size: u64, mode: FileMode) -> (r: Self)
        ensures
            r.role_of() == role && r.digest_of() == digest && r.size_of() == size && r.mode_of() == mode,
    {
        ServiceArtifactIdentity { role, digest, size, mode }
    }

    /// Returns the service-support role.
    pub fn role(&self) -> (r: ServiceArtifactRole)
        ensures
            r == self.role_of(),
    {
        self.role
    }

    /// Returns the complete-file SHA-256 digest.
    pub fn digest(&self) -> (r: Sha256Digest)
        ensures
            r == self.digest_of(),
    {
        self.digest
    }

    /// Returns the file size in bytes.
    pub fn size(&self) -> (r: u64)
        ensures
            r == self.size_of(),
    {
        self.size
    }

    /// Returns the Unix mode bits.
    pub fn mode(&self) -> (r: FileMode)
        ensures
            r == self.mode_of(),
    {
        self.mode
    }
}

/// Accepts a service-support artifact only in its expected role.
pub fn require_service_role(actual: ServiceArtifactRole, expected: ServiceArtifactRole) -> (r: Result<
    (),
    ConnectorProcessError,
>)
    ensures
        r is Ok <==> actual == expected,
        r matches Err(e) ==> e == ConnectorProcessError::ArtifactRole,
{
    if actual == expected {
        Ok(())
    } else {
        Err(ConnectorProcessError::ArtifactRole)
    }
}

/// Identifies the process stage that reported a terminal failure.
#[derive(Clone, Copy, Debug, PartialEq, Eq, Structural)]
pub enum ConnectorFailureStage {
    /// The inherited bootstrap or artifact bytes were invalid.
    Bootstrap,
    /// Service-name resolution failed.
    Resolution,
    /// Endpoint connection or TLS authentication failed.
    Authentication,
    /// The private channel or authenticated proxy failed.
    Channel,
}

/// The report byte of each failure stage.
pub open spec fn stage_byte(stage: ConnectorFailureStage) -> u8 {
    match stage {
        ConnectorFailureStage::Bootstrap => 1,
        ConnectorFailureStage::Resolution => 2,
        ConnectorFailureStage::Authentication => 3,
        ConnectorFailureStage::Channel => 4,
    }
}

/// The stage whose report byte is `b`, if any.
pub open spec fn stage_of_byte(b: u8) -> Option<ConnectorFailureStage> {
    if b == 1 {
        Some(ConnectorFailureStage::Bootstrap)
    } else if b == 2 {
        Some(ConnectorFailureStage::Resolution)
    } else if b == 3 {
        Some(ConnectorFailureStage::Authentication)
    } else if b == 4 {
        Some(ConnectorFailureStage::Channel)
    } else {
        None
    }
}

/// The stage-local failure codes: bootstrap 1..=5, resolution 1..=12,
/// authentication 1..=19, channel 1..=4 and 33..=51.
pub open spec fn failure_code_valid(stage: ConnectorFailureStage, code: u8) -> bool {
    match stage {
        ConnectorFailureStage::Bootstrap => 1 <= code <= 5,
        ConnectorFailureStage::Resolution => 1 <= code <= 12,
        ConnectorFailureStage::Authentication => 1 <= code <= 19,
        ConnectorFailureStage::Channel => (1 <= code <= 4) || (33 <= code <= 51),
    }
}

/// Reports whether `code` is a failure code of `stage`.
pub fn valid_failure_code(stage: ConnectorFailureStage, code: u8) -> (r: bool)
    ensures
        r == failure_code_valid(stage, code),
{
    match stage {
        ConnectorFailureStage::Bootstrap => 1 <= code && code <= 5,
        ConnectorFailureStage::Resolution => 1 <= code && code <= 12,
        ConnectorFailureStage::Authentication => 1 <= code && code <= 19,
        ConnectorFailureStage::Channel => (1 <= code && code <= 4) || (33 <= code && code <= 51),
    }
}

/// Contains one closed connector-process failure report.
#[derive(Clone, Copy, Debug, PartialEq, Eq, Structural)]
pub struct ConnectorFailure {
    stage: ConnectorFailureStage,
    code: u8,
}

impl ConnectorFailure {
    #[verifier::type_invariant]
    spec fn valid(self) -> bool {
        failure_code_valid(self.stage, self.code)
    }

    pub closed spec fn stage_of(self) -> ConnectorFailureStage {
        self.stage
    }

    pub closed spec fn code_of(self) -> u8 {
        self.code
    }

    /// Creates a failure report; a code outside the stage's codes is `Protocol`.
    pub fn new(stage: ConnectorFailureStage, code: u8) -> (r: Result<Self, ConnectorProcessError>)
        ensures
            r is Ok <==> failure_code_valid(stage, code),
            r matches Ok(f) ==> f.stage_of() == stage && f.code_of() == code,
            r matches Err(e) ==> e == ConnectorProcessError::Protocol,
    {
        if !valid_failure_code(stage, code) {
            return Err(ConnectorProcessError::Protocol);
        }
        Ok(ConnectorFailure { stage, code })
    }

    /// Returns the failed process stage.
    pub fn stage(self) -> (r: ConnectorFailureStage)
        ensures
            r == self.stage_of(),
    {
        self.stage
    }

    /// Returns the stable stage-local failure code.
    pub fn code(self) -> (r: u8)
        ensures
            r == self.code_of(),
            failure_code_valid(self.stage_of(), r),
    {
        proof {
            use_type_invariant(&self);
        }
        self.code
    }
}

/// The negotiated TLS protocol version.
#[derive(Clone, Copy, Debug, PartialEq, Eq, Structural)]
pub enum TlsVersion {
    /// TLS 1.2.
    Tls12,
    /// TLS 1.3.
    Tls13,
}

/// The report byte of each TLS version.
pub open spec fn tls_byte(v: TlsVersion) -> u8 {
    match v {
        TlsVersion::Tls12 => 12,
        TlsVersion::Tls13 => 13,
    }
}

/// The address of one selected service endpoint.
#[derive(Clone, Copy, Debug, PartialEq, Eq)]
pub enum EndpointAddress {
    /// An IPv4 address.
    V4([u8; 4]),
    /// An IPv6 address.
    V6([u8; 16]),
}

/// One selected service endpoint: its address and TCP port.
#[derive(Clone, Copy, Debug, PartialEq, Eq)]
pub struct ServiceEndpoint {
    address: EndpointAddress,
    port: u16,
}

/// The model of an endpoint: address family (4 or 6), address bytes and port.
pub struct EndpointModel {
    pub family: u8,
    pub address: Seq<u8>,
    pub port: u16,
}

impl ServiceEndpoint {
    pub closed spec fn model(self) -> EndpointModel {
        match self.address {
            EndpointAddress::V4(a) => EndpointModel { family: 4, address: a@, port: self.port },
            EndpointAddress::V6(a) => EndpointModel { family: 6, address: a@, port: self.port },
        }
    }

    /// Creates an endpoint from its address and port.
    pub fn new(address: EndpointAddress, port: u16) -> (r: Self)
        ensures
            r.model() == (match address {
                EndpointAddress::V4(a) => EndpointModel { family: 4, address: a@, port },
                EndpointAddress::V6(a) => EndpointModel { family: 6, address: a@, port },
            }),
    {
        ServiceEndpoint { address, port }
    }

    pub closed spec fn address_of(self) -> EndpointAddress {
        self.address
    }

    /// Returns the address.
    pub fn address(self) -> (r: EndpointAddress)
        ensures
            r == self.address_of(),
    {
        self.address
    }

    /// Returns the TCP port.
    pub fn port(self) -> (r: u16)
        ensures
            r == self.model().port,
    {
        self.port
    }
}

/// The nineteen report bytes of an endpoint: the family, sixteen address bytes
/// (an IPv4 address zero-padded), and the port in big-endian order.
pub open spec fn endpoint_bytes(e: EndpointModel) -> Seq<u8> {
    seq![e.family] + e.address + Seq::new((16 - e.address.len()) as nat, |i: int| 0u8) + be2(e.port as u64)
}

/// Encodes one endpoint as nineteen report bytes.
pub fn encode_endpoint(endpoint: ServiceEndpoint) -> (r: [u8; 19])
    ensures
        r@ == endpoint_bytes(endpoint.model()),
{
    let port = endpoint.port;
    let hi = (port / 0x100) as u8;
    let lo = (port % 0x100) as u8;
    let r: [u8; 19] = match endpoint.address {
        EndpointAddress::V4(a) => [4, a[0], a[1], a[2], a[3], 0, 0, 0, 0, 0, 0, 0, 0, 0, 0, 0, 0, hi, lo],
        EndpointAddress::V6(a) => [
            6,
            a[0],
            a[1],
            a[2],
            a[3],
            a[4],
            a[5],
            a[6],
            a[7],
            a[8],
            a[9],
            a[10],
            a[11],
            a[12],
            a[13],
            a[14],
            a[15],
            hi,
            lo,
        ],
    };
    assert(r@ =~= endpoint_bytes(endpoint.model()));
    r
}

/// The endpoint that nineteen report bytes denote: a nonzero port, and either
/// family 4 with zero padding or family 6.
pub open spec fn endpoint_of(b: Seq<u8>) -> Option<EndpointModel> {
    let port = be_word(b.subrange(17, 19));
    if port == 0 {
        None
    } else if b[0] == 4 && all_zero(b.subrange(5, 17)) {
        Some(EndpointModel { family: 4, address: b.subrange(1, 5), port: port as u16 })
    } else if b[0] == 6 {
        Some(EndpointModel { family: 6, address: b.subrange(1, 17), port: port as u16 })
    } else {
        None
    }
}

/// Decodes nineteen report bytes into an endpoint; anything else is `Protocol`.
pub fn decode_endpoint(bytes: &[u8]) -> (r: Result<ServiceEndpoint, ConnectorProcessError>)
    requires
        bytes@.len() == 19,
    ensures
        r is Ok <==> endpoint_of(bytes@) is Some,
        r matches Ok(e) ==> Some(e.model()) == endpoint_of(bytes@),
        r matches Err(e) ==> e == ConnectorProcessError::Protocol,
{
    let port = (bytes[17] as u16) * 0x100 + bytes[18] as u16;
    assert(port == be_word(bytes@.subrange(17, 19)));
    if port == 0 {
        return Err(ConnectorProcessError::Protocol);
    }
    let address = if bytes[0] == 4 {
        let mut k: usize = 5;
        while k < 17
            invariant
                5 <= k <= 17,
                bytes@.len() == 19,
                bytes@[0] == 4,
                port == be_word(bytes@.subrange(17, 19)),
                port != 0,
                forall|j: int| 5 <= j < k ==> bytes@[j] == 0,
            decreases 17 - k,
        {
            if bytes[k] != 0 {
                proof {
                    assert(bytes@.subrange(5, 17)[k - 5] != 0);
                }
                return Err(ConnectorProcessError::Protocol);
            }
            k = k + 1;
        }
        EndpointAddress::V4([bytes[1], bytes[2], bytes[3], bytes[4]])
    } else if bytes[0] == 6 {
        EndpointAddress::V6(
            [
                bytes[1],
                bytes[2],
                bytes[3],
                bytes[4],
                bytes[5],
                bytes[6],
                bytes[7],
                bytes[8],
                bytes[9],
                bytes[10],
                bytes[11],
                bytes[12],
                bytes[13],
                bytes[14],
                bytes[15],
                bytes[16],
            ],
        )
    } else {
        return Err(ConnectorProcessError::Protocol);
    };
    let r = ServiceEndpoint { address, port };
    proof {
        match address {
            EndpointAddress::V4(a) => {
                assert(a@ =~= bytes@.subrange(1, 5));
            },
            EndpointAddress::V6(a) => {
                assert(a@ =~= bytes@.subrange(1, 17));
            },
        }
    }
    Ok(r)
}

/// The model of a readiness report.
pub struct ReadyModel {
    pub execution: Seq<u8>,
    pub policy: Seq<u8>,
    pub generation: u64,
    pub channel: Seq<u8>,
    pub setup_binding: Seq<u8>,
    pub dns_observation: Seq<u8>,
    pub endpoint: EndpointModel,
    pub tls_version: TlsVersion,
    pub tls_implementation: Seq<u8>,
    pub certificate_chain: Seq<u8>,
    pub handshake_bytes: u64,
    pub authenticated_ns: u64,
}

/// A well-formed endpoint: a nonzero port and a four- or sixteen-byte address of its family.
pub open spec fn endpoint_ok(e: EndpointModel) -> bool {
    &&& e.port != 0
    &&& (e.family == 4 && e.address.len() == 4) || (e.family == 6 && e.address.len() == 16)
}

/// A readiness report that its fields can hold.
pub open spec fn ready_model_ok(m: ReadyModel) -> bool {
    &&& m.execution.len() == 16 && is_version4(m.execution)
    &&& m.policy.len() == 32
    &&& m.generation != 0
    &&& m.channel.len() == 16 && !all_zero(m.channel)
    &&& m.setup_binding.len() == 32
    &&& m.dns_observation.len() == 32
    &&& endpoint_ok(m.endpoint)
    &&& m.tls_implementation.len() == 32
    &&& m.certificate_chain.len() == 32
}

/// Contains the authenticated facts received before any child release.
#[derive(Clone, Copy, Debug, PartialEq, Eq)]
pub struct ConnectorReady {
    execution_id: ExecutionId,
    policy_digest: Sha256Digest,
    process_generation: ConnectorProcessGeneration,
    channel_id: ServiceChannelId,
    setup_binding_digest: Sha256Digest,
    dns_observation_digest: Sha256Digest,
    selected_endpoint: ServiceEndpoint,
    tls_version: TlsVersion,
    tls_implementation_digest: Sha256Digest,
    certificate_chain_digest: Sha256Digest,
    handshake_bytes: u64,
    authenticated_ns: u64,
}

impl ConnectorReady {
    /// The model of this report.
    pub closed spec fn model(self) -> ReadyModel {
        ReadyModel {
            execution: self.execution_id.bytes(),
            policy: self.policy_digest.bytes(),
            generation: self.process_generation.value(),
            channel: self.channel_id.bytes(),
            setup_binding: self.setup_binding_digest.bytes(),
            dns_observation: self.dns_observation_digest.bytes(),
            endpoint: self.selected_endpoint.model(),
            tls_version: self.tls_version,
            tls_implementation: self.tls_implementation_digest.bytes(),
            certificate_chain: self.certificate_chain_digest.bytes(),
            handshake_bytes: self.handshake_bytes,
            authenticated_ns: self.authenticated_ns,
        }
    }

    #[verifier::type_invariant]
    closed spec fn endpoint_valid(self) -> bool {
        endpoint_ok(self.selected_endpoint.model())
    }

    /// Records the facts of one authenticated session; an endpoint with port zero is `BindingInvalid`.
    pub fn new(
        execution_id: ExecutionId,
        policy_digest: Sha256Digest,
        process_generation: ConnectorProcessGeneration,
        channel_id: ServiceChannelId,
        setup_binding_digest: Sha256Digest,
        dns_observation_digest: Sha256Digest,
        selected_endpoint: ServiceEndpoint,
        tls_version: TlsVersion,
        tls_implementation_digest: Sha256Digest,
        certificate_chain_digest: Sha256Digest,
        handshake_bytes: u64,
        authenticated_ns: u64,
    ) -> (r: Result<Self, ConnectorProcessError>)
        ensures
            r is Ok <==> selected_endpoint.model().port != 0,
            r matches Ok(x) ==> x.model() == (ReadyModel {
                execution: execution_id.bytes(),
                policy: policy_digest.bytes(),
                generation: process_generation.value(),
                channel: channel_id.bytes(),
                setup_binding: setup_binding_digest.bytes(),
                dns_observation: dns_observation_digest.bytes(),
                endpoint: selected_endpoint.model(),
                tls_version,
                tls_implementation: tls_implementation_digest.bytes(),
                certificate_chain: certificate_chain_digest.bytes(),
                handshake_bytes,
                authenticated_ns,
            }),
            r matches Err(e) ==> e == ConnectorProcessError::BindingInvalid,
    {
        if selected_endpoint.port() == 0 {
            return Err(ConnectorProcessError::BindingInvalid);
        }
        Ok(
            ConnectorReady {
                execution_id,
                policy_digest,
                process_generation,
                channel_id,
                setup_binding_digest,
                dns_observation_digest,
                selected_endpoint,
                tls_version,
                tls_implementation_digest,
                certificate_chain_digest,
                handshake_bytes,
                authenticated_ns,
            },
        )
    }

    /// Returns the execution identifier echoed by the connector.
    pub fn execution_id(self) -> (r: ExecutionId)
        ensures
            r.bytes() == self.model().execution,
    {
        self.execution_id
    }

    /// Returns the policy digest echoed by the connector.
    pub fn policy_digest(self) -> (r: Sha256Digest)
        ensures
            r.bytes() == self.model().policy,
    {
        self.policy_digest
    }

    /// Returns the nonzero supervisor generation.
    pub fn process_generation(self) -> (r: ConnectorProcessGeneration)
        ensures
            r.value() == self.model().generation,
    {
        self.process_generation
    }

    /// Returns the private channel identifier.
    pub fn channel_id(self) -> (r: ServiceChannelId)
        ensures
            r.bytes() == self.model().channel,
    {
        self.channel_id
    }

    /// Returns the complete bootstrap-artifact binding digest.
    pub fn setup_binding_digest(self) -> (r: Sha256Digest)
        ensures
            r.bytes() == self.model().setup_binding,
    {
        self.setup_binding_digest
    }

    /// Returns the canonical DNS-observation digest.
    pub fn dns_observation_digest(self) -> (r: Sha256Digest)
        ensures
            r.bytes() == self.model().dns_observation,
    {
        self.dns_observation_digest
    }

    /// Returns the one selected service endpoint.
    pub fn selected_endpoint(self) -> (r: ServiceEndpoint)
        ensures
            r.model() == self.model().endpoint,
    {
        self.selected_endpoint
    }

    /// Returns the negotiated TLS protocol version.
    pub fn tls_version(self) -> (r: TlsVersion)
        ensures
            r == self.model().tls_version,
    {
        self.tls_version
    }

    /// Returns the TLS implementation digest.
    pub fn tls_implementation_digest(self) -> (r: Sha256Digest)
        ensures
            r.bytes() == self.model().tls_implementation,
    {
        self.tls_implementation_digest
    }

    /// Returns the authenticated peer-chain digest.
    pub fn certificate_chain_digest(self) -> (r: Sha256Digest)
        ensures
            r.bytes() == self.model().certificate_chain,
    {
        self.certificate_chain_digest
    }

    /// Returns the observed TLS handshake byte count.
    pub fn handshake_bytes(self) -> (r: u64)
        ensures
            r == self.model().handshake_bytes,
    {
        self.handshake_bytes
    }

    /// Returns the connector-relative authentication time.
    pub fn authenticated_ns(self) -> (r: u64)
        ensures
            r == self.model().authenticated_ns,
    {
        self.authenticated_ns
    }
}

/// Contains the bounded terminal traffic observation.
#[derive(Clone, Copy, Debug, PartialEq, Eq, Structural)]
pub struct ConnectorTerminal {
    child_to_service_bytes: u64,
    service_to_child_bytes: u64,
    active_ns: u64,
    closed_ns: u64,
}

impl ConnectorTerminal {
    /// The model of this report: child-to-service bytes, service-to-child bytes,
    /// active time and close time.
    pub closed spec fn model(self) -> (u64, u64, u64, u64) {
        (self.child_to_service_bytes, self.service_to_child_bytes, self.active_ns, self.closed_ns)
    }

    /// Records one terminal traffic observation.
    pub fn new(child_to_service_bytes: u64, service_to_child_bytes: u64, active_ns: u64, closed_ns: u64) -> (r:
        Self)
        ensures
            r.model() == (child_to_service_bytes, service_to_child_bytes, active_ns, closed_ns),
    {
        ConnectorTerminal { child_to_service_bytes, service_to_child_bytes, active_ns, closed_ns }
    }

    /// Returns accepted child-to-service plaintext bytes.
    pub fn child_to_service_bytes(self) -> (r: u64)
        ensures
            r == self.model().0,
    {
        self.child_to_service_bytes
    }

    /// Returns delivered service-to-child plaintext bytes.
    pub fn service_to_child_bytes(self) -> (r: u64)
        ensures
            r == self.model().1,
    {
        self.service_to_child_bytes
    }

    /// Returns the connector-relative active time.
    pub fn active_ns(self) -> (r: u64)
        ensures
            r == self.model().2,
    {
        self.active_ns
    }

    /// Returns the connector-relative close time.
    pub fn closed_ns(self) -> (r: u64)
        ensures
            r == self.model().3,
    {
        self.closed_ns
    }
}

/// One decoded control report.
#[derive(Clone, Copy, Debug, PartialEq, Eq)]
pub enum ConnectorReport {
    /// The connector authenticated the service.
    Ready(ConnectorReady),
    /// The connector closed the channel.
    Terminal(ConnectorTerminal),
    /// The connector failed.
    Failure(ConnectorFailure),
}

/// The model of a control report.
pub enum ReportModel {
    Ready(ReadyModel),
    Terminal((u64, u64, u64, u64)),
    Failure(ConnectorFailureStage, u8),
}

impl ConnectorReport {
    /// The model of this report.
    pub open spec fn model(self) -> ReportModel {
        match self {
            ConnectorReport::Ready(r) => ReportModel::Ready(r.model()),
            ConnectorReport::Terminal(t) => ReportModel::Terminal(t.model()),
            ConnectorReport::Failure(f) => ReportModel::Failure(f.stage_of(), f.code_of()),
        }
    }
}

/// The 245 bytes of a readiness report.
pub open spec fn ready_bytes(m: ReadyModel) -> Seq<u8> {
    report_magic() + seq![READY_REPORT] + m.execution + m.policy + be8(m.generation) + m.channel
        + m.setup_binding + m.dns_observation + endpoint_bytes(m.endpoint) + seq![tls_byte(m.tls_version)]
        + m.tls_implementation + m.certificate_chain + be8(m.handshake_bytes) + be8(m.authenticated_ns)
}

/// The 41 bytes of a terminal report.
pub open spec fn terminal_bytes(t: (u64, u64, u64, u64)) -> Seq<u8> {
    report_magic() + seq![TERMINAL_REPORT] + be8(t.0) + be8(t.1) + be8(t.2) + be8(t.3)
}

/// The 11 bytes of a failure report.
pub open spec fn failure_bytes(stage: ConnectorFailureStage, code: u8) -> Seq<u8> {
    report_magic() + seq![FAILURE_REPORT, stage_byte(stage), code]
}

/// The deterministic bytes of each report.
pub open spec fn report_bytes(m: ReportModel) -> Seq<u8> {
    match m {
        ReportModel::Ready(r) => ready_bytes(r),
        ReportModel::Terminal(t) => terminal_bytes(t),
        ReportModel::Failure(stage, code) => failure_bytes(stage, code),
    }
}

fn push_all(out: &mut Vec<u8>, bytes: &[u8])
    ensures
        final(out)@ == old(out)@ + bytes@,
{
    let mut i: usize = 0;
    while i < bytes.len()
        invariant
            i <= bytes@.len(),
            out@ == old(out)@ + bytes@.take(i as int),
        decreases bytes@.len() - i,
    {
        out.push(bytes[i]);
        assert(bytes@.take(i + 1) =~= bytes@.take(i as int).push(bytes@[i as int]));
        i = i + 1;
    }
    assert(bytes@.take(bytes@.len() as int) =~= bytes@);
}

fn push_u64(out: &mut Vec<u8>, value: u64)
    ensures
        final(out)@ == old(out)@ + be8(value),
{
    out.push((value / 0x100_0000_0000_0000) as u8);
    out.push(((value / 0x1_0000_0000_0000) % 0x100) as u8);
    out.push(((value / 0x100_0000_0000) % 0x100) as u8);
    out.push(((value / 0x1_0000_0000) % 0x100) as u8);
    out.push(((value / 0x100_0000) % 0x100) as u8);
    out.push(((value / 0x1_0000) % 0x100) as u8);
    out.push(((value / 0x100) % 0x100) as u8);
    out.push((value % 0x100) as u8);
    assert(final(out)@ =~= old(out)@ + be8(value));
}

fn push_magic(out: &mut Vec<u8>)
    ensures
        final(out)@ == old(out)@ + report_magic(),
{
    out.push(0x50);
    out.push(0x42);
    out.push(0x52);
    out.push(0x43);
    out.push(0x50);
    out.push(0x30);
    out.push(0x30);
    out.push(0x31);
    assert(final(out)@ =~= old(out)@ + report_magic());
}

/// Encodes one readiness report as its 245 bytes.
pub fn encode_ready(ready: ConnectorReady) -> (r: Vec<u8>)
    ensures
        r@ == ready_bytes(ready.model()),
        ready_model_ok(ready.model()),
{
    proof {
        use_type_invariant(&ready);
    }
    let mut bytes: Vec<u8> = Vec::new();
    push_magic(&mut bytes);
    bytes.push(READY_REPORT);
    push_all(&mut bytes, ready.execution_id.as_bytes());
    push_all(&mut bytes, ready.policy_digest.as_bytes());
    push_u64(&mut bytes, ready.process_generation.get());
    push_all(&mut bytes, ready.channel_id.as_bytes());
    push_all(&mut bytes, ready.setup_binding_digest.as_bytes());
    push_all(&mut bytes, ready.dns_observation_digest.as_bytes());
    let endpoint = encode_endpoint(ready.selected_endpoint);
    push_all(&mut bytes, &endpoint);
    bytes.push(
        match ready.tls_version {
            TlsVersion::Tls12 => 12,
            TlsVersion::Tls13 => 13,
        },
    );
    push_all(&mut bytes, ready.tls_implementation_digest.as_bytes());
    push_all(&mut bytes, ready.certificate_chain_digest.as_bytes());
    push_u64(&mut bytes, ready.handshake_bytes);
    push_u64(&mut bytes, ready.authenticated_ns);
    proof {
        assert(bytes@ =~= ready_bytes(ready.model()));
        let m = ready.model();
        assert(m.channel.len() == 16);
    }
    bytes
}

/// Encodes one terminal report as its 41 bytes.
pub fn encode_terminal(terminal: ConnectorTerminal) -> (r: Vec<u8>)
    ensures
        r@ == terminal_bytes(terminal.model()),
{
    let mut bytes: Vec<u8> = Vec::new();
    push_magic(&mut bytes);
    bytes.push(TERMINAL_REPORT);
    push_u64(&mut bytes, terminal.child_to_service_bytes);
    push_u64(&mut bytes, terminal.service_to_child_bytes);
    push_u64(&mut bytes, terminal.active_ns);
    push_u64(&mut bytes, terminal.closed_ns);
    assert(bytes@ =~= terminal_bytes(terminal.model()));
    bytes
}

/// Encodes one failure report as its 11 bytes.
pub fn encode_failure(failure: ConnectorFailure) -> (r: [u8; 11])
    ensures
        r@ == failure_bytes(failure.stage_of(), failure.code_of()),
        failure_code_valid(failure.stage_of(), failure.code_of()),
{
    let stage: u8 = match failure.stage() {
        ConnectorFailureStage::Bootstrap => 1,
        ConnectorFailureStage::Resolution => 2,
        ConnectorFailureStage::Authentication => 3,
        ConnectorFailureStage::Channel => 4,
    };
    let r: [u8; 11] = [0x50, 0x42, 0x52, 0x43, 0x50, 0x30, 0x30, 0x31, FAILURE_REPORT, stage, failure.code()];
    assert(r@ =~= failure_bytes(failure.stage_of(), failure.code_of()));
    r
}

/// The TLS version of a report byte, if any.
pub open spec fn tls_of_byte(b: u8) -> Option<TlsVersion> {
    if b == 12 {
        Some(TlsVersion::Tls12)
    } else if b == 13 {
        Some(TlsVersion::Tls13)
    } else {
        None
    }
}

/// The readiness report that 245 bytes denote, if they denote one.
pub open spec fn ready_of(b: Seq<u8>) -> Option<ReadyModel> {
    let execution = b.subrange(9, 25);
    let generation = be_word(b.subrange(57, 65));
    let channel = b.subrange(65, 81);
    if !is_version4(execution) || generation == 0 || all_zero(channel) {
        None
    } else {
        match (endpoint_of(b.subrange(145, 164)), tls_of_byte(b[164])) {
            (Some(endpoint), Some(tls_version)) => Some(
                ReadyModel {
                    execution,
                    policy: b.subrange(25, 57),
                    generation: generation as u64,
                    channel,
                    setup_binding: b.subrange(81, 113),
                    dns_observation: b.subrange(113, 145),
                    endpoint,
                    tls_version,
                    tls_implementation: b.subrange(165, 197),
                    certificate_chain: b.subrange(197, 229),
                    handshake_bytes: be_word(b.subrange(229, 237)) as u64,
                    authenticated_ns: be_word(b.subrange(237, 245)) as u64,
                },
            ),
            _ => None,
        }
    }
}

/// The report that `b` denotes, if any: the magic, a kind byte, and exactly the
/// length of that kind.
pub open spec fn report_of(b: Seq<u8>) -> Option<ReportModel> {
    if b.len() < 9 || b.subrange(0, 8) != report_magic() {
        None
    } else if b[8] == READY_REPORT && b.len() == 245 {
        match ready_of(b) {
            Some(r) => Some(ReportModel::Ready(r)),
            None => None,
        }
    } else if b[8] == TERMINAL_REPORT && b.len() == 41 {
        Some(
            ReportModel::Terminal(
                (
                    be_word(b.subrange(9, 17)) as u64,
                    be_word(b.subrange(17, 25)) as u64,
                    be_word(b.subrange(25, 33)) as u64,
                    be_word(b.subrange(33, 41)) as u64,
                ),
            ),
        )
    } else if b[8] == FAILURE_REPORT && b.len() == 11 {
        match stage_of_byte(b[9]) {
            Some(stage) => if failure_code_valid(stage, b[10]) {
                Some(ReportModel::Failure(stage, b[10]))
            } else {
                None
            },
            None => None,
        }
    } else {
        None
    }
}

fn u64_at(bytes: &[u8], offset: usize) -> (r: u64)
    requires
        offset + 8 <= bytes@.len(),
    ensures
        r == be_word(bytes@.subrange(offset as int, offset + 8)),
{
    let w1 = (bytes[offset] as u64) * 0x100 + bytes[offset + 1] as u64;
    let w2 = w1 * 0x100 + bytes[offset + 2] as u64;
    let w3 = w2 * 0x100 + bytes[offset + 3] as u64;
    let w4 = w3 * 0x100 + bytes[offset + 4] as u64;
    let w5 = w4 * 0x100 + bytes[offset + 5] as u64;
    let w6 = w5 * 0x100 + bytes[offset + 6] as u64;
    w6 * 0x100 + bytes[offset + 7] as u64
}

fn array16_at(bytes: &[u8], offset: usize) -> (r: [u8; 16])
    requires
        offset + 16 <= bytes@.len(),
    ensures
        r@ == bytes@.subrange(offset as int, offset + 16),
{
    let mut r: [u8; 16] = [0; 16];
    let len = bytes.len();
    let mut k: usize = 0;
    while k < 16
        invariant
            k <= 16,
            len == bytes@.len(),
            offset + 16 <= bytes@.len(),
            forall|j: int| 0 <= j < k ==> r@[j] == bytes@[offset + j],
        decreases 16 - k,
    {
        r[k] = bytes[offset + k];
        k = k + 1;
    }
    assert(r@ =~= bytes@.subrange(offset as int, offset + 16));
    r
}

fn array32_at(bytes: &[u8], offset: usize) -> (r: [u8; 32])
    requires
        offset + 32 <= bytes@.len(),
    ensures
        r@ == bytes@.subrange(offset as int, offset + 32),
{
    let mut r: [u8; 32] = [0; 32];
    let len = bytes.len();
    let mut k: usize = 0;
    while k < 32
        invariant
            k <= 32,
            len == bytes@.len(),
            offset + 32 <= bytes@.len(),
            forall|j: int| 0 <= j < k ==> r@[j] == bytes@[offset + j],
        decreases 32 - k,
    {
        r[k] = bytes[offset + k];
        k = k + 1;
    }
    assert(r@ =~= bytes@.subrange(offset as int, offset + 32));
    r
}

fn digest_at(bytes: &[u8], offset: usize) -> (r: Sha256Digest)
    requires
        offset + 32 <= bytes@.len(),
    ensures
        r.bytes() == bytes@.subrange(offset as int, offset + 32),
{
    Sha256Digest::from_bytes(array32_at(bytes, offset))
}

fn decode_ready(bytes: &[u8]) -> (r: Result<ConnectorReady, ConnectorProcessError>)
    requires
        bytes@.len() == 245,
    ensures
        r is Ok <==> ready_of(bytes@) is Some,
        r matches Ok(x) ==> Some(x.model()) == ready_of(bytes@),
        r matches Err(e) ==> e == ConnectorProcessError::Protocol,
{
    let execution_id = match ExecutionId::from_bytes(array16_at(bytes, 9)) {
        Some(id) => id,
        None => {
            return Err(ConnectorProcessError::Protocol);
        },
    };
    let process_generation = match ConnectorProcessGeneration::new(u64_at(bytes, 57)) {
        Ok(g) => g,
        Err(_) => {
            return Err(ConnectorProcessError::Protocol);
        },
    };
    let channel_id = match ServiceChannelId::new(array16_at(bytes, 65)) {
        Ok(c) => c,
        Err(_) => {
            return Err(ConnectorProcessError::Protocol);
        },
    };
    let selected_endpoint = decode_endpoint(&bytes[145..164])?;
    let tls_version = if bytes[164] == 12 {
        TlsVersion::Tls12
    } else if bytes[164] == 13 {
        TlsVersion::Tls13
    } else {
        return Err(ConnectorProcessError::Protocol);
    };
    let ready = ConnectorReady {
        execution_id,
        policy_digest: digest_at(bytes, 25),
        process_generation,
        channel_id,
        setup_binding_digest: digest_at(bytes, 81),
        dns_observation_digest: digest_at(bytes, 113),
        selected_endpoint,
        tls_version,
        tls_implementation_digest: digest_at(bytes, 165),
        certificate_chain_digest: digest_at(bytes, 197),
        handshake_bytes: u64_at(bytes, 229),
        authenticated_ns: u64_at(bytes, 237),
    };
    proof {
        assert(bytes@.subrange(145, 164) =~= bytes@.subrange(145, 164));
    }
    Ok(ready)
}

/// Decodes one control report; anything but a well-formed report of one kind is `Protocol`.
pub fn decode_report(bytes: &[u8]) -> (r: Result<ConnectorReport, ConnectorProcessError>)
    ensures
        r is Ok <==> report_of(bytes@) is Some,
        r matches Ok(x) ==> Some(x.model()) == report_of(bytes@),
        r matches Err(e) ==> e == ConnectorProcessError::Protocol,
{
    if bytes.len() < 9 || bytes[0] != 0x50 || bytes[1] != 0x42 || bytes[2] != 0x52 || bytes[3] != 0x43
        || bytes[4] != 0x50 || bytes[5] != 0x30 || bytes[6] != 0x30 || bytes[7] != 0x31 {
        proof {
            if bytes@.len() >= 9 {
                let m = bytes@.subrange(0, 8);
                if m == report_magic() {
                    assert(m[0] == 0x50 && m[1] == 0x42 && m[2] == 0x52 && m[3] == 0x43);
                    assert(m[4] == 0x50 && m[5] == 0x30 && m[6] == 0x30 && m[7] == 0x31);
                }
            }
        }
        return Err(ConnectorProcessError::Protocol);
    }
    assert(bytes@.subrange(0, 8) =~= report_magic());
    let kind = bytes[8];
    if kind == READY_REPORT && bytes.len() == 245 {
        let ready = decode_ready(bytes)?;
        Ok(ConnectorReport::Ready(ready))
    } else if kind == TERMINAL_REPORT && bytes.len() == 41 {
        Ok(
            ConnectorReport::Terminal(
                ConnectorTerminal {
                    child_to_service_bytes: u64_at(bytes, 9),
                    service_to_child_bytes: u64_at(bytes, 17),
                    active_ns: u64_at(bytes, 25),
                    closed_ns: u64_at(bytes, 33),
                },
            ),
        )
    } else if kind == FAILURE_REPORT && bytes.len() == 11 {
        let stage = if bytes[9] == 1 {
            ConnectorFailureStage::Bootstrap
        } else if bytes[9] == 2 {
            ConnectorFailureStage::Resolution
        } else if bytes[9] == 3 {
            ConnectorFailureStage::Authentication
        } else if bytes[9] == 4 {
            ConnectorFailureStage::Channel
        } else {
            return Err(ConnectorProcessError::Protocol);
        };
        let failure = ConnectorFailure::new(stage, bytes[10])?;
        Ok(ConnectorReport::Failure(failure))
    } else {
        Err(ConnectorProcessError::Protocol)
    }
}

/// Every readiness report that a `ConnectorReady` holds decodes back to itself.
#[verifier::rlimit(50)]
#[verifier::spinoff_prover]
pub proof fn lemma_ready_report_round_trip(m: ReadyModel)
    requires
        ready_model_ok(m),
    ensures
        report_of(ready_bytes(m)) == Some(ReportModel::Ready(m)),
{
    let b = ready_bytes(m);
    lemma_be8_round_trip(m.generation);
    lemma_be8_round_trip(m.handshake_bytes);
    lemma_be8_round_trip(m.authenticated_ns);
    lemma_be2_round_trip(m.endpoint.port as u64);
    assert(b.len() == 245);
    assert(b.subrange(0, 8) =~= report_magic());
    assert(b.subrange(9, 25) =~= m.execution);
    assert(b.subrange(25, 57) =~= m.policy);
    assert(b.subrange(57, 65) =~= be8(m.generation));
    assert(b.subrange(65, 81) =~= m.channel);
    assert(b.subrange(81, 113) =~= m.setup_binding);
    assert(b.subrange(113, 145) =~= m.dns_observation);
    let e = b.subrange(145, 164);
    assert(e =~= endpoint_bytes(m.endpoint));
    assert(e.subrange(17, 19) =~= be2(m.endpoint.port as u64));
    if m.endpoint.family == 4 {
        assert(e.subrange(1, 5) =~= m.endpoint.address);
        assert(all_zero(e.subrange(5, 17)));
    } else {
        assert(e.subrange(1, 17) =~= m.endpoint.address);
    }
    assert(b[164] == tls_byte(m.tls_version));
    assert(b.subrange(165, 197) =~= m.tls_implementation);
    assert(b.subrange(197, 229) =~= m.certificate_chain);
    assert(b.subrange(229, 237) =~= be8(m.handshake_bytes));
    assert(b.subrange(237, 245) =~= be8(m.authenticated_ns));
    let r = ready_of(b)->0;
    assert(r.endpoint == m.endpoint);
    assert(r == m);
}

/// Every terminal report decodes back to itself.
pub proof fn lemma_terminal_report_round_trip(t: (u64, u64, u64, u64))
    ensures
        report_of(terminal_bytes(t)) == Some(ReportModel::Terminal(t)),
{
    let b = terminal_bytes(t);
    assert(b.len() == 41);
    assert(b[8] == TERMINAL_REPORT);
    lemma_be8_round_trip(t.0);
    lemma_be8_round_trip(t.1);
    lemma_be8_round_trip(t.2);
    lemma_be8_round_trip(t.3);
    assert(b.subrange(0, 8) =~= report_magic());
    assert(b.subrange(9, 17) =~= be8(t.0));
    assert(b.subrange(17, 25) =~= be8(t.1));
    assert(b.subrange(25, 33) =~= be8(t.2));
    assert(b.subrange(33, 41) =~= be8(t.3));
}

/// Every valid failure report decodes back to itself.
pub proof fn lemma_failure_report_round_trip(stage: ConnectorFailureStage, code: u8)
    requires
        failure_code_valid(stage, code),
    ensures
        report_of(failure_bytes(stage, code)) == Some(ReportModel::Failure(stage, code)),
{
    let b = failure_bytes(stage, code);
    assert(b.subrange(0, 8) =~= report_magic());
}

/// The SHA-256 digest of `data`, as `sha2::Sha256` computes it.
pub uninterp spec fn sha256(data: Seq<u8>) -> Seq<u8>;

/// Calls `sha2::Sha256::digest`, which hashes `data` in one pass; the contract claims
/// only that the result is the SHA-256 digest of exactly these bytes.
#[verifier::external_body]
pub(crate) fn sha256_digest(data: &[u8]) -> (r: Sha256Digest)
    ensures
        r.bytes() == sha256(data@),
{
    let out: [u8; 32] = sha2::Sha256::digest(data).into();
    Sha256Digest::from_bytes(out)
}

/// The bytes that bind a connector to its complete setup: a domain separator and each
/// identity in order.
pub open spec fn setup_binding_bytes(
    execution: Seq<u8>,
    policy: Seq<u8>,
    generation: u64,
    channel: Seq<u8>,
    plan: Seq<u8>,
    trust_root: Seq<u8>,
    connector: Seq<u8>,
    runtime_closure: Seq<u8>,
    resolver_configuration: Seq<u8>,
) -> Seq<u8> {
    "proofbound-runtime-connector-setup/1".spec_bytes() + seq![0u8] + execution + policy + be8(generation)
        + channel + plan + trust_root + connector + runtime_closure + resolver_configuration
}

/// Digests the complete bootstrap-artifact binding.
pub fn setup_binding_digest(
    execution_id: ExecutionId,
    policy_digest: Sha256Digest,
    process_generation: ConnectorProcessGeneration,
    channel_id: ServiceChannelId,
    plan_digest: Sha256Digest,
    trust_root_digest: Sha256Digest,
    connector_digest: Sha256Digest,
    runtime_closure_digest: Sha256Digest,
    resolver_configuration_digest: Sha256Digest,
) -> (r: Sha256Digest)
    ensures
        r.bytes() == sha256(
            setup_binding_bytes(
                execution_id.bytes(),
                policy_digest.bytes(),
                process_generation.value(),
                channel_id.bytes(),
                plan_digest.bytes(),
                trust_root_digest.bytes(),
                connector_digest.bytes(),
                runtime_closure_digest.bytes(),
                resolver_configuration_digest.bytes(),
            ),
        ),
{
    let mut bytes: Vec<u8> = Vec::new();
    push_all(&mut bytes, "proofbound-runtime-connector-setup/1".as_bytes());
    bytes.push(0);
    push_all(&mut bytes, execution_id.as_bytes());
    push_all(&mut bytes, policy_digest.as_bytes());
    push_u64(&mut bytes, process_generation.get());
    push_all(&mut bytes, channel_id.as_bytes());
    push_all(&mut bytes, plan_digest.as_bytes());
    push_all(&mut bytes, trust_root_digest.as_bytes());
    push_all(&mut bytes, connector_digest.as_bytes());
    push_all(&mut bytes, runtime_closure_digest.as_bytes());
    push_all(&mut bytes, resolver_configuration_digest.as_bytes());
    assert(bytes@ =~= setup_binding_bytes(
        execution_id.bytes(),
        policy_digest.bytes(),
        process_generation.value(),
        channel_id.bytes(),
        plan_digest.bytes(),
        trust_root_digest.bytes(),
        connector_digest.bytes(),
        runtime_closure_digest.bytes(),
        resolver_configuration_digest.bytes(),
    ));
    sha256_digest(bytes.as_slice())
}

/// The record of one runtime-closure artifact: role name, a zero byte, digest, size
/// and mode, all big-endian.
pub open spec fn closure_record(a: ServiceArtifactIdentity) -> Seq<u8> {
    vstd::utf8::encode_utf8(service_role_name(a.role_of())) + seq![0u8] + a.digest_of().bytes() + be8(a.size_of())
        + be2(a.mode_of().bits() as u64)
}

/// The records of a runtime closure, in order.
pub open spec fn closure_records(artifacts: Seq<ServiceArtifactIdentity>) -> Seq<u8>
    decreases artifacts.len(),
{
    if artifacts.len() == 0 {
        Seq::empty()
    } else {
        closure_records(artifacts.drop_last()) + closure_record(artifacts.last())
    }
}

/// The bytes that identify a runtime closure: a domain separator and each record.
pub open spec fn closure_bytes(artifacts: Seq<ServiceArtifactIdentity>) -> Seq<u8> {
    "proofbound-runtime-connector-closure/1".spec_bytes() + seq![0u8] + closure_records(artifacts)
}

/// Digests the identities of a connector's runtime closure.
pub fn digest_runtime_closure(runtime_closure: &[ServiceArtifactIdentity]) -> (r: Sha256Digest)
    ensures
        r.bytes() == sha256(closure_bytes(runtime_closure@)),
{
    let mut bytes: Vec<u8> = Vec::new();
    push_all(&mut bytes, "proofbound-runtime-connector-closure/1".as_bytes());
    bytes.push(0);
    let ghost head = bytes@;
    let mut k: usize = 0;
    while k < runtime_closure.len()
        invariant
            k <= runtime_closure@.len(),
            head == "proofbound-runtime-connector-closure/1".spec_bytes() + seq![0u8],
            bytes@ == head + closure_records(runtime_closure@.take(k as int)),
        decreases runtime_closure@.len() - k,
    {
        let identity = runtime_closure[k];
        push_all(&mut bytes, identity.role().as_str().as_bytes());
        bytes.push(0);
        push_all(&mut bytes, identity.digest().as_bytes());
        push_u64(&mut bytes, identity.size());
        let mode = identity.mode().get();
        bytes.push((mode / 0x100) as u8);
        bytes.push((mode % 0x100) as u8);
        proof {
            assert(runtime_closure@.take(k + 1).drop_last() =~= runtime_closure@.take(k as int));
            assert(bytes@ =~= head + closure_records(runtime_closure@.take(k + 1)));
        }
        k = k + 1;
    }
    assert(runtime_closure@.take(runtime_closure@.len() as int) =~= runtime_closure@);
    sha256_digest(bytes.as_slice())
}

/// The connector's readiness report is bound to this run: every echoed identity
/// matches, the setup binding is the expected one, and the endpoint port is nonzero.
pub open spec fn ready_binding_ok(
    ready: ReadyModel,
    execution: Seq<u8>,
    policy: Seq<u8>,
    generation: u64,
    channel: Seq<u8>,
    setup_binding: Seq<u8>,
) -> bool {
    &&& ready.execution == execution
    &&& ready.policy == policy
    &&& ready.generation == generation
    &&& ready.channel == channel
    &&& ready.setup_binding == setup_binding
    &&& ready.endpoint.port != 0
}

/// Checks that a readiness report is bound to this run; anything else is `BindingInvalid`.
pub fn require_ready_binding(
    ready: ConnectorReady,
    execution_id: ExecutionId,
    policy_digest: Sha256Digest,
    process_generation: ConnectorProcessGeneration,
    channel_id: ServiceChannelId,
    expected_setup_binding: Sha256Digest,
) -> (r: Result<(), ConnectorProcessError>)
    ensures
        r is Ok <==> ready_binding_ok(
            ready.model(),
            execution_id.bytes(),
            policy_digest.bytes(),
            process_generation.value(),
            channel_id.bytes(),
            expected_setup_binding.bytes(),
        ),
        r matches Err(e) ==> e == ConnectorProcessError::BindingInvalid,
{
    if !ready.execution_id.same(&execution_id) || !ready.policy_digest.same(&policy_digest)
        || ready.process_generation.get() != process_generation.get() || !ready.channel_id.same(&channel_id)
        || !ready.setup_binding_digest.same(&expected_setup_binding) || ready.selected_endpoint.port() == 0 {
        Err(ConnectorProcessError::BindingInvalid)
    } else {
        Ok(())
    }
}

/// A terminal report is consistent with its readiness report: each direction within its
/// limit, active from the authentication time, closed no earlier than active.
pub open spec fn terminal_ok(t: (u64, u64, u64, u64), ready: ReadyModel, child_to_service_limit: u64, service_to_child_limit: u64) -> bool {
    &&& t.0 <= child_to_service_limit
    &&& t.1 <= service_to_child_limit
    &&& t.2 == ready.authenticated_ns
    &&& t.3 >= t.2
}

/// Checks a terminal report against its readiness report and limits; anything else is `BindingInvalid`.
pub fn validate_terminal(
    terminal: ConnectorTerminal,
    ready: ConnectorReady,
    child_to_service_limit: u64,
    service_to_child_limit: u64,
) -> (r: Result<(), ConnectorProcessError>)
    ensures
        r is Ok <==> terminal_ok(terminal.model(), ready.model(), child_to_service_limit, service_to_child_limit),
        r matches Err(e) ==> e == ConnectorProcessError::BindingInvalid,
{
    if terminal.child_to_service_bytes > child_to_service_limit || terminal.service_to_child_bytes
        > service_to_child_limit || terminal.active_ns != ready.authenticated_ns || terminal.closed_ns
        < terminal.active_ns {
        Err(ConnectorProcessError::BindingInvalid)
    } else {
        Ok(())
    }
}

/// What the supervisor does with the first report of a spawned connector.
pub enum SetupOutcome {
    /// The connector is ready and bound to this run.
    Ready(ConnectorReady),
    /// The connector failed before the channel; it must be reaped as failed.
    Failed(ConnectorFailure),
}

/// Decides on the first report of a spawned connector: a bound readiness report is
/// accepted, a failure before the channel stage is reported after reaping, and
/// every other report is `Protocol`.
pub fn classify_setup_report(
    report: ConnectorReport,
    execution_id: ExecutionId,
    policy_digest: Sha256Digest,
    process_generation: ConnectorProcessGeneration,
    channel_id: ServiceChannelId,
    expected_setup_binding: Sha256Digest,
) -> (r: Result<SetupOutcome, ConnectorProcessError>)
    ensures
        match report.model() {
            ReportModel::Ready(m) => (r is Ok <==> ready_binding_ok(
                m,
                execution_id.bytes(),
                policy_digest.bytes(),
                process_generation.value(),
                channel_id.bytes(),
                expected_setup_binding.bytes(),
            )) && (r matches Err(e) ==> e == ConnectorProcessError::BindingInvalid),
            ReportModel::Failure(stage, _) => (r is Ok <==> stage != ConnectorFailureStage::Channel) && (
            r matches Err(e) ==> e == ConnectorProcessError::Protocol),
            ReportModel::Terminal(_) => r == Err::<SetupOutcome, ConnectorProcessError>(ConnectorProcessError::Protocol),
        },
        r matches Ok(SetupOutcome::Ready(x)) ==> report == ConnectorReport::Ready(x),
        r matches Ok(SetupOutcome::Failed(f)) ==> report == ConnectorReport::Failure(f),
{
    match report {
        ConnectorReport::Ready(ready) => {
            require_ready_binding(
                ready,
                execution_id,
                policy_digest,
                process_generation,
                channel_id,
                expected_setup_binding,
            )?;
            Ok(SetupOutcome::Ready(ready))
        },
        ConnectorReport::Failure(failure) => {
            if failure.stage() == ConnectorFailureStage::Channel {
                return Err(ConnectorProcessError::Protocol);
            }
            Ok(SetupOutcome::Failed(failure))
        },
        ConnectorReport::Terminal(_) => Err(ConnectorProcessError::Protocol),
    }
}

/// What the supervisor does with the last report of a ready connector.
pub enum TerminalOutcome {
    /// The connector closed within its limits; it must be reaped as successful.
    Closed(ConnectorTerminal),
    /// The connector failed in the channel stage; it must be reaped as failed.
    Failed(ConnectorFailure),
}

/// Decides on the last report of a ready connector: a terminal report is accepted
/// (and later checked against the readiness report), a channel-stage failure is
/// reported after reaping, and every other report is `Protocol`.
pub fn classify_terminal_report(report: ConnectorReport) -> (r: Result<TerminalOutcome, ConnectorProcessError>)
    ensures
        match report.model() {
            ReportModel::Terminal(_) => r is Ok,
            ReportModel::Failure(stage, _) => (r is Ok <==> stage == ConnectorFailureStage::Channel) && (r matches Err(
                e,
            ) ==> e == ConnectorProcessError::Protocol),
            ReportModel::Ready(_) => r == Err::<TerminalOutcome, ConnectorProcessError>(ConnectorProcessError::Protocol),
        },
        r matches Ok(TerminalOutcome::Closed(t)) ==> report == ConnectorReport::Terminal(t),
        r matches Ok(TerminalOutcome::Failed(f)) ==> report == ConnectorReport::Failure(f),
{
    match report {
        ConnectorReport::Terminal(terminal) => Ok(TerminalOutcome::Closed(terminal)),
        ConnectorReport::Failure(failure) => {
            if failure.stage() != ConnectorFailureStage::Channel {
                return Err(ConnectorProcessError::Protocol);
            }
            Ok(TerminalOutcome::Failed(failure))
        },
        ConnectorReport::Ready(_) => Err(ConnectorProcessError::Protocol),
    }
}

/// Accepts an exit status only when it is the one expected; anything else is `Exit`.
pub fn require_exit_status(success: bool, expected_success: bool) -> (r: Result<(), ConnectorProcessError>)
    ensures
        r is Ok <==> success == expected_success,
        r matches Err(e) ==> e == ConnectorProcessError::Exit,
{
    if success == expected_success {
        Ok(())
    } else {
        Err(ConnectorProcessError::Exit)
    }
}

/// The fourteen argument names of the connector bootstrap, in order.
pub open spec fn bootstrap_names() -> Seq<Seq<u8>> {
    seq![
        "--connector-protocol".spec_bytes(),
        "--plan-fd".spec_bytes(),
        "--trust-root-fd".spec_bytes(),
        "--channel-fd".spec_bytes(),
        "--control-fd".spec_bytes(),
        "--execution-id".spec_bytes(),
        "--policy-sha256".spec_bytes(),
        "--process-generation".spec_bytes(),
        "--channel-id".spec_bytes(),
        "--plan-sha256".spec_bytes(),
        "--trust-root-sha256".spec_bytes(),
        "--connector-sha256".spec_bytes(),
        "--runtime-closure-sha256".spec_bytes(),
        "--resolver-configuration-sha256".spec_bytes(),
    ]
}

/// The model of a connector bootstrap.
pub struct BootstrapModel {
    pub plan_fd: u32,
    pub trust_root_fd: u32,
    pub channel_fd: u32,
    pub control_fd: u32,
    pub execution: Seq<u8>,
    pub policy: Seq<u8>,
    pub generation: u64,
    pub channel: Seq<u8>,
    pub plan: Seq<u8>,
    pub trust_root: Seq<u8>,
    pub connector: Seq<u8>,
    pub runtime_closure: Seq<u8>,
    pub resolver_configuration: Seq<u8>,
}

/// An inheritable descriptor: not a standard stream and representable as a C `int`.
pub open spec fn inheritable(fd: u32) -> bool {
    3 <= fd <= i32::MAX
}

/// A bootstrap that a connector can act on: four distinct inheritable descriptors,
/// a version 4 execution identifier, a nonzero generation and channel identity, and
/// 32-byte digests.
pub open spec fn bootstrap_model_ok(m: BootstrapModel) -> bool {
    &&& inheritable(m.plan_fd) && inheritable(m.trust_root_fd) && inheritable(m.channel_fd) && inheritable(
        m.control_fd,
    )
    &&& m.plan_fd != m.trust_root_fd && m.plan_fd != m.channel_fd && m.plan_fd != m.control_fd
    &&& m.trust_root_fd != m.channel_fd && m.trust_root_fd != m.control_fd && m.channel_fd != m.control_fd
    &&& m.execution.len() == 16 && is_version4(m.execution)
    &&& m.generation != 0
    &&& m.channel.len() == 16 && !all_zero(m.channel)
    &&& m.policy.len() == 32 && m.plan.len() == 32 && m.trust_root.len() == 32 && m.connector.len() == 32
    &&& m.runtime_closure.len() == 32 && m.resolver_configuration.len() == 32
}

/// The descriptor a bootstrap value names, when `u32::from_str` reads it and it is inheritable.
pub open spec fn descriptor_value(s: Seq<u8>) -> Option<u32> {
    if unsigned_text(s) && decimal_value(unsigned_digits(s)) <= u32::MAX && inheritable(
        decimal_value(unsigned_digits(s)) as u32,
    ) {
        Some(decimal_value(unsigned_digits(s)) as u32)
    } else {
        None
    }
}

/// The generation a bootstrap value names, when `u64::from_str` reads it.
pub open spec fn generation_value(s: Seq<u8>) -> Option<u64> {
    if unsigned_text(s) && decimal_value(unsigned_digits(s)) <= u64::MAX {
        Some(decimal_value(unsigned_digits(s)) as u64)
    } else {
        None
    }
}

/// The value holds exactly `n` bytes in lower-case hexadecimal.
pub open spec fn hex_of_len(s: Seq<u8>, n: nat) -> bool {
    s.len() == 2 * n && all_lower_hex(s)
}

/// The names of the bootstrap are in place.
pub open spec fn bootstrap_names_match(args: Seq<Seq<u8>>) -> bool {
    forall|k: int| 0 <= k < 14 ==> #[trigger] args[2 * k] == bootstrap_names()[k]
}

/// The header of a bootstrap: 28 arguments, every name in place, and protocol 1.
pub open spec fn bootstrap_header_ok(args: Seq<Seq<u8>>) -> bool {
    args.len() == 28 && bootstrap_names_match(args) && args[1] == "1".spec_bytes()
}

/// The four descriptor values read as inheritable descriptors.
pub open spec fn bootstrap_descriptors_ok(args: Seq<Seq<u8>>) -> bool {
    &&& descriptor_value(args[3]) is Some
    &&& descriptor_value(args[5]) is Some
    &&& descriptor_value(args[7]) is Some
    &&& descriptor_value(args[9]) is Some
}

/// The six digest values are 32 bytes of lower-case hexadecimal each.
pub open spec fn bootstrap_digests_ok(args: Seq<Seq<u8>>) -> bool {
    &&& hex_of_len(args[13], 32)
    &&& hex_of_len(args[19], 32)
    &&& hex_of_len(args[21], 32)
    &&& hex_of_len(args[23], 32)
    &&& hex_of_len(args[25], 32)
    &&& hex_of_len(args[27], 32)
}

/// Every value of the bootstrap reads as its kind and names what a connector can act
/// on: four distinct inheritable descriptors, a version 4 execution identifier, a
/// nonzero generation, a nonzero channel identity and six 32-byte digests.
pub open spec fn bootstrap_values_ok(args: Seq<Seq<u8>>) -> bool {
    &&& bootstrap_descriptors_ok(args)
    &&& descriptors_distinct(bootstrap_candidate(args))
    &&& bootstrap_digests_ok(args)
    &&& hex_of_len(args[11], 16) && is_version4(hex_decode(args[11]))
    &&& generation_value(args[15]) matches Some(g) && g != 0
    &&& hex_of_len(args[17], 16) && !all_zero(hex_decode(args[17]))
}

/// The four descriptors of a model are pairwise distinct.
pub open spec fn descriptors_distinct(m: BootstrapModel) -> bool {
    &&& m.plan_fd != m.trust_root_fd && m.plan_fd != m.channel_fd && m.plan_fd != m.control_fd
    &&& m.trust_root_fd != m.channel_fd && m.trust_root_fd != m.control_fd && m.channel_fd != m.control_fd
}

/// The model that the values of 28 arguments spell, whether or not it is valid.
pub open spec fn bootstrap_candidate(args: Seq<Seq<u8>>) -> BootstrapModel {
    BootstrapModel {
        plan_fd: descriptor_value(args[3])->0,
        trust_root_fd: descriptor_value(args[5])->0,
        channel_fd: descriptor_value(args[7])->0,
        control_fd: descriptor_value(args[9])->0,
        execution: hex_decode(args[11]),
        policy: hex_decode(args[13]),
        generation: generation_value(args[15])->0,
        channel: hex_decode(args[17]),
        plan: hex_decode(args[19]),
        trust_root: hex_decode(args[21]),
        connector: hex_decode(args[23]),
        runtime_closure: hex_decode(args[25]),
        resolver_configuration: hex_decode(args[27]),
    }
}

/// The bootstrap that 28 arguments denote, if they denote one.
pub open spec fn bootstrap_of(args: Seq<Seq<u8>>) -> Option<BootstrapModel> {
    if bootstrap_header_ok(args) && bootstrap_values_ok(args) {
        Some(bootstrap_candidate(args))
    } else {
        None
    }
}

/// The 28 bootstrap arguments of a model: each name followed by its value in decimal
/// or lower-case hexadecimal.
pub open spec fn bootstrap_argument_bytes(m: BootstrapModel) -> Seq<Seq<u8>> {
    let n = bootstrap_names();
    seq![
        n[0], "1".spec_bytes(),
        n[1], decimal_text(m.plan_fd as nat),
        n[2], decimal_text(m.trust_root_fd as nat),
        n[3], decimal_text(m.channel_fd as nat),
        n[4], decimal_text(m.control_fd as nat),
        n[5], lower_hex(m.execution),
        n[6], lower_hex(m.policy),
        n[7], decimal_text(m.generation as nat),
        n[8], lower_hex(m.channel),
        n[9], lower_hex(m.plan),
        n[10], lower_hex(m.trust_root),
        n[11], lower_hex(m.connector),
        n[12], lower_hex(m.runtime_closure),
        n[13], lower_hex(m.resolver_configuration),
    ]
}

/// Contains the closed inherited-descriptor bootstrap for the connector binary.
#[derive(Clone, Copy, Debug, PartialEq, Eq)]
pub struct ConnectorBootstrap {
    plan_descriptor: u32,
    trust_root_descriptor: u32,
    channel_descriptor: u32,
    control_descriptor: u32,
    execution_id: ExecutionId,
    policy_digest: Sha256Digest,
    process_generation: ConnectorProcessGeneration,
    channel_id: ServiceChannelId,
    plan_digest: Sha256Digest,
    trust_root_digest: Sha256Digest,
    connector_digest: Sha256Digest,
    runtime_closure_digest: Sha256Digest,
    resolver_configuration_digest: Sha256Digest,
}

impl ConnectorBootstrap {
    /// The model of this bootstrap.
    pub closed spec fn model(self) -> BootstrapModel {
        BootstrapModel {
            plan_fd: self.plan_descriptor,
            trust_root_fd: self.trust_root_descriptor,
            channel_fd: self.channel_descriptor,
            control_fd: self.control_descriptor,
            execution: self.execution_id.bytes(),
            policy: self.policy_digest.bytes(),
            generation: self.process_generation.value(),
            channel: self.channel_id.bytes(),
            plan: self.plan_digest.bytes(),
            trust_root: self.trust_root_digest.bytes(),
            connector: self.connector_digest.bytes(),
            runtime_closure: self.runtime_closure_digest.bytes(),
            resolver_configuration: self.resolver_configuration_digest.bytes(),
        }
    }

    #[verifier::type_invariant]
    closed spec fn descriptors_ok(self) -> bool {
        let m = self.model();
        &&& inheritable(m.plan_fd) && inheritable(m.trust_root_fd) && inheritable(m.channel_fd) && inheritable(
            m.control_fd,
        )
        &&& m.plan_fd != m.trust_root_fd && m.plan_fd != m.channel_fd && m.plan_fd != m.control_fd
        &&& m.trust_root_fd != m.channel_fd && m.trust_root_fd != m.control_fd && m.channel_fd != m.control_fd
    }

    /// Assembles a bootstrap from four descriptors and the identities it binds;
    /// a standard-stream, unrepresentable or repeated descriptor is `BootstrapInvalid`.
    pub fn new(
        plan_descriptor: u32,
        trust_root_descriptor: u32,
        channel_descriptor: u32,
        control_descriptor: u32,
        execution_id: ExecutionId,
        policy_digest: Sha256Digest,
        process_generation: ConnectorProcessGeneration,
        channel_id: ServiceChannelId,
        plan_digest: Sha256Digest,
        trust_root_digest: Sha256Digest,
        connector_digest: Sha256Digest,
        runtime_closure_digest: Sha256Digest,
        resolver_configuration_digest: Sha256Digest,
    ) -> (r: Result<Self, ConnectorProcessError>)
        ensures
            r is Ok <==> {
                &&& inheritable(plan_descriptor) && inheritable(trust_root_descriptor) && inheritable(
                    channel_descriptor,
                ) && inheritable(control_descriptor)
                &&& plan_descriptor != trust_root_descriptor && plan_descriptor != channel_descriptor
                    && plan_descriptor != control_descriptor && trust_root_descriptor != channel_descriptor
                    && trust_root_descriptor != control_descriptor && channel_descriptor != control_descriptor
            },
            r matches Ok(b) ==> b.model() == (BootstrapModel {
                plan_fd: plan_descriptor,
                trust_root_fd: trust_root_descriptor,
                channel_fd: channel_descriptor,
                control_fd: control_descriptor,
                execution: execution_id.bytes(),
                policy: policy_digest.bytes(),
                generation: process_generation.value(),
                channel: channel_id.bytes(),
                plan: plan_digest.bytes(),
                trust_root: trust_root_digest.bytes(),
                connector: connector_digest.bytes(),
                runtime_closure: runtime_closure_digest.bytes(),
                resolver_configuration: resolver_configuration_digest.bytes(),
            }),
            r matches Err(e) ==> e == ConnectorProcessError::BootstrapInvalid,
    {
        let fds = [plan_descriptor, trust_root_descriptor, channel_descriptor, control_descriptor];
        let mut k: usize = 0;
        while k < 4
            invariant
                k <= 4,
                fds@ == seq![plan_descriptor, trust_root_descriptor, channel_descriptor, control_descriptor],
                forall|j: int| 0 <= j < k ==> inheritable(#[trigger] fds@[j]),
            decreases 4 - k,
        {
            if fds[k] < 3 || fds[k] > 0x7fff_ffff {
                return Err(ConnectorProcessError::BootstrapInvalid);
            }
            k = k + 1;
        }
        assert(inheritable(fds@[0]) && inheritable(fds@[1]) && inheritable(fds@[2]) && inheritable(fds@[3]));
        if plan_descriptor == trust_root_descriptor || plan_descriptor == channel_descriptor || plan_descriptor
            == control_descriptor || trust_root_descriptor == channel_descriptor || trust_root_descriptor
            == control_descriptor || channel_descriptor == control_descriptor {
            return Err(ConnectorProcessError::BootstrapInvalid);
        }
        Ok(
            ConnectorBootstrap {
                plan_descriptor,
                trust_root_descriptor,
                channel_descriptor,
                control_descriptor,
                execution_id,
                policy_digest,
                process_generation,
                channel_id,
                plan_digest,
                trust_root_digest,
                connector_digest,
                runtime_closure_digest,
                resolver_configuration_digest,
            },
        )
    }

    /// Returns the inherited plan descriptor.
    pub fn plan_descriptor(self) -> (r: u32)
        ensures
            r == self.model().plan_fd,
    {
        self.plan_descriptor
    }

    /// Returns the inherited trust-root descriptor.
    pub fn trust_root_descriptor(self) -> (r: u32)
        ensures
            r == self.model().trust_root_fd,
    {
        self.trust_root_descriptor
    }

    /// Returns the inherited private data-channel descriptor.
    pub fn channel_descriptor(self) -> (r: u32)
        ensures
            r == self.model().channel_fd,
    {
        self.channel_descriptor
    }

    /// Returns the inherited private control-channel descriptor.
    pub fn control_descriptor(self) -> (r: u32)
        ensures
            r == self.model().control_fd,
    {
        self.control_descriptor
    }

    /// Returns the echoed execution identifier.
    pub fn execution_id(self) -> (r: ExecutionId)
        ensures
            r.bytes() == self.model().execution,
    {
        self.execution_id
    }

    /// Returns the echoed policy digest.
    pub fn policy_digest(self) -> (r: Sha256Digest)
        ensures
            r.bytes() == self.model().policy,
    {
        self.policy_digest
    }

    /// Returns the supervisor generation.
    pub fn process_generation(self) -> (r: ConnectorProcessGeneration)
        ensures
            r.value() == self.model().generation,
    {
        self.process_generation
    }

    /// Returns the private channel identifier.
    pub fn channel_id(self) -> (r: ServiceChannelId)
        ensures
            r.bytes() == self.model().channel,
    {
        self.channel_id
    }

    /// Returns the expected plan digest.
    pub fn plan_digest(self) -> (r: Sha256Digest)
        ensures
            r.bytes() == self.model().plan,
    {
        self.plan_digest
    }

    /// Returns the expected trust-root digest.
    pub fn trust_root_digest(self) -> (r: Sha256Digest)
        ensures
            r.bytes() == self.model().trust_root,
    {
        self.trust_root_digest
    }

    /// Returns the setup binding this bootstrap commits the connector to.
    pub fn setup_binding(self) -> (r: Sha256Digest)
        ensures
            r.bytes() == sha256(
                setup_binding_bytes(
                    self.model().execution,
                    self.model().policy,
                    self.model().generation,
                    self.model().channel,
                    self.model().plan,
                    self.model().trust_root,
                    self.model().connector,
                    self.model().runtime_closure,
                    self.model().resolver_configuration,
                ),
            ),
    {
        setup_binding_digest(
            self.execution_id,
            self.policy_digest,
            self.process_generation,
            self.channel_id,
            self.plan_digest,
            self.trust_root_digest,
            self.connector_digest,
            self.runtime_closure_digest,
            self.resolver_configuration_digest,
        )
    }
}

fn parse_descriptor(value: &String) -> (r: Result<u32, ConnectorProcessError>)
    ensures
        r is Ok <==> descriptor_value(string_bytes(*value)) is Some,
        r matches Ok(fd) ==> Some(fd) == descriptor_value(string_bytes(*value)),
        r matches Err(e) ==> e == ConnectorProcessError::BootstrapInvalid,
{
    match crate::text::parse_unsigned_u32(value.as_str().as_bytes()) {
        Some(fd) => if fd >= 3 && fd <= 0x7fff_ffff {
            Ok(fd)
        } else {
            Err(ConnectorProcessError::BootstrapInvalid)
        },
        None => Err(ConnectorProcessError::BootstrapInvalid),
    }
}

fn parse_hex_array(value: &String, n: usize) -> (r: Result<Vec<u8>, ConnectorProcessError>)
    ensures
        r is Ok <==> hex_of_len(string_bytes(*value), n as nat),
        r matches Ok(b) ==> b@ == hex_decode(string_bytes(*value)) && b@.len() == n,
        r matches Err(e) ==> e == ConnectorProcessError::BootstrapInvalid,
{
    match crate::text::decode_lower_hex(value.as_str().as_bytes(), n) {
        Some(bytes) => Ok(bytes),
        None => Err(ConnectorProcessError::BootstrapInvalid),
    }
}

fn parse_digest(value: &String) -> (r: Result<Sha256Digest, ConnectorProcessError>)
    ensures
        r is Ok <==> hex_of_len(string_bytes(*value), 32),
        r matches Ok(d) ==> d.bytes() == hex_decode(string_bytes(*value)),
        r matches Err(e) ==> e == ConnectorProcessError::BootstrapInvalid,
{
    let bytes = parse_hex_array(value, 32)?;
    Ok(Sha256Digest::from_bytes(array32_at(bytes.as_slice(), 0)))
}

fn check_bootstrap_header(arguments: &[String]) -> (r: bool)
    ensures
        r == bootstrap_header_ok(string_models(arguments@)),
{
    let ghost args = string_models(arguments@);
    if arguments.len() != CONNECTOR_BOOTSTRAP_ARGUMENTS {
        return false;
    }
    let names: [&str; 14] = [
        "--connector-protocol",
        "--plan-fd",
        "--trust-root-fd",
        "--channel-fd",
        "--control-fd",
        "--execution-id",
        "--policy-sha256",
        "--process-generation",
        "--channel-id",
        "--plan-sha256",
        "--trust-root-sha256",
        "--connector-sha256",
        "--runtime-closure-sha256",
        "--resolver-configuration-sha256",
    ];
    proof {
        assert(strs_bytes(names@) =~= bootstrap_names());
    }
    let mut k: usize = 0;
    while k < 14
        invariant
            k <= 14,
            arguments@.len() == 28,
            args == string_models(arguments@),
            strs_bytes(names@) == bootstrap_names(),
            forall|j: int| 0 <= j < k ==> args[2 * j] == #[trigger] bootstrap_names()[j],
        decreases 14 - k,
    {
        if !crate::text::bytes_equal(arguments[2 * k].as_str().as_bytes(), names[k].as_bytes()) {
            proof {
                assert(args[2 * k] != bootstrap_names()[k as int]);
            }
            return false;
        }
        proof {
            assert(args[2 * k] == strs_bytes(names@)[k as int]);
        }
        k = k + 1;
    }
    assert(bootstrap_names_match(args));
    crate::text::bytes_equal(arguments[1].as_str().as_bytes(), "1".as_bytes())
}

fn parse_bootstrap_descriptors(arguments: &[String]) -> (r: Result<[u32; 4], ConnectorProcessError>)
    requires
        arguments@.len() == 28,
    ensures
        r is Ok <==> bootstrap_descriptors_ok(string_models(arguments@)),
        r matches Ok(d) ==> {
            let c = bootstrap_candidate(string_models(arguments@));
            d@ == seq![c.plan_fd, c.trust_root_fd, c.channel_fd, c.control_fd]
        },
        r matches Err(e) ==> e == ConnectorProcessError::BootstrapInvalid,
{
    let plan = parse_descriptor(&arguments[3])?;
    let trust_root = parse_descriptor(&arguments[5])?;
    let channel = parse_descriptor(&arguments[7])?;
    let control = parse_descriptor(&arguments[9])?;
    Ok([plan, trust_root, channel, control])
}

fn parse_bootstrap_digests(arguments: &[String]) -> (r: Result<[Sha256Digest; 6], ConnectorProcessError>)
    requires
        arguments@.len() == 28,
    ensures
        r is Ok <==> bootstrap_digests_ok(string_models(arguments@)),
        r matches Ok(d) ==> {
            let c = bootstrap_candidate(string_models(arguments@));
            &&& d@[0].bytes() == c.policy
            &&& d@[1].bytes() == c.plan
            &&& d@[2].bytes() == c.trust_root
            &&& d@[3].bytes() == c.connector
            &&& d@[4].bytes() == c.runtime_closure
            &&& d@[5].bytes() == c.resolver_configuration
        },
        r matches Err(e) ==> e == ConnectorProcessError::BootstrapInvalid,
{
    let policy = parse_digest(&arguments[13])?;
    let plan = parse_digest(&arguments[19])?;
    let trust_root = parse_digest(&arguments[21])?;
    let connector = parse_digest(&arguments[23])?;
    let runtime_closure = parse_digest(&arguments[25])?;
    let resolver_configuration = parse_digest(&arguments[27])?;
    Ok([policy, plan, trust_root, connector, runtime_closure, resolver_configuration])
}

fn parse_bootstrap_execution(value: &String) -> (r: Result<ExecutionId, ConnectorProcessError>)
    ensures
        r is Ok <==> (hex_of_len(string_bytes(*value), 16) && is_version4(hex_decode(string_bytes(*value)))),
        r matches Ok(id) ==> id.bytes() == hex_decode(string_bytes(*value)),
        r matches Err(e) ==> e == ConnectorProcessError::BootstrapInvalid,
{
    let bytes = parse_hex_array(value, 16)?;
    proof {
        assert(bytes@.subrange(0, 16) =~= bytes@);
    }
    match ExecutionId::from_bytes(array16_at(bytes.as_slice(), 0)) {
        Some(id) => Ok(id),
        None => Err(ConnectorProcessError::BootstrapInvalid),
    }
}

fn parse_bootstrap_generation(value: &String) -> (r: Result<ConnectorProcessGeneration, ConnectorProcessError>)
    ensures
        r is Ok <==> (generation_value(string_bytes(*value)) matches Some(g) && g != 0),
        r matches Ok(g) ==> Some(g.value()) == generation_value(string_bytes(*value)),
        r matches Err(e) ==> e == ConnectorProcessError::BootstrapInvalid,
{
    match crate::text::parse_unsigned_u64(value.as_str().as_bytes()) {
        Some(g) => match ConnectorProcessGeneration::new(g) {
            Ok(generation) => Ok(generation),
            Err(_) => Err(ConnectorProcessError::BootstrapInvalid),
        },
        None => Err(ConnectorProcessError::BootstrapInvalid),
    }
}

fn parse_bootstrap_channel(value: &String) -> (r: Result<ServiceChannelId, ConnectorProcessError>)
    ensures
        r is Ok <==> (hex_of_len(string_bytes(*value), 16) && !all_zero(hex_decode(string_bytes(*value)))),
        r matches Ok(c) ==> c.bytes() == hex_decode(string_bytes(*value)),
        r matches Err(e) ==> e == ConnectorProcessError::BootstrapInvalid,
{
    let bytes = parse_hex_array(value, 16)?;
    proof {
        assert(bytes@.subrange(0, 16) =~= bytes@);
    }
    match ServiceChannelId::new(array16_at(bytes.as_slice(), 0)) {
        Ok(id) => Ok(id),
        Err(_) => Err(ConnectorProcessError::BootstrapInvalid),
    }
}

fn assemble_bootstrap(
    d: [u32; 4],
    execution_id: ExecutionId,
    process_generation: ConnectorProcessGeneration,
    g: [Sha256Digest; 6],
    channel_id: ServiceChannelId,
    Ghost(c): Ghost<BootstrapModel>,
) -> (r: Result<ConnectorBootstrap, ConnectorProcessError>)
    requires
        d@ == seq![c.plan_fd, c.trust_root_fd, c.channel_fd, c.control_fd],
        inheritable(c.plan_fd) && inheritable(c.trust_root_fd) && inheritable(c.channel_fd) && inheritable(
            c.control_fd,
        ),
        execution_id.bytes() == c.execution,
        process_generation.value() == c.generation,
        channel_id.bytes() == c.channel,
        g@[0].bytes() == c.policy,
        g@[1].bytes() == c.plan,
        g@[2].bytes() == c.trust_root,
        g@[3].bytes() == c.connector,
        g@[4].bytes() == c.runtime_closure,
        g@[5].bytes() == c.resolver_configuration,
    ensures
        r is Ok <==> descriptors_distinct(c),
        r matches Ok(b) ==> b.model() == c,
        r matches Err(e) ==> e == ConnectorProcessError::BootstrapInvalid,
{
    ConnectorBootstrap::new(
        d[0],
        d[1],
        d[2],
        d[3],
        execution_id,
        g[0],
        process_generation,
        channel_id,
        g[1],
        g[2],
        g[3],
        g[4],
        g[5],
    )
}

/// Parses the exact connector bootstrap vocabulary; anything else is `BootstrapInvalid`.
pub fn parse_connector_bootstrap(arguments: &[String]) -> (r: Result<ConnectorBootstrap, ConnectorProcessError>)
    ensures
        r is Ok <==> bootstrap_of(string_models(arguments@)) is Some,
        r matches Ok(b) ==> Some(b.model()) == bootstrap_of(string_models(arguments@)),
        r matches Err(e) ==> e == ConnectorProcessError::BootstrapInvalid,
{
    let ghost args = string_models(arguments@);
    if !check_bootstrap_header(arguments) {
        return Err(ConnectorProcessError::BootstrapInvalid);
    }
    assert(args[11] == string_bytes(arguments@[11]));
    assert(args[15] == string_bytes(arguments@[15]));
    assert(args[17] == string_bytes(arguments@[17]));
    let execution = parse_bootstrap_execution(&arguments[11]);
    let generation = parse_bootstrap_generation(&arguments[15]);
    let descriptors = parse_bootstrap_descriptors(arguments);
    let digests = parse_bootstrap_digests(arguments);
    let channel = parse_bootstrap_channel(&arguments[17]);
    match (execution, generation, descriptors, digests, channel) {
        (Ok(execution_id), Ok(process_generation), Ok(d), Ok(g), Ok(channel_id)) => {
            assemble_bootstrap(d, execution_id, process_generation, g, channel_id, Ghost(bootstrap_candidate(args)))
        },
        _ => Err(ConnectorProcessError::BootstrapInvalid),
    }
}

/// Renders a bootstrap as its 28 arguments.
pub fn bootstrap_arguments(bootstrap: ConnectorBootstrap) -> (r: Vec<String>)
    ensures
        string_models(r@) == bootstrap_argument_bytes(bootstrap.model()),
        bootstrap_model_ok(bootstrap.model()),
{
    proof {
        use_type_invariant(&bootstrap);
        reveal_strlit("1");
    reveal_strlit("--connector-protocol");
    reveal_strlit("--plan-fd");
    reveal_strlit("--trust-root-fd");
    reveal_strlit("--channel-fd");
    reveal_strlit("--control-fd");
    reveal_strlit("--execution-id");
    reveal_strlit("--policy-sha256");
    reveal_strlit("--process-generation");
    reveal_strlit("--channel-id");
    reveal_strlit("--plan-sha256");
    reveal_strlit("--trust-root-sha256");
    reveal_strlit("--connector-sha256");
    reveal_strlit("--runtime-closure-sha256");
    reveal_strlit("--resolver-configuration-sha256");
    }
    let mut out: Vec<String> = Vec::new();
    out.push("--connector-protocol".to_owned());
    out.push("1".to_owned());
    out.push("--plan-fd".to_owned());
    out.push(crate::text::decimal_string(bootstrap.plan_descriptor as u64));
    out.push("--trust-root-fd".to_owned());
    out.push(crate::text::decimal_string(bootstrap.trust_root_descriptor as u64));
    out.push("--channel-fd".to_owned());
    out.push(crate::text::decimal_string(bootstrap.channel_descriptor as u64));
    out.push("--control-fd".to_owned());
    out.push(crate::text::decimal_string(bootstrap.control_descriptor as u64));
    out.push("--execution-id".to_owned());
    out.push(crate::text::hex_string(bootstrap.execution_id.as_bytes()));
    out.push("--policy-sha256".to_owned());
    out.push(crate::text::hex_string(bootstrap.policy_digest.as_bytes()));
    out.push("--process-generation".to_owned());
    out.push(crate::text::decimal_string(bootstrap.process_generation.get()));
    out.push("--channel-id".to_owned());
    out.push(crate::text::hex_string(bootstrap.channel_id.as_bytes()));
    out.push("--plan-sha256".to_owned());
    out.push(crate::text::hex_string(bootstrap.plan_digest.as_bytes()));
    out.push("--trust-root-sha256".to_owned());
    out.push(crate::text::hex_string(bootstrap.trust_root_digest.as_bytes()));
    out.push("--connector-sha256".to_owned());
    out.push(crate::text::hex_string(bootstrap.connector_digest.as_bytes()));
    out.push("--runtime-closure-sha256".to_owned());
    out.push(crate::text::hex_string(bootstrap.runtime_closure_digest.as_bytes()));
    out.push("--resolver-configuration-sha256".to_owned());
    out.push(crate::text::hex_string(bootstrap.resolver_configuration_digest.as_bytes()));
    proof {
        assert(string_models(out@) =~= bootstrap_argument_bytes(bootstrap.model()));
    }
    out
}

/// Every bootstrap reads back from its own arguments.
#[verifier::rlimit(40)]
pub proof fn lemma_bootstrap_round_trip(m: BootstrapModel)
    requires
        bootstrap_model_ok(m),
    ensures
        bootstrap_of(bootstrap_argument_bytes(m)) == Some(m),
{
    let a = bootstrap_argument_bytes(m);
    assert(a.len() == 28);
    assert forall|k: int| 0 <= k < 14 implies a[2 * k] == #[trigger] bootstrap_names()[k] by {
        if k == 0 {} else if k == 1 {} else if k == 2 {} else if k == 3 {} else if k == 4 {} else if k == 5 {}
        else if k == 6 {} else if k == 7 {} else if k == 8 {} else if k == 9 {} else if k == 10 {}
        else if k == 11 {} else if k == 12 {} else {}
    }
    lemma_decimal_round_trip(m.plan_fd as nat);
    lemma_decimal_round_trip(m.trust_root_fd as nat);
    lemma_decimal_round_trip(m.channel_fd as nat);
    lemma_decimal_round_trip(m.control_fd as nat);
    lemma_decimal_round_trip(m.generation as nat);
    lemma_lower_hex_round_trip(m.execution);
    lemma_lower_hex_round_trip(m.policy);
    lemma_lower_hex_round_trip(m.channel);
    lemma_lower_hex_round_trip(m.plan);
    lemma_lower_hex_round_trip(m.trust_root);
    lemma_lower_hex_round_trip(m.connector);
    lemma_lower_hex_round_trip(m.runtime_closure);
    lemma_lower_hex_round_trip(m.resolver_configuration);
    let r = bootstrap_of(a)->0;
    assert(r == m);
}


/// The connector engine's resolution failures.
#[derive(Clone, Copy, Debug, PartialEq, Eq, Structural)]
pub enum DnsError {
    /// No secure randomness was available for query identifiers.
    RandomUnavailable,
    /// No configured resolver could be reached.
    ResolverUnavailable,
    /// A query could not be sent.
    RequestFailed,
    /// A response could not be received.
    ResponseFailed,
    /// A response exceeded the message size limit.
    ResponseTooLarge,
    /// The resolution exceeded its message limit.
    MessageLimit,
    /// The resolution deadline passed.
    Deadline,
    /// A response was malformed.
    MalformedResponse,
    /// A resolver reported a failure.
    ResolverFailure,
    /// The alias chain was invalid.
    InvalidCnameChain,
    /// The answer set was invalid.
    InvalidAnswerSet,
    /// Every answer had expired.
    ExpiredAnswer,
}

/// The failure code a resolution failure is reported under.
pub open spec fn dns_code(e: DnsError) -> u8 {
    match e {
        DnsError::RandomUnavailable => 1,
        DnsError::ResolverUnavailable => 2,
        DnsError::RequestFailed => 3,
        DnsError::ResponseFailed => 4,
        DnsError::ResponseTooLarge => 5,
        DnsError::MessageLimit => 6,
        DnsError::Deadline => 7,
        DnsError::MalformedResponse => 8,
        DnsError::ResolverFailure => 9,
        DnsError::InvalidCnameChain => 10,
        DnsError::InvalidAnswerSet => 11,
        DnsError::ExpiredAnswer => 12,
    }
}

/// Returns the failure code of a resolution failure.
pub fn dns_error_code(error: DnsError) -> (r: u8)
    ensures
        r == dns_code(error),
{
    match error {
        DnsError::RandomUnavailable => 1,
        DnsError::ResolverUnavailable => 2,
        DnsError::RequestFailed => 3,
        DnsError::ResponseFailed => 4,
        DnsError::ResponseTooLarge => 5,
        DnsError::MessageLimit => 6,
        DnsError::Deadline => 7,
        DnsError::MalformedResponse => 8,
        DnsError::ResolverFailure => 9,
        DnsError::InvalidCnameChain => 10,
        DnsError::InvalidAnswerSet => 11,
        DnsError::ExpiredAnswer => 12,
    }
}

/// The connector engine's authentication and session failures.
#[derive(Clone, Copy, Debug, PartialEq, Eq, Structural)]
pub enum TlsError {
    /// No endpoint accepted a connection.
    EndpointUnavailable,
    /// The endpoint attempt limit was reached.
    EndpointAttemptLimit,
    /// An endpoint attempt exceeded its deadline.
    EndpointAttemptDeadline,
    /// Session setup exceeded its deadline.
    SetupDeadline,
    /// The selected answer expired.
    AnswerExpired,
    /// The trust-root set was invalid.
    TrustRootSetInvalid,
    /// The service name was invalid.
    ServiceNameInvalid,
    /// The certificate did not name the service.
    ServiceNameMismatch,
    /// The TLS configuration was invalid.
    Configuration,
    /// Peer authentication failed.
    Authentication,
    /// Session resumption was attempted.
    Resumption,
    /// The negotiated version was not allowed.
    Version,
    /// The handshake exceeded its byte limit.
    HandshakeLimit,
    /// The peer presented no certificate chain.
    CertificateChainMissing,
    /// The session exceeded its deadline.
    SessionDeadline,
    /// Child-to-service traffic exceeded its limit.
    ChildToServiceLimit,
    /// Service-to-child traffic exceeded its limit.
    ServiceToChildLimit,
    /// Session input or output failed.
    SessionIo,
    /// The peer closed the session early.
    PrematureClose,
}

/// The failure code an authentication failure is reported under.
pub open spec fn tls_code(e: TlsError) -> u8 {
    match e {
        TlsError::EndpointUnavailable => 1,
        TlsError::EndpointAttemptLimit => 2,
        TlsError::EndpointAttemptDeadline => 3,
        TlsError::SetupDeadline => 4,
        TlsError::AnswerExpired => 5,
        TlsError::TrustRootSetInvalid => 6,
        TlsError::ServiceNameInvalid => 7,
        TlsError::ServiceNameMismatch => 8,
        TlsError::Configuration => 9,
        TlsError::Authentication => 10,
        TlsError::Resumption => 11,
        TlsError::Version => 12,
        TlsError::HandshakeLimit => 13,
        TlsError::CertificateChainMissing => 14,
        TlsError::SessionDeadline => 15,
        TlsError::ChildToServiceLimit => 16,
        TlsError::ServiceToChildLimit => 17,
        TlsError::SessionIo => 18,
        TlsError::PrematureClose => 19,
    }
}

/// Returns the failure code of an authentication failure.
pub fn tls_error_code(error: TlsError) -> (r: u8)
    ensures
        r == tls_code(error),
{
    match error {
        TlsError::EndpointUnavailable => 1,
        TlsError::EndpointAttemptLimit => 2,
        TlsError::EndpointAttemptDeadline => 3,
        TlsError::SetupDeadline => 4,
        TlsError::AnswerExpired => 5,
        TlsError::TrustRootSetInvalid => 6,
        TlsError::ServiceNameInvalid => 7,
        TlsError::ServiceNameMismatch => 8,
        TlsError::Configuration => 9,
        TlsError::Authentication => 10,
        TlsError::Resumption => 11,
        TlsError::Version => 12,
        TlsError::HandshakeLimit => 13,
        TlsError::CertificateChainMissing => 14,
        TlsError::SessionDeadline => 15,
        TlsError::ChildToServiceLimit => 16,
        TlsError::ServiceToChildLimit => 17,
        TlsError::SessionIo => 18,
        TlsError::PrematureClose => 19,
    }
}

/// The connector engine's private-channel failures.
#[derive(Clone, Copy, Debug, PartialEq, Eq, Structural)]
pub enum ChannelError {
    /// The host is not Linux.
    UnsupportedOperatingSystem,
    /// The channel configuration was invalid.
    Configuration,
    /// Reading from the child failed.
    ChildRead,
    /// Writing to the child failed.
    ChildWrite,
    /// The authenticated session failed.
    Tls(TlsError),
}

/// The failure code a channel failure is reported under: session failures are
/// offset by 32 from their authentication codes.
pub open spec fn channel_code(e: ChannelError) -> u8 {
    match e {
        ChannelError::UnsupportedOperatingSystem => 1,
        ChannelError::Configuration => 2,
        ChannelError::ChildRead => 3,
        ChannelError::ChildWrite => 4,
        ChannelError::Tls(t) => (32 + tls_code(t)) as u8,
    }
}

/// Returns the failure code of a channel failure.
pub fn channel_error_code(error: ChannelError) -> (r: u8)
    ensures
        r == channel_code(error),
{
    match error {
        ChannelError::UnsupportedOperatingSystem => 1,
        ChannelError::Configuration => 2,
        ChannelError::ChildRead => 3,
        ChannelError::ChildWrite => 4,
        ChannelError::Tls(t) => 32u8.saturating_add(tls_error_code(t)),
    }
}

/// Every engine failure maps to a code its stage accepts, and distinct failures of one
/// stage map to distinct codes, so a supervisor can tell them apart.
pub proof fn lemma_engine_codes_valid_and_distinct(
    d1: DnsError,
    d2: DnsError,
    t1: TlsError,
    t2: TlsError,
    c1: ChannelError,
    c2: ChannelError,
)
    ensures
        failure_code_valid(ConnectorFailureStage::Resolution, dns_code(d1)),
        failure_code_valid(ConnectorFailureStage::Authentication, tls_code(t1)),
        failure_code_valid(ConnectorFailureStage::Channel, channel_code(c1)),
        dns_code(d1) == dns_code(d2) ==> d1 == d2,
        tls_code(t1) == tls_code(t2) ==> t1 == t2,
        channel_code(c1) == channel_code(c2) ==> c1 == c2,
{
}

/// The point at which a connector run stopped before its terminal report.
#[derive(Clone, Copy, Debug, PartialEq, Eq)]
pub enum ConnectorRunFailure {
    /// An inherited descriptor could not be taken.
    Inherit(ConnectorProcessError),
    /// The plan could not be read.
    PlanRead(ConnectorProcessError),
    /// The trust-root set could not be read.
    TrustRootRead(ConnectorProcessError),
    /// The plan or trust-root bytes do not match their bootstrap digests.
    DigestMismatch,
    /// The plan does not parse.
    PlanInvalid,
    /// Service resolution failed.
    Resolution(DnsError),
    /// Authentication failed.
    Authentication(TlsError),
    /// The private channel failed.
    Channel(ChannelError),
}

/// The failure report a connector sends, and the error it returns, when a run stops.
pub open spec fn run_failure_outcome(f: ConnectorRunFailure) -> (ConnectorFailureStage, u8, ConnectorProcessError) {
    match f {
        ConnectorRunFailure::Inherit(e) => (ConnectorFailureStage::Bootstrap, 1, e),
        ConnectorRunFailure::PlanRead(e) => (ConnectorFailureStage::Bootstrap, 2, e),
        ConnectorRunFailure::TrustRootRead(e) => (ConnectorFailureStage::Bootstrap, 3, e),
        ConnectorRunFailure::DigestMismatch => (
            ConnectorFailureStage::Bootstrap,
            4,
            ConnectorProcessError::ArtifactIdentityDrift,
        ),
        ConnectorRunFailure::PlanInvalid => (ConnectorFailureStage::Bootstrap, 5, ConnectorProcessError::PlanInvalid),
        ConnectorRunFailure::Resolution(d) => (
            ConnectorFailureStage::Resolution,
            dns_code(d),
            ConnectorProcessError::Engine,
        ),
        ConnectorRunFailure::Authentication(t) => (
            ConnectorFailureStage::Authentication,
            tls_code(t),
            ConnectorProcessError::Engine,
        ),
        ConnectorRunFailure::Channel(c) => (
            ConnectorFailureStage::Channel,
            channel_code(c),
            ConnectorProcessError::Engine,
        ),
    }
}

/// Decides what a connector reports and returns when its run stops at `failure`;
/// the report always carries a code its stage accepts.
pub fn connector_run_failure(failure: ConnectorRunFailure) -> (r: (ConnectorFailure, ConnectorProcessError))
    ensures
        r.0.stage_of() == run_failure_outcome(failure).0,
        r.0.code_of() == run_failure_outcome(failure).1,
        r.1 == run_failure_outcome(failure).2,
{
    let (stage, code, error) = match failure {
        ConnectorRunFailure::Inherit(e) => (ConnectorFailureStage::Bootstrap, 1u8, e),
        ConnectorRunFailure::PlanRead(e) => (ConnectorFailureStage::Bootstrap, 2u8, e),
        ConnectorRunFailure::TrustRootRead(e) => (ConnectorFailureStage::Bootstrap, 3u8, e),
        ConnectorRunFailure::DigestMismatch => (
            ConnectorFailureStage::Bootstrap,
            4u8,
            ConnectorProcessError::ArtifactIdentityDrift,
        ),
        ConnectorRunFailure::PlanInvalid => (ConnectorFailureStage::Bootstrap, 5u8, ConnectorProcessError::PlanInvalid),
        ConnectorRunFailure::Resolution(d) => (
            ConnectorFailureStage::Resolution,
            dns_error_code(d),
            ConnectorProcessError::Engine,
        ),
        ConnectorRunFailure::Authentication(t) => (
            ConnectorFailureStage::Authentication,
            tls_error_code(t),
            ConnectorProcessError::Engine,
        ),
        ConnectorRunFailure::Channel(c) => (
            ConnectorFailureStage::Channel,
            channel_error_code(c),
            ConnectorProcessError::Engine,
        ),
    };
    (ConnectorFailure { stage, code }, error)
}


/// The readiness report a connector builds from its bootstrap and an authenticated
/// session: the echoed identities, the setup binding of the bootstrap, and the
/// session's observations.
pub open spec fn ready_observation_model(
    b: BootstrapModel,
    dns_observation: Seq<u8>,
    endpoint: EndpointModel,
    tls_version: TlsVersion,
    tls_implementation: Seq<u8>,
    certificate_chain: Seq<u8>,
    handshake_bytes: u64,
    authenticated_ns: u64,
) -> ReadyModel {
    ReadyModel {
        execution: b.execution,
        policy: b.policy,
        generation: b.generation,
        channel: b.channel,
        setup_binding: sha256(
            setup_binding_bytes(
                b.execution,
                b.policy,
                b.generation,
                b.channel,
                b.plan,
                b.trust_root,
                b.connector,
                b.runtime_closure,
                b.resolver_configuration,
            ),
        ),
        dns_observation,
        endpoint,
        tls_version,
        tls_implementation,
        certificate_chain,
        handshake_bytes,
        authenticated_ns,
    }
}

/// Builds the readiness report of an authenticated session; the selected endpoint
/// carries the plan's service port, which is never zero.
pub fn ready_observation(
    bootstrap: ConnectorBootstrap,
    dns_observation_digest: Sha256Digest,
    selected_endpoint: ServiceEndpoint,
    tls_version: TlsVersion,
    tls_implementation_digest: Sha256Digest,
    certificate_chain_digest: Sha256Digest,
    handshake_bytes: u64,
    authenticated_ns: u64,
) -> (r: ConnectorReady)
    requires
        selected_endpoint.model().port != 0,
    ensures
        r.model() == ready_observation_model(
            bootstrap.model(),
            dns_observation_digest.bytes(),
            selected_endpoint.model(),
            tls_version,
            tls_implementation_digest.bytes(),
            certificate_chain_digest.bytes(),
            handshake_bytes,
            authenticated_ns,
        ),
{
    let setup_binding = bootstrap.setup_binding();
    ConnectorReady {
        execution_id: bootstrap.execution_id,
        policy_digest: bootstrap.policy_digest,
        process_generation: bootstrap.process_generation,
        channel_id: bootstrap.channel_id,
        setup_binding_digest: setup_binding,
        dns_observation_digest,
        selected_endpoint,
        tls_version,
        tls_implementation_digest,
        certificate_chain_digest,
        handshake_bytes,
        authenticated_ns,
    }
}

/// A readiness report that a connector builds from the bootstrap the supervisor gave
/// it passes the supervisor's binding check against that same bootstrap.
pub proof fn lemma_ready_observation_is_bound(
    b: BootstrapModel,
    dns_observation: Seq<u8>,
    endpoint: EndpointModel,
    tls_version: TlsVersion,
    tls_implementation: Seq<u8>,
    certificate_chain: Seq<u8>,
    handshake_bytes: u64,
    authenticated_ns: u64,
)
    requires
        endpoint.port != 0,
    ensures
        ready_binding_ok(
            ready_observation_model(
                b,
                dns_observation,
                endpoint,
                tls_version,
                tls_implementation,
                certificate_chain,
                handshake_bytes,
                authenticated_ns,
            ),
            b.execution,
            b.policy,
            b.generation,
            b.channel,
            sha256(
                setup_binding_bytes(
                    b.execution,
                    b.policy,
                    b.generation,
                    b.channel,
                    b.plan,
                    b.trust_root,
                    b.connector,
                    b.runtime_closure,
                    b.resolver_configuration,
                ),
            ),
        ),
{
}

/// Checks the inherited plan and trust-root bytes against the digests of the bootstrap;
/// a mismatch is `DigestMismatch`.
pub fn require_inherited_artifacts(
    bootstrap: ConnectorBootstrap,
    plan_bytes: &[u8],
    trust_root_bytes: &[u8],
) -> (r: Result<(), ConnectorRunFailure>)
    ensures
        r is Ok <==> (sha256(plan_bytes@) == bootstrap.model().plan && sha256(trust_root_bytes@)
            == bootstrap.model().trust_root),
        r matches Err(f) ==> f == ConnectorRunFailure::DigestMismatch,
{
    let plan = sha256_digest(plan_bytes);
    let trust_root = sha256_digest(trust_root_bytes);
    if !plan.same(&bootstrap.plan_digest) || !trust_root.same(&bootstrap.trust_root_digest) {
        Err(ConnectorRunFailure::DigestMismatch)
    } else {
        Ok(())
    }
}


/// Maps a resolution error met while identifying a service artifact: an
/// unsupported host stays unsupported, drift stays drift, a forbidden kind or an
/// unmeasurable or mismatched identity is `ArtifactIdentity`, and anything else is
/// `ArtifactUnavailable`.
pub fn map_resolution(error: crate::resolve::ResolutionError) -> (r: ConnectorProcessError)
    ensures
        r == match error {
            crate::resolve::ResolutionError::UnsupportedOperatingSystem => ConnectorProcessError::UnsupportedOperatingSystem,
            crate::resolve::ResolutionError::IdentityDrift => ConnectorProcessError::ArtifactIdentityDrift,
            crate::resolve::ResolutionError::ForbiddenFileKind | crate::resolve::ResolutionError::IdentityUnavailable
            | crate::resolve::ResolutionError::IdentityMismatch => ConnectorProcessError::ArtifactIdentity,
            _ => ConnectorProcessError::ArtifactUnavailable,
        },
{
    match error {
        crate::resolve::ResolutionError::UnsupportedOperatingSystem => ConnectorProcessError::UnsupportedOperatingSystem,
        crate::resolve::ResolutionError::IdentityDrift => ConnectorProcessError::ArtifactIdentityDrift,
        crate::resolve::ResolutionError::ForbiddenFileKind | crate::resolve::ResolutionError::IdentityUnavailable
        | crate::resolve::ResolutionError::IdentityMismatch => ConnectorProcessError::ArtifactIdentity,
        _ => ConnectorProcessError::ArtifactUnavailable,
    }
}

/// Checks that a service artifact path is absolute and free of `..` steps; anything
/// else is `ArtifactPath`.
pub fn require_canonical_artifact_path(path: &str) -> (r: Result<(), ConnectorProcessError>)
    ensures
        r is Ok <==> crate::resolve::absolute_without_parent(path.spec_bytes()),
        r matches Err(e) ==> e == ConnectorProcessError::ArtifactPath,
{
    match crate::resolve::require_canonical_absolute_path(path) {
        Ok(()) => Ok(()),
        Err(_) => Err(ConnectorProcessError::ArtifactPath),
    }
}

} // verus!
