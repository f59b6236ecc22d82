//! Construction of version 2 execution plans and decoding of the run-result
//! projection: the closed input vocabulary, its validation, and the deterministic
//! CBOR encoding of a plan.
use vstd::prelude::*;
use vstd::string::StringSliceAdditionalSpecFns;

use crate::cbor::{encode_bounded, entries_of, header_bytes, item_bytes, items_of, lemma_entries_of, lemma_items_of, Item, CborValue};
use crate::launcher::string_models;
use crate::model::{MAX_RESOURCE_BYTES, RESOURCE_QUANTUM};
use crate::probe::canonical_path;
use crate::text::{bytes_equal, bytes_lex_less, lemma_lex_order, lex_less, string_bytes};

verus! {

/// The schema name of a version 2 plan.
pub const PLAN_SCHEMA: &'static str = "proofbound-runtime-plan/2";

/// The schema name of a version 2 run-result projection.
pub const RESULT_SCHEMA: &'static str = "proofbound-runtime-run-result/2";

/// Closed logical inputs for one version 2 execution plan.
#[derive(Clone, Debug, PartialEq, Eq)]
pub struct PlanV2Input {
    pub id: String,
    pub executable: String,
    pub arguments: Vec<String>,
    pub working_directory: String,
    pub read: Vec<String>,
    pub runtime_read: Vec<String>,
    pub write: Vec<String>,
    pub execute: Vec<String>,
    pub environment: Vec<String>,
    pub processes: u32,
    pub wall_time_ms: u64,
    pub stdout_bytes: u64,
    pub stderr_bytes: u64,
    pub memory_bytes: u64,
    pub swap_bytes: u64,
}

/// Closed network-authority inputs for one version 2 execution plan.
#[derive(Clone, Debug, PartialEq, Eq)]
pub enum NetworkAuthorityV2Input {
    /// Denies network access.
    Deny,
    /// Permits one bounded connector-owned authenticated service session.
    AuthenticatedServiceSession(Box<ServiceSessionV2Input>),
}

/// Selects one numeric resolver address.
#[derive(Clone, Debug, PartialEq, Eq)]
pub enum ResolverAddressV2Input {
    /// Contains four IPv4 network-order bytes.
    Ipv4([u8; 4]),
    /// Contains sixteen IPv6 network-order bytes.
    Ipv6([u8; 16]),
}

/// Contains the bounded DNS inputs for one service session.
#[derive(Clone, Debug, PartialEq, Eq)]
pub struct ResolutionV2Input {
    pub address: ResolverAddressV2Input,
    pub port: u16,
    pub configuration: String,
    pub maximum_cname_depth: u16,
    pub maximum_answer_count: u16,
    pub maximum_response_bytes: u64,
    pub resolution_deadline_ms: u64,
    pub attempt_deadline_ms: u64,
}

/// Contains the closed TLS inputs for one service session.
#[derive(Clone, Debug, PartialEq, Eq)]
pub struct TlsV2Input {
    pub trust_root_set: String,
    pub minimum_version: String,
}

/// Contains the bounded session inputs for one service session.
#[derive(Clone, Debug, PartialEq, Eq)]
pub struct ServiceSessionLimitsV2Input {
    pub setup_time_ms: u64,
    pub session_time_ms: u64,
    pub child_to_service_bytes: u64,
    pub service_to_child_bytes: u64,
    pub dns_messages: u16,
    pub endpoint_attempts: u16,
    pub tls_handshake_bytes: u64,
}

/// Identifies an optional service-bound credential source without its value.
#[derive(Clone, Debug, PartialEq, Eq)]
pub struct CredentialSourceV2Input {
    pub id: String,
    pub service: String,
    pub environment: String,
}

/// Contains one complete authenticated-service-session plan input.
#[derive(Clone, Debug, PartialEq, Eq)]
pub struct ServiceSessionV2Input {
    pub service: String,
    pub port: u16,
    pub resolution: ResolutionV2Input,
    pub tls: TlsV2Input,
    pub limits: ServiceSessionLimitsV2Input,
    pub connector_executable: String,
    pub connector_runtime_read: Vec<String>,
    pub child_descriptor: u16,
    pub credential_source: Option<CredentialSourceV2Input>,
}

/// Stable SDK construction and projection errors.
#[derive(Clone, Copy, Debug, PartialEq, Eq, Structural)]
pub enum SdkError {
    /// The plan identifier is not a closed lower-case name.
    PlanId,
    /// The write and execute authority does not have the required shape.
    PlanShape,
    /// A list names one value twice.
    PlanDuplicate,
    /// A text field is empty, holds a NUL byte, or names an invalid variable.
    PlanField,
    /// A runtime read path is not absolute.
    PlanRuntimeRead,
    /// A limit is zero or out of range.
    PlanLimit,
    /// A byte limit is not a multiple of the resource quantum.
    PlanLimitQuantum,
    /// The network authority is not a valid service session.
    PlanNetwork,
    /// The encoded plan does not fit in memory.
    CborBound,
    /// The projection is not JSON.
    ResultMalformed,
    /// The projection has another schema.
    ResultSchema,
    /// The projection has a missing or extra field.
    ResultUnknownField,
    /// A projection field has an invalid value.
    ResultField,
}

/// The stable machine-readable code of each SDK error.
pub open spec fn sdk_error_code(e: SdkError) -> Seq<char> {
    match e {
        SdkError::PlanId => "sdk.plan.id-invalid"@,
        SdkError::PlanShape => "sdk.plan.shape-invalid"@,
        SdkError::PlanDuplicate => "sdk.plan.duplicate"@,
        SdkError::PlanField => "sdk.plan.field-invalid"@,
        SdkError::PlanRuntimeRead => "sdk.plan.runtime-read-not-absolute"@,
        SdkError::PlanLimit => "sdk.plan.limit-invalid"@,
        SdkError::PlanLimitQuantum => "sdk.plan.limit-not-quantized"@,
        SdkError::PlanNetwork => "sdk.plan.network-invalid"@,
        SdkError::CborBound => "sdk.plan.cbor-bound"@,
        SdkError::ResultMalformed => "sdk.result.malformed-json"@,
        SdkError::ResultSchema => "sdk.result.schema-unsupported"@,
        SdkError::ResultUnknownField => "sdk.result.unknown-field"@,
        SdkError::ResultField => "sdk.result.field-invalid"@,
    }
}

impl SdkError {
    /// Returns the stable machine-readable error code.
    pub fn code(self) -> (r: &'static str)
        ensures
            r@ == sdk_error_code(self),
    {
        match self {
            SdkError::PlanId => "sdk.plan.id-invalid",
            SdkError::PlanShape => "sdk.plan.shape-invalid",
            SdkError::PlanDuplicate => "sdk.plan.duplicate",
            SdkError::PlanField => "sdk.plan.field-invalid",
            SdkError::PlanRuntimeRead => "sdk.plan.runtime-read-not-absolute",
            SdkError::PlanLimit => "sdk.plan.limit-invalid",
            SdkError::PlanLimitQuantum => "sdk.plan.limit-not-quantized",
            SdkError::PlanNetwork => "sdk.plan.network-invalid",
            SdkError::CborBound => "sdk.plan.cbor-bound",
            SdkError::ResultMalformed => "sdk.result.malformed-json",
            SdkError::ResultSchema => "sdk.result.schema-unsupported",
            SdkError::ResultUnknownField => "sdk.result.unknown-field",
            SdkError::ResultField => "sdk.result.field-invalid",
        }
    }
}

/// Distinct SDK errors have distinct codes.
pub proof fn lemma_sdk_codes_distinct(a: SdkError, b: SdkError)
    requires
        a != b,
    ensures
        sdk_error_code(a) != sdk_error_code(b),
{
    reveal_strlit("sdk.plan.id-invalid");
    reveal_strlit("sdk.plan.shape-invalid");
    reveal_strlit("sdk.plan.duplicate");
    reveal_strlit("sdk.plan.field-invalid");
    reveal_strlit("sdk.plan.runtime-read-not-absolute");
    reveal_strlit("sdk.plan.limit-invalid");
    reveal_strlit("sdk.plan.limit-not-quantized");
    reveal_strlit("sdk.plan.network-invalid");
    reveal_strlit("sdk.plan.cbor-bound");
    reveal_strlit("sdk.result.malformed-json");
    reveal_strlit("sdk.result.schema-unsupported");
    reveal_strlit("sdk.result.unknown-field");
    reveal_strlit("sdk.result.field-invalid");
    let ca = sdk_error_code(a);
    let cb = sdk_error_code(b);
    if ca.len() == cb.len() {
        assert(ca[11] != cb[11]);
    }
}


/// A lower-case ASCII letter.
pub open spec fn lower(b: u8) -> bool {
    0x61 <= b <= 0x7a
}

/// An ASCII decimal digit.
pub open spec fn digit(b: u8) -> bool {
    0x30 <= b <= 0x39
}

/// A plan identifier: 1 to 128 bytes of lower-case letters, digits, `.`, `_` and
/// `-`, starting and ending with a letter or digit.
pub open spec fn plan_id_ok(s: Seq<u8>) -> bool {
    &&& 1 <= s.len() <= 128
    &&& lower(s[0]) || digit(s[0])
    &&& lower(s.last()) || digit(s.last())
    &&& forall|i: int| 0 <= i < s.len() ==> lower(#[trigger] s[i]) || digit(s[i]) || s[i] == 0x2e || s[i] == 0x5f || s[i] == 0x2d
}

/// A plan identifier is accepted exactly when it has 1 to 128 bytes, begins and
/// ends with a byte of `a`..`z` or `0`..`9`, and holds no byte other than those,
/// `.`, `_` and `-`.
pub proof fn lemma_plan_id_bytes(s: Seq<u8>)
    ensures
        plan_id_ok(s) <==> {
            &&& 1 <= s.len() <= 128
            &&& (0x61 <= s[0] <= 0x7a || 0x30 <= s[0] <= 0x39)
            &&& (0x61 <= s[s.len() - 1] <= 0x7a || 0x30 <= s[s.len() - 1] <= 0x39)
            &&& forall|i: int|
                0 <= i < s.len() ==> (0x61 <= #[trigger] s[i] <= 0x7a || 0x30 <= s[i] <= 0x39 || s[i] == 0x2e
                    || s[i] == 0x5f || s[i] == 0x2d)
        },
{
}

/// Two plan identifiers joined by `.`, `_` or `-` make a plan identifier, as long
/// as the whole stays within 128 bytes.
pub proof fn lemma_plan_id_join(a: Seq<u8>, b: Seq<u8>, separator: u8)
    requires
        plan_id_ok(a),
        plan_id_ok(b),
        separator == 0x2e || separator == 0x5f || separator == 0x2d,
        a.len() + 1 + b.len() <= 128,
    ensures
        plan_id_ok(a + seq![separator] + b),
{
    let j = a + seq![separator] + b;
    assert(j[0] == a[0]);
    assert(j.last() == b.last());
    assert forall|i: int| 0 <= i < j.len() implies lower(#[trigger] j[i]) || digit(j[i]) || j[i] == 0x2e
        || j[i] == 0x5f || j[i] == 0x2d by {
        if i < a.len() {
            assert(j[i] == a[i]);
        } else if i > a.len() {
            assert(j[i] == b[i - a.len() - 1]);
        }
    }
}

/// Nonempty text without a NUL byte.
pub open spec fn required_text_ok(s: Seq<u8>) -> bool {
    s.len() > 0 && !s.contains(0u8)
}

/// Some text of a list holds a NUL byte.
pub open spec fn any_nul(l: Seq<Seq<u8>>) -> bool {
    exists|i: int| 0 <= i < l.len() && #[trigger] l[i].contains(0u8)
}

/// No text occurs twice in a list.
pub open spec fn distinct(l: Seq<Seq<u8>>) -> bool {
    forall|i: int, j: int| 0 <= i < j < l.len() ==> l[i] != l[j]
}

/// The error of one authority list: a NUL byte, then a repeated entry.
pub open spec fn list_error(l: Seq<Seq<u8>>) -> Option<SdkError> {
    if any_nul(l) {
        Some(SdkError::PlanField)
    } else if !distinct(l) {
        Some(SdkError::PlanDuplicate)
    } else {
        None
    }
}

/// A variable name: nonempty and without `=`.
pub open spec fn env_name_ok(s: Seq<u8>) -> bool {
    s.len() > 0 && !s.contains(0x3du8)
}

/// Text that starts with `/`, which is what makes a path absolute.
pub open spec fn absolute(s: Seq<u8>) -> bool {
    s.len() > 0 && s[0] == 0x2f
}

/// Why a plan input is invalid, checked in order: the identifier; the executable and
/// working directory; NUL bytes in arguments; each of the read, runtime-read, write,
/// execute and environment lists; the variable names; absolute runtime reads; the
/// single write and execute entries, the latter the executable; the limits; and
/// their quantization.
pub open spec fn plan_input_error(input: PlanV2Input) -> Option<SdkError> {
    let read = string_models(input.read@);
    let runtime_read = string_models(input.runtime_read@);
    let write = string_models(input.write@);
    let execute = string_models(input.execute@);
    let environment = string_models(input.environment@);
    if !plan_id_ok(string_bytes(input.id)) {
        Some(SdkError::PlanId)
    } else if !required_text_ok(string_bytes(input.executable)) || !required_text_ok(
        string_bytes(input.working_directory),
    ) || any_nul(string_models(input.arguments@)) {
        Some(SdkError::PlanField)
    } else if list_error(read) is Some {
        list_error(read)
    } else if list_error(runtime_read) is Some {
        list_error(runtime_read)
    } else if list_error(write) is Some {
        list_error(write)
    } else if list_error(execute) is Some {
        list_error(execute)
    } else if list_error(environment) is Some {
        list_error(environment)
    } else if exists|i: int| 0 <= i < environment.len() && !env_name_ok(#[trigger] environment[i]) {
        Some(SdkError::PlanField)
    } else if exists|i: int| 0 <= i < runtime_read.len() && !absolute(#[trigger] runtime_read[i]) {
        Some(SdkError::PlanRuntimeRead)
    } else if write.len() != 1 || execute.len() != 1 || execute[0] != string_bytes(input.executable) {
        Some(SdkError::PlanShape)
    } else if input.processes == 0 || input.wall_time_ms == 0 || input.memory_bytes < RESOURCE_QUANTUM
        || input.memory_bytes > MAX_RESOURCE_BYTES || input.swap_bytes > MAX_RESOURCE_BYTES {
        Some(SdkError::PlanLimit)
    } else if input.memory_bytes % RESOURCE_QUANTUM != 0 || input.swap_bytes % RESOURCE_QUANTUM != 0 {
        Some(SdkError::PlanLimitQuantum)
    } else {
        None
    }
}

fn contains_byte_of(s: &String, b: u8) -> (r: bool)
    ensures
        r == string_bytes(*s).contains(b),
{
    crate::text::contains_byte(s.as_str().as_bytes(), b)
}

fn any_nul_in(list: &Vec<String>) -> (r: bool)
    ensures
        r == any_nul(string_models(list@)),
{
    let mut k: usize = 0;
    while k < list.len()
        invariant
            k <= list@.len(),
            forall|j: int| 0 <= j < k ==> !(#[trigger] string_models(list@)[j]).contains(0u8),
        decreases list@.len() - k,
    {
        if contains_byte_of(&list[k], 0) {
            assert(string_models(list@)[k as int].contains(0u8));
            return true;
        }
        k = k + 1;
    }
    false
}

fn distinct_in(list: &Vec<String>) -> (r: bool)
    ensures
        r == distinct(string_models(list@)),
{
    let ghost l = string_models(list@);
    let mut i: usize = 0;
    while i < list.len()
        invariant
            i <= list@.len(),
            l == string_models(list@),
            forall|a: int, b: int| 0 <= a < b < l.len() && a < i ==> l[a] != l[b],
        decreases list@.len() - i,
    {
        let mut j: usize = i + 1;
        while j < list.len()
            invariant
                i < j <= list@.len(),
                l == string_models(list@),
                forall|a: int, b: int| 0 <= a < b < l.len() && a < i ==> l[a] != l[b],
                forall|b: int| i < b < j ==> l[i as int] != l[b],
            decreases list@.len() - j,
        {
            if bytes_equal(list[i].as_str().as_bytes(), list[j].as_str().as_bytes()) {
                assert(l[i as int] == string_bytes(list@[i as int]));
                assert(l[j as int] == string_bytes(list@[j as int]));
                assert(l[i as int] == l[j as int]);
                return false;
            }
            j = j + 1;
        }
        i = i + 1;
    }
    assert forall|a: int, b: int| 0 <= a < b < l.len() implies l[a] != l[b] by {
        assert(a < i);
    }
    true
}

fn list_check(list: &Vec<String>) -> (r: Result<(), SdkError>)
    ensures
        match list_error(string_models(list@)) {
            Some(e) => r == Err::<(), SdkError>(e),
            None => r is Ok,
        },
{
    if any_nul_in(list) {
        return Err(SdkError::PlanField);
    }
    if !distinct_in(list) {
        return Err(SdkError::PlanDuplicate);
    }
    Ok(())
}

fn plan_id_valid(s: &String) -> (r: bool)
    ensures
        r == plan_id_ok(string_bytes(*s)),
{
    let b = s.as_str().as_bytes();
    if b.len() == 0 || b.len() > 128 {
        return false;
    }
    let first = b[0];
    let last = b[b.len() - 1];
    if !((0x61 <= first && first <= 0x7a) || (0x30 <= first && first <= 0x39)) || !((0x61 <= last && last <= 0x7a) || (
    0x30 <= last && last <= 0x39)) {
        return false;
    }
    let mut k: usize = 0;
    while k < b.len()
        invariant
            k <= b@.len(),
            b@ == string_bytes(*s),
            1 <= b@.len() <= 128,
            lower(b@[0]) || digit(b@[0]),
            lower(b@.last()) || digit(b@.last()),
            forall|i: int| 0 <= i < k ==> lower(#[trigger] b@[i]) || digit(b@[i]) || b@[i] == 0x2e || b@[i] == 0x5f || b@[i] == 0x2d,
        decreases b@.len() - k,
    {
        let c = b[k];
        if !((0x61 <= c && c <= 0x7a) || (0x30 <= c && c <= 0x39) || c == 0x2e || c == 0x5f || c == 0x2d) {
            return false;
        }
        k = k + 1;
    }
    true
}

fn required_text_valid(s: &String) -> (r: bool)
    ensures
        r == required_text_ok(string_bytes(*s)),
{
    s.as_str().as_bytes().len() > 0 && !contains_byte_of(s, 0)
}

fn all_env_names_valid(list: &Vec<String>) -> (r: bool)
    ensures
        r == !(exists|i: int| 0 <= i < string_models(list@).len() && !env_name_ok(#[trigger] string_models(list@)[i])),
{
    let mut k: usize = 0;
    while k < list.len()
        invariant
            k <= list@.len(),
            forall|j: int| 0 <= j < k ==> env_name_ok(#[trigger] string_models(list@)[j]),
        decreases list@.len() - k,
    {
        if list[k].as_str().as_bytes().len() == 0 || contains_byte_of(&list[k], 0x3d) {
            assert(!env_name_ok(string_models(list@)[k as int]));
            return false;
        }
        k = k + 1;
    }
    true
}

fn all_absolute(list: &Vec<String>) -> (r: bool)
    ensures
        r == !(exists|i: int| 0 <= i < string_models(list@).len() && !absolute(#[trigger] string_models(list@)[i])),
{
    let mut k: usize = 0;
    while k < list.len()
        invariant
            k <= list@.len(),
            forall|j: int| 0 <= j < k ==> absolute(#[trigger] string_models(list@)[j]),
        decreases list@.len() - k,
    {
        let b = list[k].as_str().as_bytes();
        if b.len() == 0 || b[0] != 0x2f {
            assert(!absolute(string_models(list@)[k as int]));
            return false;
        }
        k = k + 1;
    }
    true
}

/// Validates a plan input; the first failing check of `plan_input_error` is the error.
pub fn validate_plan_input(input: &PlanV2Input) -> (r: Result<(), SdkError>)
    ensures
        match plan_input_error(*input) {
            Some(e) => r == Err::<(), SdkError>(e),
            None => r is Ok,
        },
{
    if !plan_id_valid(&input.id) {
        return Err(SdkError::PlanId);
    }
    if !required_text_valid(&input.executable) || !required_text_valid(&input.working_directory) || any_nul_in(
        &input.arguments,
    ) {
        return Err(SdkError::PlanField);
    }
    list_check(&input.read)?;
    list_check(&input.runtime_read)?;
    list_check(&input.write)?;
    list_check(&input.execute)?;
    list_check(&input.environment)?;
    if !all_env_names_valid(&input.environment) {
        return Err(SdkError::PlanField);
    }
    if !all_absolute(&input.runtime_read) {
        return Err(SdkError::PlanRuntimeRead);
    }
    if input.write.len() != 1 || input.execute.len() != 1 || !bytes_equal(
        input.execute[0].as_str().as_bytes(),
        input.executable.as_str().as_bytes(),
    ) {
        return Err(SdkError::PlanShape);
    }
    if input.processes == 0 || input.wall_time_ms == 0 || input.memory_bytes < RESOURCE_QUANTUM || input.memory_bytes
        > MAX_RESOURCE_BYTES || input.swap_bytes > MAX_RESOURCE_BYTES {
        return Err(SdkError::PlanLimit);
    }
    if input.memory_bytes % RESOURCE_QUANTUM != 0 || input.swap_bytes % RESOURCE_QUANTUM != 0 {
        return Err(SdkError::PlanLimitQuantum);
    }
    Ok(())
}


/// A byte of a DNS label: a lower-case letter, a digit or `-`.
pub open spec fn label_byte(b: u8) -> bool {
    lower(b) || digit(b) || b == 0x2d
}

/// The number of label bytes that end at position `k`: the length of the current label.
pub open spec fn label_run(s: Seq<u8>, k: int) -> int
    decreases k,
{
    if k <= 0 || k > s.len() {
        0
    } else if s[k - 1] == 0x2e {
        0
    } else {
        label_run(s, k - 1) + 1
    }
}

/// A service name: 1 to 253 bytes of dot-separated labels, each 1 to 63 lower-case
/// letters, digits and inner hyphens, not all digits and dots (which would be an
/// address), and without a trailing dot.
pub open spec fn service_name_ok(s: Seq<u8>) -> bool {
    &&& 1 <= s.len() <= 253
    &&& s[0] != 0x2e && s[0] != 0x2d
    &&& s.last() != 0x2e && s.last() != 0x2d
    &&& !(forall|i: int| 0 <= i < s.len() ==> digit(#[trigger] s[i]) || s[i] == 0x2e)
    &&& forall|i: int| 0 <= i < s.len() ==> label_byte(#[trigger] s[i]) || s[i] == 0x2e
    &&& forall|i: int| 0 < i < s.len() && #[trigger] s[i] == 0x2e ==> s[i - 1] != 0x2e && s[i - 1] != 0x2d
    &&& forall|i: int| 0 <= i < s.len() - 1 && #[trigger] s[i] == 0x2e ==> s[i + 1] != 0x2d
    &&& forall|k: int| 0 <= k <= s.len() ==> #[trigger] label_run(s, k) <= 63
}

fn service_name_valid(name: &String) -> (r: bool)
    ensures
        r == service_name_ok(string_bytes(*name)),
{
    let s = name.as_str().as_bytes();
    if s.len() == 0 || s.len() > 253 {
        return false;
    }
    if s[0] == 0x2e || s[0] == 0x2d || s[s.len() - 1] == 0x2e || s[s.len() - 1] == 0x2d {
        return false;
    }
    let mut all_numeric = true;
    let mut run: usize = 0;
    let mut k: usize = 0;
    while k < s.len()
        invariant
            k <= s@.len(),
            s@ == string_bytes(*name),
            1 <= s@.len() <= 253,
            s@[0] != 0x2e && s@[0] != 0x2d,
            s@.last() != 0x2e && s@.last() != 0x2d,
            run == label_run(s@, k as int),
            all_numeric == forall|i: int| 0 <= i < k ==> digit(#[trigger] s@[i]) || s@[i] == 0x2e,
            forall|i: int| 0 <= i < k ==> label_byte(#[trigger] s@[i]) || s@[i] == 0x2e,
            forall|i: int| 0 < i < k && #[trigger] s@[i] == 0x2e ==> s@[i - 1] != 0x2e && s@[i - 1] != 0x2d,
            forall|i: int| 0 <= i < k - 1 && #[trigger] s@[i] == 0x2e ==> s@[i + 1] != 0x2d,
            forall|j: int| 0 <= j <= k ==> #[trigger] label_run(s@, j) <= 63,
        decreases s@.len() - k,
    {
        let c = s[k];
        if !((0x61 <= c && c <= 0x7a) || (0x30 <= c && c <= 0x39) || c == 0x2d || c == 0x2e) {
            return false;
        }
        if c == 0x2e {
            if k > 0 && (s[k - 1] == 0x2e || s[k - 1] == 0x2d) {
                return false;
            }
            run = 0;
        } else {
            if k > 0 && s[k - 1] == 0x2e && c == 0x2d {
                assert(s@[k - 1] == 0x2e && s@[(k - 1) + 1] == 0x2d);
                return false;
            }
            if run >= 63 {
                assert(label_run(s@, k + 1) > 63);
                return false;
            }
            run = run + 1;
        }
        if !((0x30 <= c && c <= 0x39) || c == 0x2e) {
            all_numeric = false;
        }
        k = k + 1;
    }
    !all_numeric
}

/// A path as the plan requires it: without a NUL byte, absolute, and either the root
/// or proper names each after one slash.
pub open spec fn plan_path_ok(s: Seq<u8>) -> bool {
    !s.contains(0u8) && canonical_path(s)
}

fn plan_path_valid(path: &String) -> (r: bool)
    ensures
        r == plan_path_ok(string_bytes(*path)),
{
    !contains_byte_of(path, 0) && crate::probe::is_canonical_path(path.as_str())
}

/// A credential source identifier: 1 to 128 bytes of lower-case letters, digits,
/// `.` and `-`, starting with a letter and ending with a letter or digit.
pub open spec fn credential_id_ok(s: Seq<u8>) -> bool {
    &&& 1 <= s.len() <= 128
    &&& lower(s[0])
    &&& lower(s.last()) || digit(s.last())
    &&& forall|i: int| 0 <= i < s.len() ==> lower(#[trigger] s[i]) || digit(s[i]) || s[i] == 0x2e || s[i] == 0x2d
}

fn credential_id_valid(id: &String) -> (r: bool)
    ensures
        r == credential_id_ok(string_bytes(*id)),
{
    let b = id.as_str().as_bytes();
    if b.len() == 0 || b.len() > 128 {
        return false;
    }
    let first = b[0];
    let last = b[b.len() - 1];
    if !(0x61 <= first && first <= 0x7a) || !((0x61 <= last && last <= 0x7a) || (0x30 <= last && last <= 0x39)) {
        return false;
    }
    let mut k: usize = 0;
    while k < b.len()
        invariant
            k <= b@.len(),
            b@ == string_bytes(*id),
            1 <= b@.len() <= 128,
            lower(b@[0]),
            lower(b@.last()) || digit(b@.last()),
            forall|i: int| 0 <= i < k ==> lower(#[trigger] b@[i]) || digit(b@[i]) || b@[i] == 0x2e || b@[i] == 0x2d,
        decreases b@.len() - k,
    {
        let c = b[k];
        if !((0x61 <= c && c <= 0x7a) || (0x30 <= c && c <= 0x39) || c == 0x2e || c == 0x2d) {
            return false;
        }
        k = k + 1;
    }
    true
}

/// The session settings that must hold for a service session, before its runtime
/// reads are checked for repeats.
pub open spec fn session_settings_ok(s: ServiceSessionV2Input) -> bool {
    let r = s.resolution;
    &&& service_name_ok(string_bytes(s.service))
    &&& s.port != 0 && r.port != 0
    &&& plan_path_ok(string_bytes(r.configuration))
    &&& r.maximum_cname_depth != 0 && r.maximum_answer_count != 0 && r.maximum_response_bytes != 0
    &&& r.resolution_deadline_ms != 0 && r.attempt_deadline_ms != 0
    &&& r.attempt_deadline_ms <= r.resolution_deadline_ms
    &&& plan_path_ok(string_bytes(s.tls.trust_root_set))
    &&& (string_bytes(s.tls.minimum_version) == "tls-1.2".spec_bytes() || string_bytes(s.tls.minimum_version)
        == "tls-1.3".spec_bytes())
    &&& plan_path_ok(string_bytes(s.connector_executable))
    &&& forall|i: int|
        0 <= i < s.connector_runtime_read@.len() ==> plan_path_ok(#[trigger] string_models(s.connector_runtime_read@)[i])
    &&& s.child_descriptor >= 3
}

/// The session limits that must hold: every limit nonzero, at least two DNS messages,
/// no more endpoint attempts than answers, and resolution within the setup time.
pub open spec fn session_limits_ok(s: ServiceSessionV2Input) -> bool {
    let l = s.limits;
    &&& l.setup_time_ms != 0 && l.session_time_ms != 0
    &&& l.child_to_service_bytes != 0 && l.service_to_child_bytes != 0
    &&& l.dns_messages >= 2 && l.endpoint_attempts != 0 && l.tls_handshake_bytes != 0
    &&& l.endpoint_attempts <= s.resolution.maximum_answer_count
    &&& s.resolution.resolution_deadline_ms <= l.setup_time_ms
}

/// A credential source, if any, is bound to the session's service and to a variable
/// the plan passes through.
pub open spec fn credential_ok(plan: PlanV2Input, s: ServiceSessionV2Input) -> bool {
    match s.credential_source {
        None => true,
        Some(c) => credential_id_ok(string_bytes(c.id)) && string_bytes(c.service) == string_bytes(s.service)
            && string_models(plan.environment@).contains(string_bytes(c.environment)),
    }
}

/// Why a network authority is invalid for a plan: a denial is always valid; a
/// session must have valid settings, distinct runtime reads, valid limits and a
/// valid credential source, in that order.
pub open spec fn network_error(plan: PlanV2Input, network: NetworkAuthorityV2Input) -> Option<SdkError> {
    match network {
        NetworkAuthorityV2Input::Deny => None,
        NetworkAuthorityV2Input::AuthenticatedServiceSession(s) => if !session_settings_ok(*s) {
            Some(SdkError::PlanNetwork)
        } else if !distinct(string_models(s.connector_runtime_read@)) {
            Some(SdkError::PlanDuplicate)
        } else if !session_limits_ok(*s) || !credential_ok(plan, *s) {
            Some(SdkError::PlanNetwork)
        } else {
            None
        },
    }
}

fn all_plan_paths(list: &Vec<String>) -> (r: bool)
    ensures
        r == forall|i: int| 0 <= i < list@.len() ==> plan_path_ok(#[trigger] string_models(list@)[i]),
{
    let mut k: usize = 0;
    while k < list.len()
        invariant
            k <= list@.len(),
            forall|j: int| 0 <= j < k ==> plan_path_ok(#[trigger] string_models(list@)[j]),
        decreases list@.len() - k,
    {
        if !plan_path_valid(&list[k]) {
            assert(!plan_path_ok(string_models(list@)[k as int]));
            return false;
        }
        k = k + 1;
    }
    true
}

fn contains_string(list: &Vec<String>, value: &String) -> (r: bool)
    ensures
        r == string_models(list@).contains(string_bytes(*value)),
{
    let mut k: usize = 0;
    while k < list.len()
        invariant
            k <= list@.len(),
            forall|j: int| 0 <= j < k ==> string_models(list@)[j] != string_bytes(*value),
        decreases list@.len() - k,
    {
        if bytes_equal(list[k].as_str().as_bytes(), value.as_str().as_bytes()) {
            assert(string_models(list@)[k as int] == string_bytes(*value));
            return true;
        }
        k = k + 1;
    }
    false
}

fn session_settings_valid(s: &ServiceSessionV2Input) -> (r: bool)
    ensures
        r == session_settings_ok(*s),
{
    proof {
        reveal_strlit("tls-1.2");
        reveal_strlit("tls-1.3");
    }
    let r = &s.resolution;
    service_name_valid(&s.service) && s.port != 0 && r.port != 0 && plan_path_valid(&r.configuration)
        && r.maximum_cname_depth != 0 && r.maximum_answer_count != 0 && r.maximum_response_bytes != 0
        && r.resolution_deadline_ms != 0 && r.attempt_deadline_ms != 0 && r.attempt_deadline_ms
        <= r.resolution_deadline_ms && plan_path_valid(&s.tls.trust_root_set) && (bytes_equal(
        s.tls.minimum_version.as_str().as_bytes(),
        "tls-1.2".as_bytes(),
    ) || bytes_equal(s.tls.minimum_version.as_str().as_bytes(), "tls-1.3".as_bytes())) && plan_path_valid(
        &s.connector_executable,
    ) && all_plan_paths(&s.connector_runtime_read) && s.child_descriptor >= 3
}

/// Validates a network authority for a plan; the first failing check of
/// `network_error` is the error.
pub fn validate_network_input(plan: &PlanV2Input, network: &NetworkAuthorityV2Input) -> (r: Result<(), SdkError>)
    ensures
        match network_error(*plan, *network) {
            Some(e) => r == Err::<(), SdkError>(e),
            None => r is Ok,
        },
{
    let s = match network {
        NetworkAuthorityV2Input::Deny => {
            return Ok(());
        },
        NetworkAuthorityV2Input::AuthenticatedServiceSession(s) => s,
    };
    if !session_settings_valid(s) {
        return Err(SdkError::PlanNetwork);
    }
    if !distinct_in(&s.connector_runtime_read) {
        return Err(SdkError::PlanDuplicate);
    }
    let l = &s.limits;
    if l.setup_time_ms == 0 || l.session_time_ms == 0 || l.child_to_service_bytes == 0 || l.service_to_child_bytes
        == 0 || l.dns_messages < 2 || l.endpoint_attempts == 0 || l.tls_handshake_bytes == 0 || l.endpoint_attempts
        > s.resolution.maximum_answer_count || s.resolution.resolution_deadline_ms > l.setup_time_ms {
        return Err(SdkError::PlanNetwork);
    }
    match &s.credential_source {
        None => Ok(()),
        Some(c) => if !credential_id_valid(&c.id) || !bytes_equal(
            c.service.as_str().as_bytes(),
            s.service.as_str().as_bytes(),
        ) || !contains_string(&plan.environment, &c.environment) {
            Err(SdkError::PlanNetwork)
        } else {
            Ok(())
        },
    }
}


/// The deterministic-CBOR encoding of a text map key.
pub open spec fn encoded_key(k: Seq<u8>) -> Seq<u8> {
    header_bytes(3, k.len() as u64) + k
}

/// Key `a` sorts before key `b`: their encodings are in byte-wise order.
pub open spec fn key_before(a: Seq<u8>, b: Seq<u8>) -> bool {
    lex_less(encoded_key(a), encoded_key(b))
}

/// Inserts an entry into entries sorted by key, before the first entry whose key
/// sorts after its own.
#[verifier::opaque]
pub open spec fn insert_entry(sorted: Seq<(Seq<u8>, Item)>, e: (Seq<u8>, Item)) -> Seq<(Seq<u8>, Item)>
    decreases sorted.len(),
{
    if sorted.len() == 0 {
        seq![e]
    } else if key_before(e.0, sorted[0].0) {
        seq![e] + sorted
    } else {
        seq![sorted[0]] + insert_entry(sorted.subrange(1, sorted.len() as int), e)
    }
}

/// Map entries in deterministic-CBOR order: sorted by the encodings of their keys.
#[verifier::opaque]
pub open spec fn sort_entries(entries: Seq<(Seq<u8>, Item)>) -> Seq<(Seq<u8>, Item)>
    decreases entries.len(),
{
    if entries.len() == 0 {
        Seq::empty()
    } else {
        insert_entry(sort_entries(entries.drop_last()), entries.last())
    }
}

proof fn lemma_insert_entry_at(sorted: Seq<(Seq<u8>, Item)>, e: (Seq<u8>, Item), p: int)
    requires
        0 <= p <= sorted.len(),
        forall|q: int| 0 <= q < p ==> !key_before(e.0, #[trigger] sorted[q].0),
        p < sorted.len() ==> key_before(e.0, sorted[p].0),
    ensures
        insert_entry(sorted, e) == sorted.take(p).push(e) + sorted.skip(p),
    decreases p,
{
    reveal(insert_entry);
    if p == 0 {
        if sorted.len() == 0 {
            assert(sorted.take(p).push(e) + sorted.skip(p) =~= seq![e]);
        } else {
            assert(sorted.take(p).push(e) + sorted.skip(p) =~= seq![e] + sorted);
        }
    } else {
        let rest = sorted.subrange(1, sorted.len() as int);
        assert forall|q: int| 0 <= q < p - 1 implies !key_before(e.0, #[trigger] rest[q].0) by {
            assert(rest[q] == sorted[q + 1]);
        }
        lemma_insert_entry_at(rest, e, p - 1);
        assert(!key_before(e.0, sorted[0].0));
        assert(seq![sorted[0]] + (rest.take(p - 1).push(e) + rest.skip(p - 1)) =~= sorted.take(p).push(e) + sorted.skip(p));
    }
}

/// No entry's key sorts before the key of an entry ahead of it.
pub open spec fn keys_in_order(s: Seq<(Seq<u8>, Item)>) -> bool {
    forall|i: int, j: int| 0 <= i < j < s.len() ==> !key_before(#[trigger] s[j].0, #[trigger] s[i].0)
}

proof fn lemma_insert_entry_keeps_order(sorted: Seq<(Seq<u8>, Item)>, e: (Seq<u8>, Item))
    requires
        keys_in_order(sorted),
    ensures
        keys_in_order(insert_entry(sorted, e)),
        insert_entry(sorted, e).to_multiset() == sorted.to_multiset().insert(e),
    decreases sorted.len(),
{
    broadcast use vstd::seq_lib::group_to_multiset_ensures;
    broadcast use vstd::seq_lib::lemma_multiset_commutative;
    broadcast use vstd::multiset::group_multiset_axioms;

    reveal(insert_entry);
    if sorted.len() == 0 {
        assert(seq![e] =~= sorted.push(e));
    } else if key_before(e.0, sorted[0].0) {
        let r = seq![e] + sorted;
        assert(r =~= sorted.insert(0, e));
        assert forall|i: int, j: int| 0 <= i < j < r.len() implies !key_before(#[trigger] r[j].0, #[trigger] r[i].0) by {
            if i == 0 {
                lemma_lex_order(encoded_key(r[j].0), encoded_key(e.0), encoded_key(sorted[0].0));
                lemma_lex_order(encoded_key(sorted[0].0), encoded_key(sorted[0].0), encoded_key(sorted[0].0));
                if j - 1 > 0 {
                    assert(!key_before(sorted[j - 1].0, sorted[0].0));
                }
            } else {
                assert(r[i] == sorted[i - 1] && r[j] == sorted[j - 1]);
            }
        }
    } else {
        let rest = sorted.subrange(1, sorted.len() as int);
        assert forall|i: int, j: int| 0 <= i < j < rest.len() implies !key_before(#[trigger] rest[j].0, #[trigger] rest[i].0) by {
            assert(rest[i] == sorted[i + 1] && rest[j] == sorted[j + 1]);
        }
        lemma_insert_entry_keeps_order(rest, e);
        let t = insert_entry(rest, e);
        let r = seq![sorted[0]] + t;
        assert(sorted =~= seq![sorted[0]] + rest);
        assert forall|i: int, j: int| 0 <= i < j < r.len() implies !key_before(#[trigger] r[j].0, #[trigger] r[i].0) by {
            if i == 0 {
                let x = t[j - 1];
                assert(t.contains(x));
                assert(t.to_multiset().count(x) > 0);
                if x != e {
                    assert(rest.to_multiset().count(x) > 0);
                    assert(rest.contains(x));
                    let k = choose|k: int| 0 <= k < rest.len() && rest[k] == x;
                    assert(sorted[k + 1] == x);
                }
            } else {
                assert(r[i] == t[i - 1] && r[j] == t[j - 1]);
            }
        }
    }
}

/// Deterministic-CBOR map order: the entries of an encoded map come out ordered by
/// the bytes of their encoded keys, and they are exactly the entries given.
pub proof fn lemma_sort_entries_canonical(entries: Seq<(Seq<u8>, Item)>)
    ensures
        keys_in_order(sort_entries(entries)),
        sort_entries(entries).to_multiset() == entries.to_multiset(),
    decreases entries.len(),
{
    broadcast use vstd::seq_lib::group_to_multiset_ensures;

    reveal(sort_entries);
    if entries.len() == 0 {
        assert(sort_entries(entries) =~= Seq::<(Seq<u8>, Item)>::empty());
    } else {
        lemma_sort_entries_canonical(entries.drop_last());
        lemma_insert_entry_keeps_order(sort_entries(entries.drop_last()), entries.last());
        assert(entries =~= entries.drop_last().push(entries.last()));
    }
}

fn encoded_key_bytes(key: &String) -> (r: Vec<u8>)
    ensures
        r@ == encoded_key(string_bytes(*key)),
{
    let bytes = key.as_str().as_bytes();
    let mut out: Vec<u8> = Vec::new();
    crate::cbor::encode_header(3, bytes.len() as u64, &mut out);
    let mut k: usize = 0;
    let ghost head = out@;
    while k < bytes.len()
        invariant
            k <= bytes@.len(),
            out@ == head + bytes@.take(k as int),
        decreases bytes@.len() - k,
    {
        out.push(bytes[k]);
        proof {
            assert(bytes@.take(k + 1) =~= bytes@.take(k as int).push(bytes@[k as int]));
        }
        k = k + 1;
    }
    assert(bytes@.take(bytes@.len() as int) =~= bytes@);
    out
}

proof fn lemma_entries_of_insert(v: Seq<(String, CborValue)>, p: int, e: (String, CborValue))
    requires
        0 <= p <= v.len(),
    ensures
        entries_of(v.insert(p, e)) == entries_of(v).take(p).push((string_bytes(e.0), e.1.item())) + entries_of(v).skip(p),
{
    lemma_entries_of(v);
    lemma_entries_of(v.insert(p, e));
    assert(entries_of(v.insert(p, e)) =~= entries_of(v).take(p).push((string_bytes(e.0), e.1.item())) + entries_of(
        v,
    ).skip(p));
}

/// A text-keyed map whose entries are held in deterministic-CBOR order.
pub fn canonical_map(entries: Vec<(String, CborValue)>) -> (r: CborValue)
    ensures
        r.item() == Item::TextMap(sort_entries(entries_of(entries@))),
{
    let ghost all = entries_of(entries@);
    proof {
        lemma_entries_of(entries@);
    }
    let mut sorted: Vec<(String, CborValue)> = Vec::new();
    let mut rest = entries;
    let ghost mut done: int = 0;
    proof {
        reveal(sort_entries);
        assert(all.take(0) =~= Seq::<(Seq<u8>, Item)>::empty());
        assert(entries_of(sorted@) =~= Seq::<(Seq<u8>, Item)>::empty());
    }
    while rest.len() > 0
        invariant
            0 <= done <= all.len(),
            entries_of(sorted@) == sort_entries(all.take(done)),
            entries_of(rest@) == all.skip(done),
            rest@.len() == all.len() - done,
        decreases rest@.len(),
    {
        proof {
            lemma_entries_of(rest@);
            lemma_entries_of(sorted@);
        }
        let ghost before_rest = rest@;
        let e = rest.remove(0);
        let ghost em = (string_bytes(e.0), e.1.item());
        proof {
            assert(em == entries_of(before_rest)[0]);
            assert(all.skip(done)[0] == all[done]);
            assert(em == all[done]);
            lemma_entries_of(rest@);
            assert(rest@ =~= before_rest.subrange(1, before_rest.len() as int));
            assert forall|i: int| 0 <= i < rest@.len() implies #[trigger] entries_of(rest@)[i] == all.skip(done + 1)[i] by {
                assert(rest@[i] == before_rest[i + 1]);
                assert(entries_of(before_rest)[i + 1] == all.skip(done)[i + 1]);
            }
            assert(entries_of(rest@) =~= all.skip(done + 1));
        }
        let key = encoded_key_bytes(&e.0);
        let ghost sm = entries_of(sorted@);
        let mut p: usize = 0;
        let mut scanning = true;
        while scanning && p < sorted.len()
            invariant
                p <= sorted@.len(),
                sm == entries_of(sorted@),
                sm.len() == sorted@.len(),
                forall|i: int| 0 <= i < sorted@.len() ==> #[trigger] sm[i] == (string_bytes(sorted@[i].0), sorted@[i].1.item()),
                key@ == encoded_key(em.0),
                forall|q: int| 0 <= q < p ==> !key_before(em.0, #[trigger] sm[q].0),
                !scanning ==> p < sorted@.len() && key_before(em.0, sm[p as int].0),
            decreases sorted@.len() - p + (if scanning { 1int } else { 0int }),
        {
            let other = encoded_key_bytes(&sorted[p].0);
            if bytes_lex_less(key.as_slice(), other.as_slice()) {
                scanning = false;
            } else {
                p = p + 1;
            }
        }
        proof {
            reveal(sort_entries);
            lemma_insert_entry_at(sm, em, p as int);
            assert(all.take(done + 1).drop_last() =~= all.take(done));
            assert(all.take(done + 1).last() == all[done]);
        }
        let ghost old_sorted = sorted@;
        sorted.insert(p, e);
        proof {
            assert(sorted@ == old_sorted.insert(p as int, e));
            lemma_entries_of_insert(old_sorted, p as int, e);
            done = done + 1;
        }
    }
    proof {
        assert(all.take(done) =~= all);
    }
    CborValue::TextMap(sorted)
}

/// A text array's items.
pub open spec fn text_items(l: Seq<String>) -> Item {
    Item::Array(string_models(l).map_values(|b: Seq<u8>| Item::Text(b)))
}

/// An array of the given texts.
pub fn text_array(values: Vec<String>) -> (r: CborValue)
    ensures
        r.item() == text_items(values@),
{
    let mut items: Vec<CborValue> = Vec::new();
    let mut k: usize = 0;
    while k < values.len()
        invariant
            k <= values@.len(),
            items@.len() == k,
            forall|j: int| 0 <= j < k ==> #[trigger] items@[j].item() == Item::Text(string_bytes(values@[j])),
        decreases values@.len() - k,
    {
        items.push(CborValue::Text(values[k].clone()));
        k = k + 1;
    }
    proof {
        lemma_items_of(items@);
        assert(items_of(items@) =~= string_models(values@).map_values(|b: Seq<u8>| Item::Text(b)));
    }
    CborValue::Array(items)
}


/// A text item.
pub open spec fn text(s: String) -> Item {
    Item::Text(string_bytes(s))
}

/// A map item in deterministic-CBOR order.
pub open spec fn map_item(entries: Seq<(Seq<u8>, Item)>) -> Item {
    Item::TextMap(sort_entries(entries))
}

/// The network authority of a plan as CBOR: `deny`, or the complete service session.
pub open spec fn network_item(network: NetworkAuthorityV2Input) -> Item {
    match network {
        NetworkAuthorityV2Input::Deny => Item::Text("deny".spec_bytes()),
        NetworkAuthorityV2Input::AuthenticatedServiceSession(s) => session_item(*s),
    }
}

/// The resolver address of a session as CBOR: its family name and its bytes.
pub open spec fn address_item(a: ResolverAddressV2Input) -> Item {
    match a {
        ResolverAddressV2Input::Ipv4(b) => map_item(
            seq![("family".spec_bytes(), Item::Text("ipv4".spec_bytes())), ("bytes".spec_bytes(), Item::Bytes(b@))],
        ),
        ResolverAddressV2Input::Ipv6(b) => map_item(
            seq![("family".spec_bytes(), Item::Text("ipv6".spec_bytes())), ("bytes".spec_bytes(), Item::Bytes(b@))],
        ),
    }
}

/// The resolver settings of a session as CBOR.
pub open spec fn resolver_item(r: ResolutionV2Input) -> Item {
    map_item(
        seq![
            ("address".spec_bytes(), address_item(r.address)),
            ("port".spec_bytes(), Item::Unsigned(r.port as u64)),
            ("configuration".spec_bytes(), text(r.configuration)),
            ("maximum_cname_depth".spec_bytes(), Item::Unsigned(r.maximum_cname_depth as u64)),
            ("maximum_answer_count".spec_bytes(), Item::Unsigned(r.maximum_answer_count as u64)),
            ("maximum_response_bytes".spec_bytes(), Item::Unsigned(r.maximum_response_bytes)),
            ("resolution_deadline_ms".spec_bytes(), Item::Unsigned(r.resolution_deadline_ms)),
            ("attempt_deadline_ms".spec_bytes(), Item::Unsigned(r.attempt_deadline_ms)),
            ("address_order".spec_bytes(), Item::Text("ipv4-then-ipv6-lexicographic".spec_bytes())),
        ],
    )
}

/// The TLS settings of a session as CBOR, with its fixed policies.
pub open spec fn tls_item(t: TlsV2Input) -> Item {
    map_item(
        seq![
            ("trust_root_set".spec_bytes(), text(t.trust_root_set)),
            ("minimum_version".spec_bytes(), text(t.minimum_version)),
            ("service_name_verification".spec_bytes(), Item::Text("dns-san-exact".spec_bytes())),
            ("revocation".spec_bytes(), Item::Text("not-checked-recorded-assumption".spec_bytes())),
            ("session_resumption".spec_bytes(), Item::Text("deny".spec_bytes())),
            ("early_data".spec_bytes(), Item::Text("deny".spec_bytes())),
        ],
    )
}

/// The session limits as CBOR.
pub open spec fn session_limits_item(l: ServiceSessionLimitsV2Input) -> Item {
    map_item(
        seq![
            ("setup_time_ms".spec_bytes(), Item::Unsigned(l.setup_time_ms)),
            ("session_time_ms".spec_bytes(), Item::Unsigned(l.session_time_ms)),
            ("child_to_service_bytes".spec_bytes(), Item::Unsigned(l.child_to_service_bytes)),
            ("service_to_child_bytes".spec_bytes(), Item::Unsigned(l.service_to_child_bytes)),
            ("dns_messages".spec_bytes(), Item::Unsigned(l.dns_messages as u64)),
            ("endpoint_attempts".spec_bytes(), Item::Unsigned(l.endpoint_attempts as u64)),
            ("tls_handshake_bytes".spec_bytes(), Item::Unsigned(l.tls_handshake_bytes)),
        ],
    )
}

/// The entries every service session has, without its credential source.
pub open spec fn session_entries(s: ServiceSessionV2Input) -> Seq<(Seq<u8>, Item)> {
    seq![
        ("mode".spec_bytes(), Item::Text("authenticated-service-session".spec_bytes())),
        (
            "service".spec_bytes(),
            map_item(seq![("name".spec_bytes(), text(s.service)), ("port".spec_bytes(), Item::Unsigned(s.port as u64))]),
        ),
        ("resolver".spec_bytes(), resolver_item(s.resolution)),
        ("tls".spec_bytes(), tls_item(s.tls)),
        ("limits".spec_bytes(), session_limits_item(s.limits)),
        ("connector_executable".spec_bytes(), text(s.connector_executable)),
        ("connector_runtime_read".spec_bytes(), text_items(s.connector_runtime_read@)),
        (
            "local_channel".spec_bytes(),
            map_item(
                seq![
                    ("protocol".spec_bytes(), Item::Text("unix-stream-v1".spec_bytes())),
                    ("child_descriptor".spec_bytes(), Item::Unsigned(s.child_descriptor as u64)),
                ],
            ),
        ),
    ]
}

/// A service session as CBOR, with its credential source when it has one.
pub open spec fn session_item(s: ServiceSessionV2Input) -> Item {
    match s.credential_source {
        None => map_item(session_entries(s)),
        Some(c) => map_item(
            session_entries(s).push(
                (
                    "credential_source".spec_bytes(),
                    map_item(
                        seq![
                            ("id".spec_bytes(), text(c.id)),
                            ("service".spec_bytes(), text(c.service)),
                            ("environment".spec_bytes(), text(c.environment)),
                        ],
                    ),
                ),
            ),
        ),
    }
}

/// A version 2 plan as CBOR: its identifier and schema, its limits, its command and
/// its authority, every map in deterministic-CBOR order.
pub open spec fn plan_item(input: PlanV2Input, network: NetworkAuthorityV2Input) -> Item {
    map_item(plan_entries(input, network))
}

/// The top-level entries of a version 2 plan.
pub open spec fn plan_entries(input: PlanV2Input, network: NetworkAuthorityV2Input) -> Seq<(Seq<u8>, Item)> {
    seq![
            ("id".spec_bytes(), text(input.id)),
            ("schema".spec_bytes(), Item::Text(PLAN_SCHEMA.spec_bytes())),
            ("limits".spec_bytes(), plan_limits_item(input)),
            ("command".spec_bytes(), plan_command_item(input)),
            ("authority".spec_bytes(), plan_authority_item(input, network)),
    ]
}

/// The limits of a plan as CBOR.
pub open spec fn plan_limits_item(input: PlanV2Input) -> Item {
                map_item(
                    seq![
                        ("processes".spec_bytes(), Item::Unsigned(input.processes as u64)),
                        ("swap_bytes".spec_bytes(), Item::Unsigned(input.swap_bytes)),
                        ("stderr_bytes".spec_bytes(), Item::Unsigned(input.stderr_bytes)),
                        ("stdout_bytes".spec_bytes(), Item::Unsigned(input.stdout_bytes)),
                        ("memory_bytes".spec_bytes(), Item::Unsigned(input.memory_bytes)),
                        ("wall_time_ms".spec_bytes(), Item::Unsigned(input.wall_time_ms)),
                    ],
                )
}

/// The command of a plan as CBOR.
pub open spec fn plan_command_item(input: PlanV2Input) -> Item {
                map_item(
                    seq![
                        ("arguments".spec_bytes(), text_items(input.arguments@)),
                        ("executable".spec_bytes(), text(input.executable)),
                        ("working_directory".spec_bytes(), text(input.working_directory)),
                    ],
                )
}

/// The authority of a plan as CBOR.
pub open spec fn plan_authority_item(input: PlanV2Input, network: NetworkAuthorityV2Input) -> Item {
                map_item(
                    seq![
                        ("read".spec_bytes(), text_items(input.read@)),
                        ("write".spec_bytes(), text_items(input.write@)),
                        ("execute".spec_bytes(), text_items(input.execute@)),
                        ("network".spec_bytes(), network_item(network)),
                        ("environment".spec_bytes(), text_items(input.environment@)),
                        ("runtime_read".spec_bytes(), text_items(input.runtime_read@)),
                    ],
                )
}

fn key(k: &str) -> (r: String)
    ensures
        string_bytes(r) == k.spec_bytes(),
{
    k.to_owned()
}

fn text_value(s: &str) -> (r: CborValue)
    ensures
        r.item() == Item::Text(s.spec_bytes()),
{
    CborValue::Text(s.to_owned())
}

fn address_value(a: &ResolverAddressV2Input) -> (r: CborValue)
    ensures
        r.item() == address_item(*a),
{
    match a {
        ResolverAddressV2Input::Ipv4(b) => {
            let bytes = crate::text::copy_range(b, 0, 4);
            assert(bytes@ =~= b@);
            let v = vec![(key("family"), text_value("ipv4")), (key("bytes"), CborValue::Bytes(bytes))];
            proof {
                lemma_entries_of(v@);
                assert(entries_of(v@) =~= seq![
                    ("family".spec_bytes(), Item::Text("ipv4".spec_bytes())),
                    ("bytes".spec_bytes(), Item::Bytes(b@)),
                ]);
            }
            canonical_map(v)
        },
        ResolverAddressV2Input::Ipv6(b) => {
            let bytes = crate::text::copy_range(b, 0, 16);
            assert(bytes@ =~= b@);
            let v = vec![(key("family"), text_value("ipv6")), (key("bytes"), CborValue::Bytes(bytes))];
            proof {
                lemma_entries_of(v@);
                assert(entries_of(v@) =~= seq![
                    ("family".spec_bytes(), Item::Text("ipv6".spec_bytes())),
                    ("bytes".spec_bytes(), Item::Bytes(b@)),
                ]);
            }
            canonical_map(v)
        },
    }
}

fn resolver_value(r: &ResolutionV2Input) -> (out: CborValue)
    ensures
        out.item() == resolver_item(*r),
{
    let v = vec![
        (key("address"), address_value(&r.address)),
        (key("port"), CborValue::Unsigned(r.port as u64)),
        (key("configuration"), CborValue::Text(r.configuration.clone())),
        (key("maximum_cname_depth"), CborValue::Unsigned(r.maximum_cname_depth as u64)),
        (key("maximum_answer_count"), CborValue::Unsigned(r.maximum_answer_count as u64)),
        (key("maximum_response_bytes"), CborValue::Unsigned(r.maximum_response_bytes)),
        (key("resolution_deadline_ms"), CborValue::Unsigned(r.resolution_deadline_ms)),
        (key("attempt_deadline_ms"), CborValue::Unsigned(r.attempt_deadline_ms)),
        (key("address_order"), text_value("ipv4-then-ipv6-lexicographic")),
    ];
    proof {
        lemma_entries_of(v@);
        assert(entries_of(v@) =~= seq![
            ("address".spec_bytes(), address_item(r.address)),
            ("port".spec_bytes(), Item::Unsigned(r.port as u64)),
            ("configuration".spec_bytes(), text(r.configuration)),
            ("maximum_cname_depth".spec_bytes(), Item::Unsigned(r.maximum_cname_depth as u64)),
            ("maximum_answer_count".spec_bytes(), Item::Unsigned(r.maximum_answer_count as u64)),
            ("maximum_response_bytes".spec_bytes(), Item::Unsigned(r.maximum_response_bytes)),
            ("resolution_deadline_ms".spec_bytes(), Item::Unsigned(r.resolution_deadline_ms)),
            ("attempt_deadline_ms".spec_bytes(), Item::Unsigned(r.attempt_deadline_ms)),
            ("address_order".spec_bytes(), Item::Text("ipv4-then-ipv6-lexicographic".spec_bytes())),
        ]);
    }
    canonical_map(v)
}

fn tls_value(t: &TlsV2Input) -> (out: CborValue)
    ensures
        out.item() == tls_item(*t),
{
    let v = vec![
        (key("trust_root_set"), CborValue::Text(t.trust_root_set.clone())),
        (key("minimum_version"), CborValue::Text(t.minimum_version.clone())),
        (key("service_name_verification"), text_value("dns-san-exact")),
        (key("revocation"), text_value("not-checked-recorded-assumption")),
        (key("session_resumption"), text_value("deny")),
        (key("early_data"), text_value("deny")),
    ];
    proof {
        lemma_entries_of(v@);
        assert(entries_of(v@) =~= seq![
            ("trust_root_set".spec_bytes(), text(t.trust_root_set)),
            ("minimum_version".spec_bytes(), text(t.minimum_version)),
            ("service_name_verification".spec_bytes(), Item::Text("dns-san-exact".spec_bytes())),
            ("revocation".spec_bytes(), Item::Text("not-checked-recorded-assumption".spec_bytes())),
            ("session_resumption".spec_bytes(), Item::Text("deny".spec_bytes())),
            ("early_data".spec_bytes(), Item::Text("deny".spec_bytes())),
        ]);
    }
    canonical_map(v)
}

fn session_limits_value(l: &ServiceSessionLimitsV2Input) -> (out: CborValue)
    ensures
        out.item() == session_limits_item(*l),
{
    let v = vec![
        (key("setup_time_ms"), CborValue::Unsigned(l.setup_time_ms)),
        (key("session_time_ms"), CborValue::Unsigned(l.session_time_ms)),
        (key("child_to_service_bytes"), CborValue::Unsigned(l.child_to_service_bytes)),
        (key("service_to_child_bytes"), CborValue::Unsigned(l.service_to_child_bytes)),
        (key("dns_messages"), CborValue::Unsigned(l.dns_messages as u64)),
        (key("endpoint_attempts"), CborValue::Unsigned(l.endpoint_attempts as u64)),
        (key("tls_handshake_bytes"), CborValue::Unsigned(l.tls_handshake_bytes)),
    ];
    proof {
        lemma_entries_of(v@);
        assert(entries_of(v@) =~= seq![
            ("setup_time_ms".spec_bytes(), Item::Unsigned(l.setup_time_ms)),
            ("session_time_ms".spec_bytes(), Item::Unsigned(l.session_time_ms)),
            ("child_to_service_bytes".spec_bytes(), Item::Unsigned(l.child_to_service_bytes)),
            ("service_to_child_bytes".spec_bytes(), Item::Unsigned(l.service_to_child_bytes)),
            ("dns_messages".spec_bytes(), Item::Unsigned(l.dns_messages as u64)),
            ("endpoint_attempts".spec_bytes(), Item::Unsigned(l.endpoint_attempts as u64)),
            ("tls_handshake_bytes".spec_bytes(), Item::Unsigned(l.tls_handshake_bytes)),
        ]);
    }
    canonical_map(v)
}

fn service_value(s: &ServiceSessionV2Input) -> (out: CborValue)
    ensures
        out.item() == map_item(seq![("name".spec_bytes(), text(s.service)), ("port".spec_bytes(), Item::Unsigned(s.port as u64))]),
{
    let service = vec![(key("name"), CborValue::Text(s.service.clone())), (key("port"), CborValue::Unsigned(s.port as u64))];
    proof {
        lemma_entries_of(service@);
        assert(entries_of(service@) =~= seq![
            ("name".spec_bytes(), text(s.service)),
            ("port".spec_bytes(), Item::Unsigned(s.port as u64)),
        ]);
    }
    canonical_map(service)
}

fn channel_value(s: &ServiceSessionV2Input) -> (out: CborValue)
    ensures
        out.item() == map_item(
            seq![
                ("protocol".spec_bytes(), Item::Text("unix-stream-v1".spec_bytes())),
                ("child_descriptor".spec_bytes(), Item::Unsigned(s.child_descriptor as u64)),
            ],
        ),
{
    let channel = vec![
        (key("protocol"), text_value("unix-stream-v1")),
        (key("child_descriptor"), CborValue::Unsigned(s.child_descriptor as u64)),
    ];
    proof {
        lemma_entries_of(channel@);
        assert(entries_of(channel@) =~= seq![
            ("protocol".spec_bytes(), Item::Text("unix-stream-v1".spec_bytes())),
            ("child_descriptor".spec_bytes(), Item::Unsigned(s.child_descriptor as u64)),
        ]);
    }
    canonical_map(channel)
}

fn credential_value(c: &CredentialSourceV2Input) -> (out: CborValue)
    ensures
        out.item() == map_item(
            seq![
                ("id".spec_bytes(), text(c.id)),
                ("service".spec_bytes(), text(c.service)),
                ("environment".spec_bytes(), text(c.environment)),
            ],
        ),
{
    let source = vec![
        (key("id"), CborValue::Text(c.id.clone())),
        (key("service"), CborValue::Text(c.service.clone())),
        (key("environment"), CborValue::Text(c.environment.clone())),
    ];
    proof {
        lemma_entries_of(source@);
        assert(entries_of(source@) =~= seq![
            ("id".spec_bytes(), text(c.id)),
            ("service".spec_bytes(), text(c.service)),
            ("environment".spec_bytes(), text(c.environment)),
        ]);
    }
    canonical_map(source)
}

fn push_entry(v: &mut Vec<(String, CborValue)>, k: &str, value: CborValue)
    ensures
        entries_of(final(v)@) == entries_of(old(v)@).push((k.spec_bytes(), value.item())),
{
    let ghost before = v@;
    v.push((key(k), value));
    proof {
        assert(v@.subrange(0, v@.len() - 1) =~= before);
    }
}

fn session_entry_values(s: &ServiceSessionV2Input) -> (v: Vec<(String, CborValue)>)
    ensures
        entries_of(v@) == session_entries(*s),
{
    let mut v: Vec<(String, CborValue)> = Vec::new();
    assert(entries_of(v@) =~= Seq::<(Seq<u8>, Item)>::empty());
    push_entry(&mut v, "mode", text_value("authenticated-service-session"));
    push_entry(&mut v, "service", service_value(s));
    push_entry(&mut v, "resolver", resolver_value(&s.resolution));
    push_entry(&mut v, "tls", tls_value(&s.tls));
    push_entry(&mut v, "limits", session_limits_value(&s.limits));
    push_entry(&mut v, "connector_executable", CborValue::Text(s.connector_executable.clone()));
    push_entry(&mut v, "connector_runtime_read", text_array(s.connector_runtime_read.clone()));
    push_entry(&mut v, "local_channel", channel_value(s));
    assert(entries_of(v@) =~= session_entries(*s));
    v
}

fn session_value(s: &ServiceSessionV2Input) -> (out: CborValue)
    ensures
        out.item() == session_item(*s),
{
    let mut v = session_entry_values(s);
    match &s.credential_source {
        None => {},
        Some(c) => {
            let ghost before = v@;
            let source = credential_value(c);
            v.push((key("credential_source"), source));
            proof {
                lemma_entries_of(v@);
                lemma_entries_of(before);
                assert(entries_of(v@) =~= entries_of(before).push(("credential_source".spec_bytes(), source.item())));
            }
        },
    }
    canonical_map(v)
}

fn network_value(network: &NetworkAuthorityV2Input) -> (out: CborValue)
    ensures
        out.item() == network_item(*network),
{
    match network {
        NetworkAuthorityV2Input::Deny => text_value("deny"),
        NetworkAuthorityV2Input::AuthenticatedServiceSession(s) => session_value(s),
    }
}

fn plan_limits_value(input: &PlanV2Input) -> (out: CborValue)
    ensures
        out.item() == plan_limits_item(*input),
{
    let limits = vec![
        (key("processes"), CborValue::Unsigned(input.processes as u64)),
        (key("swap_bytes"), CborValue::Unsigned(input.swap_bytes)),
        (key("stderr_bytes"), CborValue::Unsigned(input.stderr_bytes)),
        (key("stdout_bytes"), CborValue::Unsigned(input.stdout_bytes)),
        (key("memory_bytes"), CborValue::Unsigned(input.memory_bytes)),
        (key("wall_time_ms"), CborValue::Unsigned(input.wall_time_ms)),
    ];
    proof {
        lemma_entries_of(limits@);
        assert(entries_of(limits@) =~= seq![
            ("processes".spec_bytes(), Item::Unsigned(input.processes as u64)),
            ("swap_bytes".spec_bytes(), Item::Unsigned(input.swap_bytes)),
            ("stderr_bytes".spec_bytes(), Item::Unsigned(input.stderr_bytes)),
            ("stdout_bytes".spec_bytes(), Item::Unsigned(input.stdout_bytes)),
            ("memory_bytes".spec_bytes(), Item::Unsigned(input.memory_bytes)),
            ("wall_time_ms".spec_bytes(), Item::Unsigned(input.wall_time_ms)),
        ]);
    }
    canonical_map(limits)
}

fn plan_command_value(input: &PlanV2Input) -> (out: CborValue)
    ensures
        out.item() == plan_command_item(*input),
{
    let command = vec![
        (key("arguments"), text_array(input.arguments.clone())),
        (key("executable"), CborValue::Text(input.executable.clone())),
        (key("working_directory"), CborValue::Text(input.working_directory.clone())),
    ];
    proof {
        lemma_entries_of(command@);
        assert(entries_of(command@) =~= seq![
            ("arguments".spec_bytes(), text_items(input.arguments@)),
            ("executable".spec_bytes(), text(input.executable)),
            ("working_directory".spec_bytes(), text(input.working_directory)),
        ]);
    }
    canonical_map(command)
}

fn plan_authority_value(input: &PlanV2Input, network: &NetworkAuthorityV2Input) -> (out: CborValue)
    ensures
        out.item() == plan_authority_item(*input, *network),
{
    let mut authority: Vec<(String, CborValue)> = Vec::new();
    assert(entries_of(authority@) =~= Seq::<(Seq<u8>, Item)>::empty());
    push_entry(&mut authority, "read", text_array(input.read.clone()));
    push_entry(&mut authority, "write", text_array(input.write.clone()));
    push_entry(&mut authority, "execute", text_array(input.execute.clone()));
    push_entry(&mut authority, "network", network_value(network));
    push_entry(&mut authority, "environment", text_array(input.environment.clone()));
    push_entry(&mut authority, "runtime_read", text_array(input.runtime_read.clone()));
    assert(entries_of(authority@) =~= seq![
        ("read".spec_bytes(), text_items(input.read@)),
        ("write".spec_bytes(), text_items(input.write@)),
        ("execute".spec_bytes(), text_items(input.execute@)),
        ("network".spec_bytes(), network_item(*network)),
        ("environment".spec_bytes(), text_items(input.environment@)),
        ("runtime_read".spec_bytes(), text_items(input.runtime_read@)),
    ]);
    canonical_map(authority)
}

fn plan_value(input: &PlanV2Input, network: &NetworkAuthorityV2Input) -> (out: CborValue)
    ensures
        out.item() == plan_item(*input, *network),
{
    let mut top: Vec<(String, CborValue)> = Vec::new();
    assert(entries_of(top@) =~= Seq::<(Seq<u8>, Item)>::empty());
    push_entry(&mut top, "id", CborValue::Text(input.id.clone()));
    push_entry(&mut top, "schema", text_value(PLAN_SCHEMA));
    push_entry(&mut top, "limits", plan_limits_value(input));
    push_entry(&mut top, "command", plan_command_value(input));
    push_entry(&mut top, "authority", plan_authority_value(input, network));
    assert(entries_of(top@) =~= plan_entries(*input, *network));
    canonical_map(top)
}


/// Why a plan cannot be built: the first plan-input error, then the first network
/// error, then an encoding too large for memory.
pub open spec fn plan_error(input: PlanV2Input, network: NetworkAuthorityV2Input) -> Option<SdkError> {
    if plan_input_error(input) is Some {
        plan_input_error(input)
    } else if network_error(input, network) is Some {
        network_error(input, network)
    } else if item_bytes(plan_item(input, network)).len() > usize::MAX {
        Some(SdkError::CborBound)
    } else {
        None
    }
}

/// One semantically validated deterministic-CBOR version 2 plan.
#[derive(Clone, Debug, PartialEq, Eq)]
pub struct PlanV2 {
    bytes: Vec<u8>,
}

impl PlanV2 {
    /// The plan's bytes.
    pub closed spec fn bytes_of(self) -> Seq<u8> {
        self.bytes@
    }

    /// Validates the closed public input and encodes deterministic-CBOR bytes, with
    /// network access denied.
    pub fn new(input: PlanV2Input) -> (r: Result<Self, SdkError>)
        ensures
            match plan_error(input, NetworkAuthorityV2Input::Deny) {
                Some(e) => r == Err::<Self, SdkError>(e),
                None => r matches Ok(p) && p.bytes_of() == item_bytes(plan_item(input, NetworkAuthorityV2Input::Deny)),
            },
    {
        Self::new_with_network(input, NetworkAuthorityV2Input::Deny)
    }

    /// Validates a plan and its explicit closed network authority and encodes
    /// deterministic-CBOR bytes.
    pub fn new_with_network(input: PlanV2Input, network: NetworkAuthorityV2Input) -> (r: Result<Self, SdkError>)
        ensures
            match plan_error(input, network) {
                Some(e) => r == Err::<Self, SdkError>(e),
                None => r matches Ok(p) && p.bytes_of() == item_bytes(plan_item(input, network)),
            },
    {
        validate_plan_input(&input)?;
        validate_network_input(&input, &network)?;
        let value = plan_value(&input, &network);
        let mut bytes: Vec<u8> = Vec::new();
        match encode_bounded(&value, &mut bytes, usize::MAX) {
            Ok(()) => Ok(PlanV2 { bytes }),
            Err(()) => Err(SdkError::CborBound),
        }
    }

    /// Returns the exact deterministic-CBOR plan bytes.
    pub fn as_bytes(&self) -> (r: &[u8])
        ensures
            r@ == self.bytes_of(),
    {
        self.bytes.as_slice()
    }

    /// Consumes the validated wrapper and returns its exact bytes.
    pub fn into_bytes(self) -> (r: Vec<u8>)
        ensures
            r@ == self.bytes_of(),
    {
        self.bytes
    }
}


/// A JSON value as the run-result projection reads it; a number is kept as the
/// non-negative integer it denotes, if it denotes one.
#[derive(Debug)]
pub enum JsonValue {
    Null,
    Bool(bool),
    Number(Option<u64>),
    String(String),
    Array(Vec<JsonValue>),
    Object(Vec<(String, JsonValue)>),
}

#[verifier::external_type_specification]
#[verifier::external_body]
pub struct ExJsonDocument(serde_json::Value);

/// What `serde_json::from_slice` reads from `input` as a `serde_json::Value`, held as
/// a `JsonValue`; `None` when the bytes are not one JSON document.
pub uninterp spec fn json_document(input: Seq<u8>) -> Option<JsonValue>;

/// Holds a `serde_json::Value` as a `JsonValue`, one variant for one variant: a
/// number by `serde_json::Number::as_u64`, an object as its members in the map's order.
/// It states nothing of its own: `parse_json_document` states the whole reading.
#[verifier::external_body]
fn json_value_of(value: serde_json::Value) -> (r: JsonValue) {
    match value {
        serde_json::Value::Null => JsonValue::Null,
        serde_json::Value::Bool(flag) => JsonValue::Bool(flag),
        serde_json::Value::Number(number) => JsonValue::Number(number.as_u64()),
        serde_json::Value::String(text) => JsonValue::String(text),
        serde_json::Value::Array(items) => JsonValue::Array(items.into_iter().map(json_value_of).collect()),
        serde_json::Value::Object(members) => JsonValue::Object(
            members.into_iter().map(|(name, member)| (name, json_value_of(member))).collect(),
        ),
    }
}

/// Calls `serde_json::from_slice` for a `serde_json::Value`: the result, held as a
/// `JsonValue`, is the named reading of the input bytes, `None` on a parse error.
#[verifier::external_body]
fn parse_json_document(input: &[u8]) -> (r: Option<JsonValue>)
    ensures
        r == json_document(input@),
{
    serde_json::from_slice::<serde_json::Value>(input).ok().map(json_value_of)
}

/// Closed child outcome projected by `pbr run`.
#[derive(Clone, Copy, Debug, PartialEq, Eq, Structural)]
pub enum RunOutcome {
    Exited { code: u8 },
    Signaled { signal: u8 },
    TimedOut,
    Denied,
    LauncherFailed,
    Incomplete,
}

/// The model of a run-result projection.
pub struct ProjectionModel {
    pub receipt: Seq<u8>,
    pub execution_id: Seq<u8>,
    pub commitment: Seq<u8>,
    pub outcome: RunOutcome,
}

/// Strictly decoded JSON control projection from `pbr run`.
#[derive(Clone, Debug, PartialEq, Eq)]
pub struct RunResultProjection {
    receipt: String,
    execution_id: [u8; 16],
    commitment: [u8; 32],
    outcome: RunOutcome,
}

/// The value of the first member named `k`.
pub open spec fn member(entries: Seq<(String, JsonValue)>, k: Seq<u8>) -> Option<JsonValue>
    decreases entries.len(),
{
    if entries.len() == 0 {
        None
    } else if string_bytes(entries[0].0) == k {
        Some(entries[0].1)
    } else {
        member(entries.subrange(1, entries.len() as int), k)
    }
}

/// The members of an object are named exactly by `expected`.
pub open spec fn members_are(entries: Seq<(String, JsonValue)>, expected: Seq<Seq<u8>>) -> bool {
    &&& forall|i: int| 0 <= i < entries.len() ==> expected.contains(#[trigger] string_bytes(entries[i].0))
    &&& forall|j: int| 0 <= j < expected.len() ==> #[trigger] member(entries, expected[j]) is Some
}

/// The bytes of text `hex:` followed by `2n` lower-case hexadecimal digits.
pub open spec fn prefixed_hex(s: Seq<u8>, n: nat) -> Option<Seq<u8>> {
    if s.len() == 4 + 2 * n && s.subrange(0, 4) == "hex:".spec_bytes() && crate::text::all_lower_hex(
        s.subrange(4, s.len() as int),
    ) {
        Some(crate::text::hex_decode(s.subrange(4, s.len() as int)))
    } else {
        None
    }
}

/// The outcome named by a kind that carries no further member.
pub open spec fn bodiless_outcome(kind: Seq<u8>) -> Option<RunOutcome> {
    if kind == "timed-out".spec_bytes() {
        Some(RunOutcome::TimedOut)
    } else if kind == "denied".spec_bytes() {
        Some(RunOutcome::Denied)
    } else if kind == "launcher-failed".spec_bytes() {
        Some(RunOutcome::LauncherFailed)
    } else if kind == "incomplete".spec_bytes() {
        Some(RunOutcome::Incomplete)
    } else {
        None
    }
}

/// An outcome object whose only member is `kind` decodes to the outcome its kind
/// names: `timed-out` to `TimedOut`, `denied` to `Denied`, `launcher-failed` to
/// `LauncherFailed` and `incomplete` to `Incomplete`.
pub proof fn lemma_bodiless_outcome_kinds(m: Vec<(String, JsonValue)>, k: String)
    requires
        members_are(m@, seq!["kind".spec_bytes()]),
        member(m@, "kind".spec_bytes()) == Some(JsonValue::String(k)),
    ensures
        string_bytes(k) == "timed-out".spec_bytes() ==> outcome_of(JsonValue::Object(m)) == Ok::<
            RunOutcome,
            SdkError,
        >(RunOutcome::TimedOut),
        string_bytes(k) == "denied".spec_bytes() ==> outcome_of(JsonValue::Object(m)) == Ok::<
            RunOutcome,
            SdkError,
        >(RunOutcome::Denied),
        string_bytes(k) == "launcher-failed".spec_bytes() ==> outcome_of(JsonValue::Object(m))
            == Ok::<RunOutcome, SdkError>(RunOutcome::LauncherFailed),
        string_bytes(k) == "incomplete".spec_bytes() ==> outcome_of(JsonValue::Object(m)) == Ok::<
            RunOutcome,
            SdkError,
        >(RunOutcome::Incomplete),
{
    reveal_strlit("exited");
    reveal_strlit("signaled");
    reveal_strlit("timed-out");
    reveal_strlit("denied");
    reveal_strlit("launcher-failed");
    reveal_strlit("incomplete");
    lemma_outcome_kind_names_differ();
}

/// An `exited` outcome object with exactly `code` and `kind` decodes to the exit
/// status it carries for every code from 0 to 255, and a larger code is a field
/// error; a `signaled` object with exactly `kind` and `signal` decodes to the signal
/// it carries for every signal from 1 to 255, and signal 0 or a larger one is a
/// field error.
pub proof fn lemma_status_outcome_kinds(m: Vec<(String, JsonValue)>, k: String, n: u64)
    requires
        member(m@, "kind".spec_bytes()) == Some(JsonValue::String(k)),
    ensures
        string_bytes(k) == "exited".spec_bytes() && members_are(m@, seq!["code".spec_bytes(), "kind".spec_bytes()])
            && member(m@, "code".spec_bytes()) == Some(JsonValue::Number(Some(n))) ==> outcome_of(
            JsonValue::Object(m),
        ) == (if n <= 255 {
            Ok::<RunOutcome, SdkError>(RunOutcome::Exited { code: n as u8 })
        } else {
            Err::<RunOutcome, SdkError>(SdkError::ResultField)
        }),
        string_bytes(k) == "signaled".spec_bytes() && members_are(
            m@,
            seq!["kind".spec_bytes(), "signal".spec_bytes()],
        ) && member(m@, "signal".spec_bytes()) == Some(JsonValue::Number(Some(n))) ==> outcome_of(
            JsonValue::Object(m),
        ) == (if 1 <= n <= 255 {
            Ok::<RunOutcome, SdkError>(RunOutcome::Signaled { signal: n as u8 })
        } else {
            Err::<RunOutcome, SdkError>(SdkError::ResultField)
        }),
{
    lemma_outcome_kind_names_differ();
}

/// The six outcome kind names begin with six different bytes.
proof fn lemma_outcome_kind_names_differ()
    ensures
        "exited".spec_bytes().len() > 0,
        "signaled".spec_bytes().len() > 0,
        "timed-out".spec_bytes().len() > 0,
        "denied".spec_bytes().len() > 0,
        "launcher-failed".spec_bytes().len() > 0,
        "incomplete".spec_bytes().len() > 0,
        "exited".spec_bytes()[0] == 0x65,
        "signaled".spec_bytes()[0] == 0x73,
        "timed-out".spec_bytes()[0] == 0x74,
        "denied".spec_bytes()[0] == 0x64,
        "launcher-failed".spec_bytes()[0] == 0x6c,
        "incomplete".spec_bytes()[0] == 0x69,
{
    reveal_strlit("exited");
    reveal_strlit("signaled");
    reveal_strlit("timed-out");
    reveal_strlit("denied");
    reveal_strlit("launcher-failed");
    reveal_strlit("incomplete");
    reveal_with_fuel(crate::text::ascii_upto, 16);
    crate::text::lemma_ascii_str_bytes("exited");
    crate::text::lemma_ascii_str_bytes("signaled");
    crate::text::lemma_ascii_str_bytes("timed-out");
    crate::text::lemma_ascii_str_bytes("denied");
    crate::text::lemma_ascii_str_bytes("launcher-failed");
    crate::text::lemma_ascii_str_bytes("incomplete");
}

/// The outcome of an `exited` object: exactly `code` and `kind`, and a code byte.
pub open spec fn exited_of(m: Seq<(String, JsonValue)>) -> Result<RunOutcome, SdkError> {
    if !members_are(m, seq!["code".spec_bytes(), "kind".spec_bytes()]) {
        Err(SdkError::ResultUnknownField)
    } else {
        match member(m, "code".spec_bytes()) {
            Some(JsonValue::Number(Some(n))) => if n <= 255 {
                Ok(RunOutcome::Exited { code: n as u8 })
            } else {
                Err(SdkError::ResultField)
            },
            _ => Err(SdkError::ResultField),
        }
    }
}

/// The outcome of a `signaled` object: exactly `kind` and `signal`, and a nonzero
/// signal byte.
pub open spec fn signaled_of(m: Seq<(String, JsonValue)>) -> Result<RunOutcome, SdkError> {
    if !members_are(m, seq!["kind".spec_bytes(), "signal".spec_bytes()]) {
        Err(SdkError::ResultUnknownField)
    } else {
        match member(m, "signal".spec_bytes()) {
            Some(JsonValue::Number(Some(n))) => if 1 <= n <= 255 {
                Ok(RunOutcome::Signaled { signal: n as u8 })
            } else {
                Err(SdkError::ResultField)
            },
            _ => Err(SdkError::ResultField),
        }
    }
}

/// The outcome an outcome object denotes: its `kind` names one of the six outcomes,
/// `exited` has exactly a `code` byte besides, `signaled` exactly a nonzero
/// `signal` byte, and the others nothing more.
pub open spec fn outcome_of(v: JsonValue) -> Result<RunOutcome, SdkError> {
    match v {
        JsonValue::Object(m) => match member(m@, "kind".spec_bytes()) {
            Some(JsonValue::String(k)) => {
                let kind = string_bytes(k);
                if kind == "exited".spec_bytes() {
                    exited_of(m@)
                } else if kind == "signaled".spec_bytes() {
                    signaled_of(m@)
                } else {
                    match bodiless_outcome(kind) {
                        Some(o) => if members_are(m@, seq!["kind".spec_bytes()]) {
                            Ok(o)
                        } else {
                            Err(SdkError::ResultUnknownField)
                        },
                        None => Err(SdkError::ResultField),
                    }
                }
            },
            _ => Err(SdkError::ResultField),
        },
        _ => Err(SdkError::ResultField),
    }
}

/// The text of a member, or `ResultField`.
pub open spec fn member_text(m: Seq<(String, JsonValue)>, k: Seq<u8>) -> Result<Seq<u8>, SdkError> {
    match member(m, k) {
        Some(JsonValue::String(s)) => Ok(string_bytes(s)),
        _ => Err(SdkError::ResultField),
    }
}

/// The projection a JSON value denotes: an object with exactly the five fields,
/// the version 2 schema, a nonempty receipt name, a `hex:` commitment of 32 bytes,
/// a `hex:` version 4 execution identifier of 16 bytes, and an outcome, checked in
/// that order.
pub open spec fn projection_of(v: JsonValue) -> Result<ProjectionModel, SdkError> {
    match v {
        JsonValue::Object(m) => {
            if !members_are(
                m@,
                seq![
                    "commitment".spec_bytes(),
                    "execution_id".spec_bytes(),
                    "outcome".spec_bytes(),
                    "receipt".spec_bytes(),
                    "schema".spec_bytes(),
                ],
            ) {
                Err(SdkError::ResultUnknownField)
            } else if member_text(m@, "schema".spec_bytes()) is Err {
                Err(SdkError::ResultField)
            } else if member_text(m@, "schema".spec_bytes())->Ok_0 != RESULT_SCHEMA.spec_bytes() {
                Err(SdkError::ResultSchema)
            } else if member_text(m@, "receipt".spec_bytes()) is Err || member_text(m@, "receipt".spec_bytes())->Ok_0.len()
                == 0 {
                Err(SdkError::ResultField)
            } else if member_text(m@, "commitment".spec_bytes()) is Err || prefixed_hex(
                member_text(m@, "commitment".spec_bytes())->Ok_0,
                32,
            ) is None {
                Err(SdkError::ResultField)
            } else if member_text(m@, "execution_id".spec_bytes()) is Err || prefixed_hex(
                member_text(m@, "execution_id".spec_bytes())->Ok_0,
                16,
            ) is None || !crate::model::is_version4(
                prefixed_hex(member_text(m@, "execution_id".spec_bytes())->Ok_0, 16)->0,
            ) {
                Err(SdkError::ResultField)
            } else {
                match outcome_of(member(m@, "outcome".spec_bytes())->0) {
                    Err(e) => Err(e),
                    Ok(o) => Ok(
                        ProjectionModel {
                            receipt: member_text(m@, "receipt".spec_bytes())->Ok_0,
                            execution_id: prefixed_hex(member_text(m@, "execution_id".spec_bytes())->Ok_0, 16)->0,
                            commitment: prefixed_hex(member_text(m@, "commitment".spec_bytes())->Ok_0, 32)->0,
                            outcome: o,
                        },
                    ),
                }
            }
        },
        _ => Err(SdkError::ResultField),
    }
}

fn find_member<'a>(entries: &'a Vec<(String, JsonValue)>, k: &str) -> (r: Option<&'a JsonValue>)
    ensures
        match member(entries@, k.spec_bytes()) {
            None => r is None,
            Some(v) => r matches Some(x) && *x == v,
        },
{
    let mut i: usize = 0;
    assert(entries@.subrange(0, entries@.len() as int) =~= entries@);
    while i < entries.len()
        invariant
            i <= entries@.len(),
            member(entries@, k.spec_bytes()) == member(entries@.subrange(i as int, entries@.len() as int), k.spec_bytes()),
        decreases entries@.len() - i,
    {
        let ghost rest = entries@.subrange(i as int, entries@.len() as int);
        if bytes_equal(entries[i].0.as_str().as_bytes(), k.as_bytes()) {
            return Some(&entries[i].1);
        }
        proof {
            assert(rest.subrange(1, rest.len() as int) =~= entries@.subrange(i + 1, entries@.len() as int));
        }
        i = i + 1;
    }
    None
}

fn members_match(entries: &Vec<(String, JsonValue)>, expected: &[&str]) -> (r: bool)
    ensures
        r == members_are(entries@, strs_bytes_of(expected@)),
{
    let ghost e = strs_bytes_of(expected@);
    let mut i: usize = 0;
    while i < entries.len()
        invariant
            i <= entries@.len(),
            e == strs_bytes_of(expected@),
            forall|a: int| 0 <= a < i ==> e.contains(#[trigger] string_bytes(entries@[a].0)),
        decreases entries@.len() - i,
    {
        let mut j: usize = 0;
        let mut found = false;
        while j < expected.len()
            invariant
                j <= expected@.len(),
                i < entries@.len(),
                e == strs_bytes_of(expected@),
                found ==> e.contains(string_bytes(entries@[i as int].0)),
                !found ==> forall|b: int| 0 <= b < j ==> e[b] != string_bytes(entries@[i as int].0),
            decreases expected@.len() - j,
        {
            if !found && bytes_equal(expected[j].as_bytes(), entries[i].0.as_str().as_bytes()) {
                found = true;
                assert(e[j as int] == string_bytes(entries@[i as int].0));
            }
            j = j + 1;
        }
        if !found {
            assert(!e.contains(string_bytes(entries@[i as int].0)));
            return false;
        }
        i = i + 1;
    }
    let mut j: usize = 0;
    while j < expected.len()
        invariant
            j <= expected@.len(),
            e == strs_bytes_of(expected@),
            forall|a: int| 0 <= a < entries@.len() ==> e.contains(#[trigger] string_bytes(entries@[a].0)),
            forall|b: int| 0 <= b < j ==> #[trigger] member(entries@, e[b]) is Some,
        decreases expected@.len() - j,
    {
        assert(e[j as int] == expected@[j as int].spec_bytes());
        match find_member(entries, expected[j]) {
            None => {
                assert(member(entries@, e[j as int]) is None);
                return false;
            },
            Some(_) => {},
        }
        j = j + 1;
    }
    true
}

/// The UTF-8 bytes of each text of a list.
pub open spec fn strs_bytes_of(l: Seq<&str>) -> Seq<Seq<u8>> {
    l.map_values(|s: &str| s.spec_bytes())
}


fn member_string<'a>(entries: &'a Vec<(String, JsonValue)>, k: &str) -> (r: Result<&'a String, SdkError>)
    ensures
        match member_text(entries@, k.spec_bytes()) {
            Ok(t) => r matches Ok(x) && string_bytes(*x) == t,
            Err(e) => r == Err::<&String, SdkError>(e),
        },
{
    match find_member(entries, k) {
        Some(JsonValue::String(s)) => Ok(s),
        _ => Err(SdkError::ResultField),
    }
}

fn decode_prefixed(value: &String, n: usize) -> (r: Result<Vec<u8>, SdkError>)
    ensures
        match prefixed_hex(string_bytes(*value), n as nat) {
            Some(b) => r matches Ok(x) && x@ == b && x@.len() == n,
            None => r == Err::<Vec<u8>, SdkError>(SdkError::ResultField),
        },
{
    let b = value.as_str().as_bytes();
    proof {
        reveal_strlit("hex:");
    }
    if b.len() < 4 {
        return Err(SdkError::ResultField);
    }
    let head = crate::text::copy_range(b, 0, 4);
    if !bytes_equal(head.as_slice(), "hex:".as_bytes()) {
        return Err(SdkError::ResultField);
    }
    let digits = crate::text::copy_range(b, 4, b.len());
    match crate::text::decode_lower_hex(digits.as_slice(), n) {
        Some(out) => Ok(out),
        None => Err(SdkError::ResultField),
    }
}

fn number_at(entries: &Vec<(String, JsonValue)>, k: &str) -> (r: Option<u64>)
    ensures
        r == match member(entries@, k.spec_bytes()) {
            Some(JsonValue::Number(Some(n))) => Some(n),
            _ => None::<u64>,
        },
{
    match find_member(entries, k) {
        Some(JsonValue::Number(Some(n))) => Some(*n),
        _ => None,
    }
}

/// Decodes an outcome object; see `outcome_of`.
pub fn decode_outcome(value: &JsonValue) -> (r: Result<RunOutcome, SdkError>)
    ensures
        r == outcome_of(*value),
{
    proof {
        reveal_strlit("exited");
        reveal_strlit("signaled");
    }
    let m = match value {
        JsonValue::Object(m) => m,
        _ => {
            return Err(SdkError::ResultField);
        },
    };
    let k = match find_member(m, "kind") {
        Some(JsonValue::String(k)) => k,
        _ => {
            return Err(SdkError::ResultField);
        },
    };
    let kind = k.as_str().as_bytes();
    assert(member(m@, "kind".spec_bytes()) == Some(JsonValue::String(*k)));
    assert(kind@ == string_bytes(*k));
    assert(*value == JsonValue::Object(*m));
    if bytes_equal(kind, "exited".as_bytes()) {
        decode_exited(m)
    } else if bytes_equal(kind, "signaled".as_bytes()) {
        decode_signaled(m)
    } else {
        match bodiless_kind(kind) {
            Some(o) => {
                let names: [&str; 1] = ["kind"];
                assert(names@ =~= seq!["kind"]);
                assert(strs_bytes_of(names@) =~= seq!["kind".spec_bytes()]);
                let ok = members_match(m, &names);
                if ok {
                    Ok(o)
                } else {
                    Err(SdkError::ResultUnknownField)
                }
            },
            None => Err(SdkError::ResultField),
        }
    }
}

fn decode_exited(m: &Vec<(String, JsonValue)>) -> (r: Result<RunOutcome, SdkError>)
    ensures
        r == exited_of(m@),
{
    proof {
        assert(strs_bytes_of(seq!["code", "kind"]) =~= seq!["code".spec_bytes(), "kind".spec_bytes()]);
    }
    if !members_match(m, &["code", "kind"]) {
        return Err(SdkError::ResultUnknownField);
    }
    match number_at(m, "code") {
        Some(n) => if n <= 255 {
            Ok(RunOutcome::Exited { code: n as u8 })
        } else {
            Err(SdkError::ResultField)
        },
        None => Err(SdkError::ResultField),
    }
}

fn decode_signaled(m: &Vec<(String, JsonValue)>) -> (r: Result<RunOutcome, SdkError>)
    ensures
        r == signaled_of(m@),
{
    proof {
        assert(strs_bytes_of(seq!["kind", "signal"]) =~= seq!["kind".spec_bytes(), "signal".spec_bytes()]);
    }
    if !members_match(m, &["kind", "signal"]) {
        return Err(SdkError::ResultUnknownField);
    }
    match number_at(m, "signal") {
        Some(n) => if 1 <= n && n <= 255 {
            Ok(RunOutcome::Signaled { signal: n as u8 })
        } else {
            Err(SdkError::ResultField)
        },
        None => Err(SdkError::ResultField),
    }
}

fn bodiless_kind(kind: &[u8]) -> (r: Option<RunOutcome>)
    ensures
        r == bodiless_outcome(kind@),
        (r == Some(RunOutcome::TimedOut)) <==> kind@ == "timed-out".spec_bytes(),
        (r == Some(RunOutcome::Denied)) <==> kind@ == "denied".spec_bytes(),
        (r == Some(RunOutcome::LauncherFailed)) <==> kind@ == "launcher-failed".spec_bytes(),
        (r == Some(RunOutcome::Incomplete)) <==> kind@ == "incomplete".spec_bytes(),
{
    proof {
        reveal_strlit("timed-out");
        reveal_strlit("denied");
        reveal_strlit("launcher-failed");
        reveal_strlit("incomplete");
        lemma_outcome_kind_names_differ();
    }
    if bytes_equal(kind, "timed-out".as_bytes()) {
        Some(RunOutcome::TimedOut)
    } else if bytes_equal(kind, "denied".as_bytes()) {
        Some(RunOutcome::Denied)
    } else if bytes_equal(kind, "launcher-failed".as_bytes()) {
        Some(RunOutcome::LauncherFailed)
    } else if bytes_equal(kind, "incomplete".as_bytes()) {
        Some(RunOutcome::Incomplete)
    } else {
        None
    }
}

impl RunResultProjection {
    /// The model of this projection.
    pub closed spec fn model(self) -> ProjectionModel {
        ProjectionModel {
            receipt: string_bytes(self.receipt),
            execution_id: self.execution_id@,
            commitment: self.commitment@,
            outcome: self.outcome,
        }
    }

    /// Decodes one closed result object from JSON bytes; bytes that are not one JSON
    /// document are `ResultMalformed`.
    pub fn from_json(input: &[u8]) -> (r: Result<Self, SdkError>)
        ensures
            match json_document(input@) {
                None => r == Err::<Self, SdkError>(SdkError::ResultMalformed),
                Some(v) => match projection_of(v) {
                    Ok(m) => r matches Ok(p) && p.model() == m,
                    Err(e) => r == Err::<Self, SdkError>(e),
                },
            },
    {
        match parse_json_document(input) {
            None => Err(SdkError::ResultMalformed),
            Some(value) => Self::from_value(&value),
        }
    }

    /// Decodes one closed result object; see `projection_of`. The JSON is display and
    /// control data and is never receipt verification input.
    pub fn from_value(value: &JsonValue) -> (r: Result<Self, SdkError>)
        ensures
            match projection_of(*value) {
                Ok(m) => r matches Ok(p) && p.model() == m,
                Err(e) => r == Err::<Self, SdkError>(e),
            },
    {
        proof {
            reveal_strlit("proofbound-runtime-run-result/2");
        }
        let m = match value {
            JsonValue::Object(m) => m,
            _ => {
                return Err(SdkError::ResultField);
            },
        };
        proof {
            assert(strs_bytes_of(seq!["commitment", "execution_id", "outcome", "receipt", "schema"]) =~= seq![
                "commitment".spec_bytes(),
                "execution_id".spec_bytes(),
                "outcome".spec_bytes(),
                "receipt".spec_bytes(),
                "schema".spec_bytes(),
            ]);
        }
        if !members_match(m, &["commitment", "execution_id", "outcome", "receipt", "schema"]) {
            return Err(SdkError::ResultUnknownField);
        }
        let schema = member_string(m, "schema")?;
        if !bytes_equal(schema.as_str().as_bytes(), RESULT_SCHEMA.as_bytes()) {
            return Err(SdkError::ResultSchema);
        }
        let receipt = member_string(m, "receipt")?;
        if receipt.as_str().as_bytes().len() == 0 {
            return Err(SdkError::ResultField);
        }
        let commitment_text = member_string(m, "commitment")?;
        let commitment = decode_prefixed(commitment_text, 32)?;
        let execution_text = member_string(m, "execution_id")?;
        let execution = decode_prefixed(execution_text, 16)?;
        if execution[6] / 16 != 4 || execution[8] / 64 != 2 {
            return Err(SdkError::ResultField);
        }
        let outcome_value = match find_member(m, "outcome") {
            Some(v) => v,
            None => {
                return Err(SdkError::ResultField);
            },
        };
        let outcome = decode_outcome(outcome_value)?;
        let mut execution_id = [0u8; 16];
        let mut k: usize = 0;
        while k < 16
            invariant
                k <= 16,
                execution@.len() == 16,
                forall|j: int| 0 <= j < k ==> execution_id@[j] == execution@[j],
            decreases 16 - k,
        {
            execution_id[k] = execution[k];
            k = k + 1;
        }
        let mut commitment_bytes = [0u8; 32];
        let mut k: usize = 0;
        while k < 32
            invariant
                k <= 32,
                commitment@.len() == 32,
                forall|j: int| 0 <= j < k ==> commitment_bytes@[j] == commitment@[j],
            decreases 32 - k,
        {
            commitment_bytes[k] = commitment[k];
            k = k + 1;
        }
        assert(execution_id@ =~= execution@);
        assert(commitment_bytes@ =~= commitment@);
        Ok(RunResultProjection { receipt: receipt.clone(), execution_id, commitment: commitment_bytes, outcome })
    }

    /// Returns the receipt name.
    pub fn receipt(&self) -> (r: &str)
        ensures
            r.spec_bytes() == self.model().receipt,
    {
        self.receipt.as_str()
    }

    /// Returns the execution identifier.
    pub fn execution_id(&self) -> (r: &[u8; 16])
        ensures
            r@ == self.model().execution_id,
    {
        &self.execution_id
    }

    /// Returns the receipt commitment.
    pub fn commitment(&self) -> (r: &[u8; 32])
        ensures
            r@ == self.model().commitment,
    {
        &self.commitment
    }

    /// Returns the child outcome.
    pub fn outcome(&self) -> (r: &RunOutcome)
        ensures
            *r == self.model().outcome,
    {
        &self.outcome
    }
}

} // verus!
