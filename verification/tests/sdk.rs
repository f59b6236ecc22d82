use proofbound_runtime::sdk::{
    decode_outcome, CredentialSourceV2Input, JsonValue, NetworkAuthorityV2Input, PlanV2, PlanV2Input,
    ResolutionV2Input, ResolverAddressV2Input, RunOutcome, RunResultProjection, SdkError,
    ServiceSessionLimitsV2Input, ServiceSessionV2Input, TlsV2Input,
};

fn golden_input() -> PlanV2Input {
    PlanV2Input {
        id: "golden-v2".to_owned(),
        executable: "bin/hello".to_owned(),
        arguments: Vec::new(),
        working_directory: ".".to_owned(),
        read: Vec::new(),
        runtime_read: Vec::new(),
        write: vec!["out".to_owned()],
        execute: vec!["bin/hello".to_owned()],
        environment: Vec::new(),
        processes: 2,
        wall_time_ms: 1_000,
        stdout_bytes: 1_024,
        stderr_bytes: 1_024,
        memory_bytes: 65_536,
        swap_bytes: 0,
    }
}

fn service_session() -> NetworkAuthorityV2Input {
    NetworkAuthorityV2Input::AuthenticatedServiceSession(Box::new(ServiceSessionV2Input {
        service: "api.anthropic.com".to_owned(),
        port: 443,
        resolution: ResolutionV2Input {
            address: ResolverAddressV2Input::Ipv4([1, 1, 1, 1]),
            port: 53,
            configuration: "/etc/proofbound/resolver.conf".to_owned(),
            maximum_cname_depth: 8,
            maximum_answer_count: 16,
            maximum_response_bytes: 65_536,
            resolution_deadline_ms: 5_000,
            attempt_deadline_ms: 1_000,
        },
        tls: TlsV2Input {
            trust_root_set: "/etc/ssl/certs/ca-certificates.crt".to_owned(),
            minimum_version: "tls-1.3".to_owned(),
        },
        limits: ServiceSessionLimitsV2Input {
            setup_time_ms: 10_000,
            session_time_ms: 30_000,
            child_to_service_bytes: 1_048_576,
            service_to_child_bytes: 1_048_576,
            dns_messages: 4,
            endpoint_attempts: 4,
            tls_handshake_bytes: 262_144,
        },
        connector_executable: "/usr/libexec/proofbound-connector".to_owned(),
        connector_runtime_read: vec!["/usr/lib".to_owned()],
        child_descriptor: 9,
        credential_source: Some(CredentialSourceV2Input {
            id: "anthropic-test".to_owned(),
            service: "api.anthropic.com".to_owned(),
            environment: "API_KEY".to_owned(),
        }),
    }))
}

fn hex(bytes: &[u8]) -> String {
    bytes.iter().map(|byte| format!("{byte:02x}")).collect()
}

const GOLDEN_PLAN: &str = "a562696469676f6c64656e2d7632666c696d697473a66970726f636573736573026a737761705f6279746573006c6d65\
    6d6f72795f62797465731a000100006c7374646572725f62797465731904006c7374646f75745f62797465731904006c\
    77616c6c5f74696d655f6d731903e866736368656d61781970726f6f66626f756e642d72756e74696d652d706c616e2f\
    3267636f6d6d616e64a369617267756d656e7473806a65786563757461626c656962696e2f68656c6c6f71776f726b69\
    6e675f6469726563746f7279612e69617574686f72697479a664726561648065777269746581636f7574676578656375\
    7465816962696e2f68656c6c6f676e6574776f726b6464656e796b656e7669726f6e6d656e74806c72756e74696d655f\
    7265616480";

const GOLDEN_SERVICE_SESSION_PLAN: &str = "a562696469676f6c64656e2d7632666c696d697473a66970726f636573736573026a737761705f6279746573006c6d65\
    6d6f72795f62797465731a000100006c7374646572725f62797465731904006c7374646f75745f62797465731904006c\
    77616c6c5f74696d655f6d731903e866736368656d61781970726f6f66626f756e642d72756e74696d652d706c616e2f\
    3267636f6d6d616e64a369617267756d656e7473806a65786563757461626c656962696e2f68656c6c6f71776f726b69\
    6e675f6469726563746f7279612e69617574686f72697479a664726561648065777269746581636f7574676578656375\
    7465816962696e2f68656c6c6f676e6574776f726ba963746c73a66a6561726c795f646174616464656e796a7265766f\
    636174696f6e781f6e6f742d636865636b65642d7265636f726465642d617373756d7074696f6e6e74727573745f726f\
    6f745f73657478222f6574632f73736c2f63657274732f63612d6365727469666963617465732e6372746f6d696e696d\
    756d5f76657273696f6e67746c732d312e337273657373696f6e5f726573756d7074696f6e6464656e79781973657276\
    6963655f6e616d655f766572696669636174696f6e6d646e732d73616e2d6578616374646d6f6465781d61757468656e\
    746963617465642d736572766963652d73657373696f6e666c696d697473a76c646e735f6d65737361676573046d7365\
    7475705f74696d655f6d731927106f73657373696f6e5f74696d655f6d7319753071656e64706f696e745f617474656d\
    7074730473746c735f68616e647368616b655f62797465731a00040000766368696c645f746f5f736572766963655f62\
    797465731a0010000076736572766963655f746f5f6368696c645f62797465731a001000006773657276696365a2646e\
    616d65716170692e616e7468726f7069632e636f6d64706f72741901bb687265736f6c766572a964706f727418356761\
    646472657373a265627974657344010101016666616d696c7964697076346d616464726573735f6f72646572781c6970\
    76342d7468656e2d697076362d6c657869636f677261706869636d636f6e66696775726174696f6e781d2f6574632f70\
    726f6f66626f756e642f7265736f6c7665722e636f6e6673617474656d70745f646561646c696e655f6d731903e8736d\
    6178696d756d5f636e616d655f646570746808746d6178696d756d5f616e737765725f636f756e7410766d6178696d75\
    6d5f726573706f6e73655f62797465731a00010000767265736f6c7574696f6e5f646561646c696e655f6d731913886d\
    6c6f63616c5f6368616e6e656ca26870726f746f636f6c6e756e69782d73747265616d2d7631706368696c645f646573\
    63726970746f72097163726564656e7469616c5f736f75726365a36269646e616e7468726f7069632d74657374677365\
    7276696365716170692e616e7468726f7069632e636f6d6b656e7669726f6e6d656e74674150495f4b455974636f6e6e\
    6563746f725f65786563757461626c6578212f7573722f6c6962657865632f70726f6f66626f756e642d636f6e6e6563\
    746f7276636f6e6e6563746f725f72756e74696d655f7265616481682f7573722f6c69626b656e7669726f6e6d656e74\
    81674150495f4b45596c72756e74696d655f7265616480";

#[test]
fn rust_plan_matches_the_frozen_v2_golden() {
    let plan = PlanV2::new(golden_input()).expect("golden plan validates");
    assert_eq!(hex(plan.as_bytes()), GOLDEN_PLAN);
}

#[test]
fn duplicate_or_mismatched_authority_is_rejected_before_encoding() {
    let mut duplicate = golden_input();
    duplicate.read = vec!["input".to_owned(), "input".to_owned()];
    assert_eq!(PlanV2::new(duplicate), Err(SdkError::PlanDuplicate));
    let mut mismatch = golden_input();
    mismatch.execute = vec!["bin/other".to_owned()];
    assert_eq!(PlanV2::new(mismatch), Err(SdkError::PlanShape));
}

fn session_input() -> ServiceSessionV2Input {
    let NetworkAuthorityV2Input::AuthenticatedServiceSession(session) = service_session() else {
        unreachable!()
    };
    *session
}

#[test]
fn service_session_encoding_is_closed_and_validated() {
    let mut input = golden_input();
    input.environment.push("API_KEY".to_owned());
    let plan = PlanV2::new_with_network(input.clone(), service_session()).expect("service session validates");
    assert_eq!(hex(plan.as_bytes()), GOLDEN_SERVICE_SESSION_PLAN);

    let mut invalid = session_input();
    invalid.service = "API.anthropic.com".to_owned();
    assert_eq!(
        PlanV2::new_with_network(input.clone(), NetworkAuthorityV2Input::AuthenticatedServiceSession(Box::new(invalid))),
        Err(SdkError::PlanNetwork)
    );

    let mut invalid = session_input();
    invalid.limits.setup_time_ms = invalid.resolution.resolution_deadline_ms - 1;
    assert_eq!(
        PlanV2::new_with_network(input.clone(), NetworkAuthorityV2Input::AuthenticatedServiceSession(Box::new(invalid))),
        Err(SdkError::PlanNetwork)
    );

    let mut invalid = session_input();
    invalid.limits.dns_messages = 1;
    assert_eq!(
        PlanV2::new_with_network(input, NetworkAuthorityV2Input::AuthenticatedServiceSession(Box::new(invalid))),
        Err(SdkError::PlanNetwork)
    );

    let mut input = golden_input();
    input.environment.push("API_KEY".to_owned());
    let mut invalid = session_input();
    invalid.credential_source.as_mut().expect("fixture source").service = "other.example.com".to_owned();
    assert_eq!(
        PlanV2::new_with_network(input.clone(), NetworkAuthorityV2Input::AuthenticatedServiceSession(Box::new(invalid))),
        Err(SdkError::PlanNetwork)
    );

    let mut invalid = session_input();
    invalid.credential_source.as_mut().expect("fixture source").environment = "MISSING_KEY".to_owned();
    assert_eq!(
        PlanV2::new_with_network(input.clone(), NetworkAuthorityV2Input::AuthenticatedServiceSession(Box::new(invalid))),
        Err(SdkError::PlanNetwork)
    );

    let mut invalid = session_input();
    invalid.connector_runtime_read = vec!["/usr/\0lib".to_owned()];
    assert_eq!(
        PlanV2::new_with_network(input, NetworkAuthorityV2Input::AuthenticatedServiceSession(Box::new(invalid))),
        Err(SdkError::PlanNetwork)
    );
}

#[test]
fn resolver_address_width_is_fixed_by_the_public_type() {
    let ResolverAddressV2Input::Ipv4(ipv4) = ResolverAddressV2Input::Ipv4([1, 1, 1, 1]) else {
        unreachable!()
    };
    let ResolverAddressV2Input::Ipv6(ipv6) = ResolverAddressV2Input::Ipv6([0; 16]) else {
        unreachable!()
    };
    assert_eq!(ipv4.len(), 4);
    assert_eq!(ipv6.len(), 16);
}

#[test]
fn standalone_validator_rejects_every_bounded_input_class() {
    let mut invalid_id = golden_input();
    invalid_id.id = "Uppercase".to_owned();
    assert_eq!(PlanV2::new(invalid_id), Err(SdkError::PlanId));

    let mut invalid_text = golden_input();
    invalid_text.arguments = vec!["nul\0argument".to_owned()];
    assert_eq!(PlanV2::new(invalid_text), Err(SdkError::PlanField));

    let mut relative_runtime = golden_input();
    relative_runtime.runtime_read = vec!["relative".to_owned()];
    assert_eq!(PlanV2::new(relative_runtime), Err(SdkError::PlanRuntimeRead));

    let mut zero_processes = golden_input();
    zero_processes.processes = 0;
    assert_eq!(PlanV2::new(zero_processes), Err(SdkError::PlanLimit));

    let mut unquantized = golden_input();
    unquantized.memory_bytes += 1;
    assert_eq!(PlanV2::new(unquantized), Err(SdkError::PlanLimitQuantum));
}

#[test]
fn run_result_projection_is_closed_and_validates_external_identities() {
    let input = br#"{"schema":"proofbound-runtime-run-result/2","outcome":{"kind":"exited","code":0},"receipt":"receipt.cbor","commitment":"hex:0909090909090909090909090909090909090909090909090909090909090909","execution_id":"hex:00000000000040008000000000000000"}"#;
    let result = RunResultProjection::from_json(input).expect("projection validates");
    assert_eq!(result.outcome(), &RunOutcome::Exited { code: 0 });
    assert_eq!(result.receipt(), "receipt.cbor");

    let unknown = input
        .strip_suffix(b"}")
        .unwrap()
        .iter()
        .copied()
        .chain(b",\"verified\":true}".iter().copied())
        .collect::<Vec<_>>();
    assert_eq!(RunResultProjection::from_json(&unknown), Err(SdkError::ResultUnknownField));
}

#[test]
fn projection_decodes_identities_and_rejects_each_invalid_field() {
    let valid = br#"{"schema":"proofbound-runtime-run-result/2","outcome":{"kind":"signaled","signal":9},"receipt":"r","commitment":"hex:0909090909090909090909090909090909090909090909090909090909090909","execution_id":"hex:00000000000040008000000000000000"}"#;
    let result = RunResultProjection::from_json(valid).expect("projection validates");
    assert_eq!(result.outcome(), &RunOutcome::Signaled { signal: 9 });
    assert_eq!(result.commitment(), &[9; 32]);
    assert_eq!(result.execution_id()[6], 0x40);
    assert_eq!(result.execution_id()[8], 0x80);
    let schema = br#"{"schema":"proofbound-runtime-run-result/1","outcome":{"kind":"denied"},"receipt":"r","commitment":"hex:0909090909090909090909090909090909090909090909090909090909090909","execution_id":"hex:00000000000040008000000000000000"}"#;
    assert_eq!(RunResultProjection::from_json(schema), Err(SdkError::ResultSchema));
    let version = br#"{"schema":"proofbound-runtime-run-result/2","outcome":{"kind":"denied"},"receipt":"r","commitment":"hex:0909090909090909090909090909090909090909090909090909090909090909","execution_id":"hex:00000000000030008000000000000000"}"#;
    assert_eq!(RunResultProjection::from_json(version), Err(SdkError::ResultField));
    let upper = br#"{"schema":"proofbound-runtime-run-result/2","outcome":{"kind":"denied"},"receipt":"r","commitment":"hex:0A09090909090909090909090909090909090909090909090909090909090909","execution_id":"hex:00000000000040008000000000000000"}"#;
    assert_eq!(RunResultProjection::from_json(upper), Err(SdkError::ResultField));
    assert_eq!(RunResultProjection::from_json(b"{"), Err(SdkError::ResultMalformed));
    assert_eq!(RunResultProjection::from_json(b"[]"), Err(SdkError::ResultField));
}

#[test]
fn outcome_objects_are_closed() {
    let object = |entries: Vec<(&str, JsonValue)>| {
        JsonValue::Object(entries.into_iter().map(|(k, v)| (k.to_owned(), v)).collect())
    };
    let kind = |k: &str| JsonValue::String(k.to_owned());
    assert_eq!(decode_outcome(&object(vec![("kind", kind("timed-out"))])), Ok(RunOutcome::TimedOut));
    assert_eq!(
        decode_outcome(&object(vec![("kind", kind("launcher-failed"))])),
        Ok(RunOutcome::LauncherFailed)
    );
    assert_eq!(decode_outcome(&object(vec![("kind", kind("incomplete"))])), Ok(RunOutcome::Incomplete));
    assert_eq!(
        decode_outcome(&object(vec![("kind", kind("denied")), ("code", JsonValue::Number(Some(1)))])),
        Err(SdkError::ResultUnknownField)
    );
    assert_eq!(
        decode_outcome(&object(vec![("kind", kind("exited")), ("code", JsonValue::Number(Some(256)))])),
        Err(SdkError::ResultField)
    );
    assert_eq!(
        decode_outcome(&object(vec![("kind", kind("signaled")), ("signal", JsonValue::Number(Some(0)))])),
        Err(SdkError::ResultField)
    );
    assert_eq!(decode_outcome(&object(vec![("kind", kind("paused"))])), Err(SdkError::ResultField));
    assert_eq!(decode_outcome(&JsonValue::Null), Err(SdkError::ResultField));
}

#[test]
fn deterministic_encoding_does_not_depend_on_list_identity() {
    let first = PlanV2::new(golden_input()).expect("golden plan validates");
    let second = PlanV2::new(golden_input()).expect("golden plan validates");
    assert_eq!(first.as_bytes(), second.as_bytes());
    assert_eq!(first.clone().into_bytes(), first.as_bytes().to_vec());
    assert_eq!(first.as_bytes()[0], 0xa5);
    assert_eq!(SdkError::PlanNetwork.code(), "sdk.plan.network-invalid");
}
