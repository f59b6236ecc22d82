use proofbound_runtime::connector_process::{
    bootstrap_arguments, decode_endpoint, decode_report, encode_endpoint, encode_failure,
    encode_ready, encode_terminal, parse_connector_bootstrap, require_ready_binding,
    validate_terminal, ConnectorBootstrap, ConnectorFailure, ConnectorFailureStage,
    ConnectorProcessError, ConnectorProcessGeneration, ConnectorReady, ConnectorReport,
    ConnectorTerminal, EndpointAddress, ServiceChannelId, ServiceEndpoint, TlsVersion,
};
use proofbound_runtime::model::{ExecutionId, Sha256Digest};

fn execution_id() -> ExecutionId {
    ExecutionId::from_bytes([
        0x00, 0x11, 0x22, 0x33, 0x44, 0x55, 0x46, 0x77, 0x88, 0x99, 0xaa, 0xbb, 0xcc, 0xdd, 0xee, 0xff,
    ])
    .expect("fixture identifier is valid")
}

fn generation(value: u64) -> ConnectorProcessGeneration {
    ConnectorProcessGeneration::new(value).expect("fixture generation is nonzero")
}

fn channel_id(byte: u8) -> ServiceChannelId {
    ServiceChannelId::new([byte; 16]).expect("fixture channel identity is nonzero")
}

fn ready(process_generation: u64, endpoint: ServiceEndpoint, handshake_bytes: u64, authenticated_ns: u64) -> ConnectorReady {
    ConnectorReady::new(
        execution_id(),
        Sha256Digest::from_bytes([1; 32]),
        generation(process_generation),
        channel_id(2),
        Sha256Digest::from_bytes([8; 32]),
        Sha256Digest::from_bytes([3; 32]),
        endpoint,
        TlsVersion::Tls13,
        Sha256Digest::from_bytes([4; 32]),
        Sha256Digest::from_bytes([5; 32]),
        handshake_bytes,
        authenticated_ns,
    )
    .expect("fixture endpoint has a port")
}

fn ipv4_endpoint() -> ServiceEndpoint {
    ServiceEndpoint::new(EndpointAddress::V4([192, 0, 2, 10]), 443)
}

fn terminal(child_to_service_bytes: u64, service_to_child_bytes: u64, active_ns: u64, closed_ns: u64) -> ConnectorTerminal {
    ConnectorTerminal::new(child_to_service_bytes, service_to_child_bytes, active_ns, closed_ns)
}

#[test]
fn bootstrap_is_closed_and_descriptor_set_is_unique() {
    let arguments = bootstrap_arguments(
        ConnectorBootstrap::new(
            3,
            4,
            5,
            6,
            execution_id(),
            Sha256Digest::from_bytes([1; 32]),
            generation(7),
            channel_id(2),
            Sha256Digest::from_bytes([3; 32]),
            Sha256Digest::from_bytes([4; 32]),
            Sha256Digest::from_bytes([5; 32]),
            Sha256Digest::from_bytes([6; 32]),
            Sha256Digest::from_bytes([7; 32]),
        )
        .expect("fixture bootstrap is valid"),
    );
    assert!(parse_connector_bootstrap(&arguments).is_ok());
    let mut duplicate = arguments.clone();
    duplicate[5] = "3".to_owned();
    assert_eq!(parse_connector_bootstrap(&duplicate), Err(ConnectorProcessError::BootstrapInvalid));
    let mut unknown = arguments;
    unknown[0] = "--unknown".to_owned();
    assert_eq!(parse_connector_bootstrap(&unknown), Err(ConnectorProcessError::BootstrapInvalid));
}

#[test]
fn report_decoder_rejects_mutation_and_out_of_order_shapes() {
    let ready = ready(1, ipv4_endpoint(), 8_192, 4_000);
    let encoded = encode_ready(ready);
    assert_eq!(decode_report(&encoded), Ok(ConnectorReport::Ready(ready)));
    for index in [0, 8, 57, 164] {
        let mut mutated = encoded.clone();
        mutated[index] ^= 1;
        assert_ne!(decode_report(&mutated), Ok(ConnectorReport::Ready(ready)));
    }
    let mut noncanonical_endpoint = encoded.clone();
    noncanonical_endpoint[150] = 1;
    assert_eq!(decode_report(&noncanonical_endpoint), Err(ConnectorProcessError::Protocol));
    let mut zero_port = encoded;
    zero_port[162] = 0;
    zero_port[163] = 0;
    assert_eq!(decode_report(&zero_port), Err(ConnectorProcessError::Protocol));
    assert_eq!(
        decode_report(&encode_terminal(terminal(1, 2, 3, 4))),
        Ok(ConnectorReport::Terminal(terminal(1, 2, 3, 4)))
    );
}

#[test]
fn ready_binding_rejects_each_identity_substitution() {
    let endpoint = ServiceEndpoint::new(
        EndpointAddress::V6([0x20, 0x01, 0x0d, 0xb8, 0, 0, 0, 0, 0, 0, 0, 0, 0, 0, 0, 0x10]),
        443,
    );
    let ready = ready(3, endpoint, 8, 9);
    assert!(require_ready_binding(
        ready,
        execution_id(),
        Sha256Digest::from_bytes([1; 32]),
        generation(3),
        channel_id(2),
        Sha256Digest::from_bytes([8; 32]),
    )
    .is_ok());
    assert_eq!(
        require_ready_binding(
            ready,
            execution_id(),
            Sha256Digest::from_bytes([9; 32]),
            generation(3),
            channel_id(2),
            Sha256Digest::from_bytes([8; 32]),
        ),
        Err(ConnectorProcessError::BindingInvalid)
    );
    assert_eq!(
        require_ready_binding(
            ready,
            execution_id(),
            Sha256Digest::from_bytes([1; 32]),
            generation(4),
            channel_id(2),
            Sha256Digest::from_bytes([8; 32]),
        ),
        Err(ConnectorProcessError::BindingInvalid)
    );
    assert_eq!(
        require_ready_binding(
            ready,
            execution_id(),
            Sha256Digest::from_bytes([1; 32]),
            generation(3),
            channel_id(8),
            Sha256Digest::from_bytes([8; 32]),
        ),
        Err(ConnectorProcessError::BindingInvalid)
    );
    assert_eq!(
        require_ready_binding(
            ready,
            execution_id(),
            Sha256Digest::from_bytes([1; 32]),
            generation(3),
            channel_id(2),
            Sha256Digest::from_bytes([9; 32]),
        ),
        Err(ConnectorProcessError::BindingInvalid)
    );
}

#[test]
fn terminal_report_must_match_ready_time_and_directional_limits() {
    let ready = ready(3, ipv4_endpoint(), 8, 9);
    let base = terminal(10, 20, 9, 30);
    assert!(validate_terminal(base, ready, 10, 20).is_ok());
    for invalid in [terminal(11, 20, 9, 30), terminal(10, 21, 9, 30), terminal(10, 20, 8, 30), terminal(10, 20, 9, 7)] {
        assert_eq!(validate_terminal(invalid, ready, 10, 20), Err(ConnectorProcessError::BindingInvalid));
    }
}

#[test]
fn endpoints_and_failures_round_trip_through_their_encodings() {
    let endpoint = ipv4_endpoint();
    assert_eq!(decode_endpoint(&encode_endpoint(endpoint)), Ok(endpoint));
    let failure = ConnectorFailure::new(ConnectorFailureStage::Resolution, 1).expect("valid failure");
    assert_eq!(decode_report(&encode_failure(failure)), Ok(ConnectorReport::Failure(failure)));
    assert_eq!(ConnectorProcessGeneration::new(0), Err(ConnectorProcessError::BindingInvalid));
    assert!(ServiceChannelId::new([0; 16]).is_err());
    assert_eq!(decode_report(&[]), Err(ConnectorProcessError::Protocol));
}
