use proofbound_runtime::connector_process::{
    encode_failure, encode_ready, setup_binding_digest, ConnectorFailure, ConnectorFailureStage,
    ConnectorProcessError, ConnectorProcessGeneration, ConnectorReady, EndpointAddress, ServiceChannelId,
    ServiceEndpoint, TlsVersion,
};
use proofbound_runtime::connector_spawn::{
    connector_spawn_start, connector_spawn_step, ConnectorSpawnAction, ConnectorSpawnEvent, ConnectorSpawnState,
};
use proofbound_runtime::model::{ExecutionId, Sha256Digest};

fn execution_id() -> ExecutionId {
    ExecutionId::from_bytes([0, 0x11, 0x22, 0x33, 0x44, 0x55, 0x46, 0x77, 0x88, 0x99, 0xaa, 0xbb, 0xcc, 0xdd, 0xee, 0xff])
        .expect("version 4")
}

fn generation() -> ConnectorProcessGeneration {
    ConnectorProcessGeneration::new(3).expect("nonzero")
}

fn channel_id() -> ServiceChannelId {
    ServiceChannelId::new([2; 16]).expect("nonzero")
}

fn digest(byte: u8) -> Sha256Digest {
    Sha256Digest::from_bytes([byte; 32])
}

fn start() -> ConnectorSpawnState {
    let (state, action) = connector_spawn_start(
        1,
        execution_id(),
        digest(1),
        generation(),
        channel_id(),
        digest(10),
        digest(11),
        digest(12),
        digest(13),
        digest(14),
    );
    assert!(matches!(action, ConnectorSpawnAction::PrepareReaper));
    state
}

fn spawned() -> ConnectorSpawnState {
    let (mut state, action) = connector_spawn_step(start(), ConnectorSpawnEvent::ReaperReady(Ok(()), true));
    assert!(matches!(action, ConnectorSpawnAction::Revalidate(0)));
    for k in 1..5 {
        let (next, action) = connector_spawn_step(state, ConnectorSpawnEvent::Revalidated(Ok(()), true));
        assert!(matches!(action, ConnectorSpawnAction::Revalidate(index) if index == k));
        state = next;
    }
    let (state, action) = connector_spawn_step(state, ConnectorSpawnEvent::Revalidated(Ok(()), true));
    assert!(matches!(action, ConnectorSpawnAction::CreateChannels));
    let (state, action) = connector_spawn_step(state, ConnectorSpawnEvent::ChannelsCreated(Ok([5, 6, 7, 8])));
    match action {
        ConnectorSpawnAction::PrepareInheritance(bootstrap) => {
            assert_eq!(bootstrap.plan_descriptor(), 5);
            assert_eq!(bootstrap.control_descriptor(), 8);
        },
        _ => panic!("bootstrap expected"),
    }
    let (state, action) = connector_spawn_step(state, ConnectorSpawnEvent::InheritancePrepared(Ok(()), true));
    assert!(matches!(action, ConnectorSpawnAction::SpawnConnector));
    let (state, action) = connector_spawn_step(state, ConnectorSpawnEvent::Spawned(Ok(())));
    assert!(matches!(action, ConnectorSpawnAction::ReceiveReport));
    state
}

fn ready(binding: Sha256Digest) -> ConnectorReady {
    ConnectorReady::new(
        execution_id(),
        digest(1),
        generation(),
        channel_id(),
        binding,
        digest(3),
        ServiceEndpoint::new(EndpointAddress::V4([192, 0, 2, 10]), 443),
        TlsVersion::Tls13,
        digest(4),
        digest(5),
        8,
        9,
    )
    .expect("fixture ready report")
}

#[test]
fn connector_spawn_accepts_only_a_bound_ready_report() {
    let binding = setup_binding_digest(
        execution_id(),
        digest(1),
        generation(),
        channel_id(),
        digest(10),
        digest(11),
        digest(12),
        digest(13),
        digest(14),
    );
    let (state, action) = connector_spawn_step(spawned(), ConnectorSpawnEvent::ReportReceived(Ok(encode_ready(ready(binding)))));
    assert!(matches!(action, ConnectorSpawnAction::ConfirmReady));
    let (_, action) = connector_spawn_step(state, ConnectorSpawnEvent::ReadyConfirmed(true));
    match action {
        ConnectorSpawnAction::Ready(r) => assert_eq!(r, ready(binding)),
        _ => panic!("ready expected"),
    }

    let (_, action) = connector_spawn_step(spawned(), ConnectorSpawnEvent::ReportReceived(Ok(encode_ready(ready(digest(7))))));
    assert!(matches!(action, ConnectorSpawnAction::Fail(ConnectorProcessError::BindingInvalid)));

    let (state, _) = connector_spawn_step(spawned(), ConnectorSpawnEvent::ReportReceived(Ok(encode_ready(ready(binding)))));
    let (_, action) = connector_spawn_step(state, ConnectorSpawnEvent::ReadyConfirmed(false));
    assert!(matches!(action, ConnectorSpawnAction::Fail(ConnectorProcessError::Timeout)));
}

#[test]
fn connector_spawn_reaps_failures_and_rejects_bad_setup() {
    let failure = ConnectorFailure::new(ConnectorFailureStage::Resolution, 1).expect("valid failure");
    let (_, action) = connector_spawn_step(spawned(), ConnectorSpawnEvent::ReportReceived(Ok(encode_failure(failure).to_vec())));
    assert!(matches!(action, ConnectorSpawnAction::ReapFailed(f) if f == failure));
    let (_, action) = connector_spawn_step(spawned(), ConnectorSpawnEvent::ReportReceived(Ok(Vec::new())));
    assert!(matches!(action, ConnectorSpawnAction::Fail(ConnectorProcessError::Protocol)));

    let (_, action) = connector_spawn_step(start(), ConnectorSpawnEvent::ReaperReady(Ok(()), false));
    assert!(matches!(action, ConnectorSpawnAction::Fail(ConnectorProcessError::Timeout)));
    let (state, _) = connector_spawn_step(start(), ConnectorSpawnEvent::ReaperReady(Ok(()), true));
    let (_, action) = connector_spawn_step(state, ConnectorSpawnEvent::Revalidated(Err(ConnectorProcessError::ArtifactRole), true));
    assert!(matches!(action, ConnectorSpawnAction::Fail(ConnectorProcessError::ArtifactRole)));
}
