use proofbound_runtime::connector_prepare::{
    bind_declared_artifacts, check_connector_artifacts, check_plan_size, reaped_failure, require_connector_loader,
};
use proofbound_runtime::connector_process::{
    ConnectorFailure, ConnectorFailureStage, ConnectorProcessError, ServiceArtifactRole,
};
use proofbound_runtime::model::ArtifactRole;

#[test]
fn connector_artifacts_are_checked_by_role_then_size() {
    let library = ServiceArtifactRole::ConnectorRuntimeLibrary;
    let ok = |closure: &[ServiceArtifactRole], plan, trust_size| {
        check_connector_artifacts(
            ServiceArtifactRole::ConnectorExecutable,
            ServiceArtifactRole::TrustRootSet,
            ServiceArtifactRole::ResolverConfiguration,
            closure,
            plan,
            trust_size,
        )
    };
    assert_eq!(ok(&[library, library], ArtifactRole::ExecutionPlan, 1024), Ok(()));
    assert_eq!(
        ok(&[library, ServiceArtifactRole::TrustRootSet], ArtifactRole::ExecutionPlan, 1024),
        Err(ConnectorProcessError::ArtifactRole)
    );
    assert_eq!(ok(&[library], ArtifactRole::ProjectInput, 1024), Err(ConnectorProcessError::ArtifactRole));
    assert_eq!(ok(&[library], ArtifactRole::ExecutionPlan, 16_777_217), Err(ConnectorProcessError::ArtifactTooLarge));
    assert_eq!(
        check_connector_artifacts(
            ServiceArtifactRole::TrustRootSet,
            ServiceArtifactRole::TrustRootSet,
            ServiceArtifactRole::ResolverConfiguration,
            &[],
            ArtifactRole::ExecutionPlan,
            16_777_217,
        ),
        Err(ConnectorProcessError::ArtifactRole)
    );
    assert_eq!(check_plan_size(1_048_576), Ok(()));
    assert_eq!(check_plan_size(1_048_577), Err(ConnectorProcessError::ArtifactTooLarge));
}

#[test]
fn connector_loader_must_be_in_the_closure_and_executable() {
    let closure = vec![(b"/lib/libc.so.6".to_vec(), 0o644_u16), (b"/lib/ld-linux.so.2".to_vec(), 0o755_u16)];
    assert_eq!(require_connector_loader(None, &closure), Ok(()));
    assert_eq!(require_connector_loader(Some(b"/lib/ld-linux.so.2"), &closure), Ok(()));
    assert_eq!(
        require_connector_loader(Some(b"/lib/libc.so.6"), &closure),
        Err(ConnectorProcessError::ConnectorNotExecutable)
    );
    assert_eq!(
        require_connector_loader(Some(b"/lib/ld-musl.so.1"), &closure),
        Err(ConnectorProcessError::ConnectorLoaderMissing)
    );
}

#[test]
fn resolved_artifacts_bind_to_the_declared_paths() {
    let closure = vec![b"/lib/a".to_vec(), b"/lib/b".to_vec()];
    assert_eq!(
        bind_declared_artifacts(b"/bin/c", b"/etc/roots", b"/etc/resolv", &closure, b"/bin/c", b"/etc/roots", b"/etc/resolv", &closure),
        Ok(())
    );
    let reordered = vec![b"/lib/b".to_vec(), b"/lib/a".to_vec()];
    assert_eq!(
        bind_declared_artifacts(b"/bin/c", b"/etc/roots", b"/etc/resolv", &closure, b"/bin/c", b"/etc/roots", b"/etc/resolv", &reordered),
        Err(ConnectorProcessError::BindingInvalid)
    );
    assert_eq!(
        bind_declared_artifacts(b"/bin/c", b"/etc/roots", b"/etc/resolv", &closure, b"/bin/d", b"/etc/roots", b"/etc/resolv", &closure),
        Err(ConnectorProcessError::BindingInvalid)
    );
    let failure = ConnectorFailure::new(ConnectorFailureStage::Resolution, 1).expect("valid failure");
    assert_eq!(reaped_failure(Ok(()), failure), ConnectorProcessError::ConnectorFailed(failure));
    assert_eq!(reaped_failure(Err(ConnectorProcessError::Timeout), failure), ConnectorProcessError::Timeout);
}
