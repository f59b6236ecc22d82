//! The decisions of preparing one connector before it is spawned: the roles and
//! sizes of its artifacts, the loader its executable names, and the binding of the
//! resolved artifacts to the paths the plan declares.
use vstd::prelude::*;

use crate::connector_process::{
    ConnectorFailure, ConnectorProcessError, ServiceArtifactRole, MAX_PLAN_BYTES, MAX_TRUST_ROOT_BYTES,
};
use crate::model::ArtifactRole;

verus! {

/// The first departure of the connector's artifacts from their roles and the trust-root
/// size limit, checked in this order: the connector executable, the trust-root set, the
/// resolver configuration, every runtime-closure artifact, the execution plan, and the
/// trust-root size.
pub open spec fn connector_artifact_error(
    connector: ServiceArtifactRole,
    trust_root: ServiceArtifactRole,
    resolver: ServiceArtifactRole,
    closure: Seq<ServiceArtifactRole>,
    plan: ArtifactRole,
    trust_root_size: u64,
) -> Result<(), ConnectorProcessError> {
    if connector != ServiceArtifactRole::ConnectorExecutable || trust_root != ServiceArtifactRole::TrustRootSet
        || resolver != ServiceArtifactRole::ResolverConfiguration || (exists|i: int|
        0 <= i < closure.len() && #[trigger] closure[i] != ServiceArtifactRole::ConnectorRuntimeLibrary)
        || plan != ArtifactRole::ExecutionPlan {
        Err(ConnectorProcessError::ArtifactRole)
    } else if trust_root_size > MAX_TRUST_ROOT_BYTES {
        Err(ConnectorProcessError::ArtifactTooLarge)
    } else {
        Ok(())
    }
}

/// Checks the roles of the connector's artifacts and the size of its trust-root set;
/// see `connector_artifact_error`.
pub fn check_connector_artifacts(
    connector: ServiceArtifactRole,
    trust_root: ServiceArtifactRole,
    resolver: ServiceArtifactRole,
    closure: &[ServiceArtifactRole],
    plan: ArtifactRole,
    trust_root_size: u64,
) -> (r: Result<(), ConnectorProcessError>)
    ensures
        r == connector_artifact_error(connector, trust_root, resolver, closure@, plan, trust_root_size),
{
    if connector != ServiceArtifactRole::ConnectorExecutable || trust_root != ServiceArtifactRole::TrustRootSet
        || resolver != ServiceArtifactRole::ResolverConfiguration {
        return Err(ConnectorProcessError::ArtifactRole);
    }
    let mut k: usize = 0;
    while k < closure.len()
        invariant
            k <= closure@.len(),
            forall|i: int| 0 <= i < k ==> closure@[i] == ServiceArtifactRole::ConnectorRuntimeLibrary,
        decreases closure@.len() - k,
    {
        if closure[k] != ServiceArtifactRole::ConnectorRuntimeLibrary {
            assert(closure@[k as int] != ServiceArtifactRole::ConnectorRuntimeLibrary);
            return Err(ConnectorProcessError::ArtifactRole);
        }
        k = k + 1;
    }
    if plan != ArtifactRole::ExecutionPlan {
        return Err(ConnectorProcessError::ArtifactRole);
    }
    if trust_root_size > MAX_TRUST_ROOT_BYTES {
        return Err(ConnectorProcessError::ArtifactTooLarge);
    }
    Ok(())
}

/// Checks the size of the plan, read after the plan's identity was revalidated: a plan
/// above `MAX_PLAN_BYTES` is `ArtifactTooLarge`.
pub fn check_plan_size(plan_size: u64) -> (r: Result<(), ConnectorProcessError>)
    ensures
        plan_size <= MAX_PLAN_BYTES ==> r is Ok,
        plan_size > MAX_PLAN_BYTES ==> r == Err::<(), ConnectorProcessError>(ConnectorProcessError::ArtifactTooLarge),
{
    if plan_size > MAX_PLAN_BYTES {
        Err(ConnectorProcessError::ArtifactTooLarge)
    } else {
        Ok(())
    }
}

/// The index of the first runtime-closure artifact requested at `path`.
pub open spec fn first_at_path(closure: Seq<(Seq<u8>, u16)>, path: Seq<u8>) -> Option<int> {
    if exists|i: int| 0 <= i < closure.len() && closure[i].0 == path {
        Some(choose|i: int| 0 <= i < closure.len() && closure[i].0 == path && forall|j: int| 0 <= j < i ==> closure[j].0 != path)
    } else {
        None
    }
}

/// The error of the loader check: a connector without an interpreter needs no loader;
/// otherwise the first runtime-closure artifact requested at the interpreter's path is
/// the loader, which must exist and carry an execute bit.
pub open spec fn connector_loader_error(interpreter: Option<Seq<u8>>, closure: Seq<(Seq<u8>, u16)>) -> Result<
    (),
    ConnectorProcessError,
> {
    match interpreter {
        None => Ok(()),
        Some(path) => match first_at_path(closure, path) {
            None => Err(ConnectorProcessError::ConnectorLoaderMissing),
            Some(i) => if closure[i].1 & 0o111u16 == 0 {
                Err(ConnectorProcessError::ConnectorNotExecutable)
            } else {
                Ok(())
            },
        },
    }
}

/// The requested path and mode bits of each runtime-closure artifact.
pub open spec fn closure_model(closure: Seq<(Vec<u8>, u16)>) -> Seq<(Seq<u8>, u16)> {
    closure.map_values(|c: (Vec<u8>, u16)| (c.0@, c.1))
}

/// Finds the connector's loader in its runtime closure by the interpreter path the
/// connector executable names, and checks that it is executable; see
/// `connector_loader_error`.
pub fn require_connector_loader(interpreter: Option<&[u8]>, closure: &[(Vec<u8>, u16)]) -> (r: Result<
    (),
    ConnectorProcessError,
>)
    ensures
        r == connector_loader_error(
            match interpreter {
                Some(p) => Some(p@),
                None => None,
            },
            closure_model(closure@),
        ),
{
    let ghost m = closure_model(closure@);
    if interpreter.is_none() {
        return Ok(());
    }
    let path = interpreter.unwrap();
    let mut k: usize = 0;
    while k < closure.len()
        invariant
            k <= closure@.len(),
            m == closure_model(closure@),
            interpreter == Some(path),
            forall|j: int| 0 <= j < k ==> m[j].0 != path@,
        decreases closure@.len() - k,
    {
        if crate::text::bytes_equal(closure[k].0.as_slice(), path) {
            proof {
                assert(m[k as int] == (closure@[k as int].0@, closure@[k as int].1));
                assert(m[k as int].0 == path@);
                let i = first_at_path(m, path@)->0;
                assert(0 <= i < m.len() && m[i].0 == path@ && forall|j: int| 0 <= j < i ==> m[j].0 != path@);
                if i < k {
                    assert(m[i].0 != path@);
                }
                if k < i {
                    assert(m[k as int].0 != path@);
                }
                assert(i == k);
            }
            let mode: u16 = closure[k].1;
            let bits: u16 = mode & 0o111u16;
            proof {
                assert(mode == m[k as int].1);
                assert(bits == m[k as int].1 & 0o111u16);
            }
            if bits == 0 {
                return Err(ConnectorProcessError::ConnectorNotExecutable);
            }
            return Ok(());
        }
        k = k + 1;
    }
    proof {
        assert(!(exists|i: int| 0 <= i < m.len() && m[i].0 == path@));
    }
    Err(ConnectorProcessError::ConnectorLoaderMissing)
}

/// The resolved artifacts are the ones the plan declares: the connector executable,
/// the trust-root set and the resolver configuration each at its declared path, and
/// the runtime closure at the declared runtime-read paths, one for one in order.
pub open spec fn declared_binding_ok(
    connector_path: Seq<u8>,
    trust_root_path: Seq<u8>,
    resolver_path: Seq<u8>,
    closure_paths: Seq<Seq<u8>>,
    declared_connector: Seq<u8>,
    declared_trust_root: Seq<u8>,
    declared_resolver: Seq<u8>,
    declared_runtime_read: Seq<Seq<u8>>,
) -> bool {
    &&& connector_path == declared_connector
    &&& trust_root_path == declared_trust_root
    &&& resolver_path == declared_resolver
    &&& closure_paths.len() == declared_runtime_read.len()
    &&& forall|i: int| 0 <= i < closure_paths.len() ==> #[trigger] closure_paths[i] == declared_runtime_read[i]
}

/// The bytes of each path of a list.
pub open spec fn paths_model(paths: Seq<Vec<u8>>) -> Seq<Seq<u8>> {
    paths.map_values(|p: Vec<u8>| p@)
}

/// Binds the resolved artifacts to the paths the plan declares; any difference is
/// `BindingInvalid`. The resolved paths are the canonical paths the artifacts were
/// opened at, and the paths are compared byte for byte.
pub fn bind_declared_artifacts(
    connector_path: &[u8],
    trust_root_path: &[u8],
    resolver_path: &[u8],
    closure_paths: &[Vec<u8>],
    declared_connector: &[u8],
    declared_trust_root: &[u8],
    declared_resolver: &[u8],
    declared_runtime_read: &[Vec<u8>],
) -> (r: Result<(), ConnectorProcessError>)
    ensures
        r is Ok <==> declared_binding_ok(
            connector_path@,
            trust_root_path@,
            resolver_path@,
            paths_model(closure_paths@),
            declared_connector@,
            declared_trust_root@,
            declared_resolver@,
            paths_model(declared_runtime_read@),
        ),
        r matches Err(e) ==> e == ConnectorProcessError::BindingInvalid,
{
    let ghost a = paths_model(closure_paths@);
    let ghost b = paths_model(declared_runtime_read@);
    if !crate::text::bytes_equal(connector_path, declared_connector) || !crate::text::bytes_equal(
        trust_root_path,
        declared_trust_root,
    ) || !crate::text::bytes_equal(resolver_path, declared_resolver) || closure_paths.len()
        != declared_runtime_read.len() {
        return Err(ConnectorProcessError::BindingInvalid);
    }
    let mut k: usize = 0;
    while k < closure_paths.len()
        invariant
            k <= closure_paths@.len() == declared_runtime_read@.len(),
            a == paths_model(closure_paths@),
            b == paths_model(declared_runtime_read@),
            forall|i: int| 0 <= i < k ==> #[trigger] a[i] == b[i],
        decreases closure_paths@.len() - k,
    {
        if !crate::text::bytes_equal(closure_paths[k].as_slice(), declared_runtime_read[k].as_slice()) {
            proof {
                assert(a[k as int] != b[k as int]);
            }
            return Err(ConnectorProcessError::BindingInvalid);
        }
        k = k + 1;
    }
    Ok(())
}

/// The error a spawn ends with after reaping a connector that reported `failure`: the
/// reaping error, if reaping failed, else `ConnectorFailed(failure)`.
pub fn reaped_failure(reaped: Result<(), ConnectorProcessError>, failure: ConnectorFailure) -> (r:
    ConnectorProcessError)
    ensures
        r == match reaped {
            Err(e) => e,
            Ok(_) => ConnectorProcessError::ConnectorFailed(failure),
        },
{
    match reaped {
        Err(e) => e,
        Ok(_) => ConnectorProcessError::ConnectorFailed(failure),
    }
}

} // verus!
