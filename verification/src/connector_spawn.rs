//! The decisions of spawning one connector: revalidating every artifact within the
//! setup deadline, binding the inherited descriptors into the bootstrap, and
//! judging the connector's first report.
use vstd::prelude::*;

use crate::connector_process::{
    classify_setup_report, decode_report, inheritable, ready_binding_ok, report_of, setup_binding_bytes,
    setup_binding_digest, sha256, BootstrapModel, ConnectorBootstrap, ConnectorFailure, ConnectorFailureStage,
    ConnectorProcessError, ConnectorProcessGeneration, ConnectorReady, ReadyModel, ReportModel,
    ServiceChannelId, SetupOutcome, MAX_CONNECTOR_REPORT_BYTES,
};
use crate::model::{ExecutionId, Sha256Digest};

verus! {

/// The step a connector spawn waits on.
#[derive(Clone, Copy, Debug, PartialEq, Eq, Structural)]
pub enum ConnectorSpawnPhase {
    /// Preparing the reaper of spawned connectors.
    Reaper,
    /// Revalidating artifact `k`: the connector, the plan, the trust root, the
    /// resolver configuration, then each runtime-closure artifact.
    Revalidate(usize),
    /// Creating the control and channel socket pairs.
    Channels,
    /// Preparing the descriptors the connector inherits.
    Inherit,
    /// Spawning the connector.
    Spawn,
    /// Receiving the first report.
    Receive,
    /// Checking the setup deadline after a ready report.
    Confirm,
    /// Nothing is left to do.
    Finished,
}

/// What the caller reports after performing the last action.
pub enum ConnectorSpawnEvent {
    /// The reaper is ready, or its error; and whether the setup deadline is still ahead.
    ReaperReady(Result<(), ConnectorProcessError>, bool),
    /// The artifact was revalidated, or its error; and whether the deadline is still ahead.
    Revalidated(Result<(), ConnectorProcessError>, bool),
    /// The plan, trust-root, channel and control descriptors, or the socket error.
    ChannelsCreated(Result<[i32; 4], ConnectorProcessError>),
    /// The descriptors were prepared for inheritance, or the error; and whether the
    /// deadline is still ahead.
    InheritancePrepared(Result<(), ConnectorProcessError>, bool),
    /// The connector was spawned, or the error.
    Spawned(Result<(), ConnectorProcessError>),
    /// The first report packet, or the receive error.
    ReportReceived(Result<Vec<u8>, ConnectorProcessError>),
    /// Whether the setup deadline is still ahead after a ready report.
    ReadyConfirmed(bool),
}

/// What the caller must do next.
pub enum ConnectorSpawnAction {
    /// Prepare the reaper of spawned connectors.
    PrepareReaper,
    /// Revalidate artifact `k`.
    Revalidate(usize),
    /// Create the control and channel socket pairs.
    CreateChannels,
    /// Prepare the descriptors of this bootstrap for inheritance.
    PrepareInheritance(ConnectorBootstrap),
    /// Spawn the connector with the bootstrap's arguments.
    SpawnConnector,
    /// Receive the first report before the setup deadline.
    ReceiveReport,
    /// Check the setup deadline.
    ConfirmReady,
    /// The connector is ready and bound to this run.
    Ready(ConnectorReady),
    /// Reap the connector, then report its failure.
    ReapFailed(ConnectorFailure),
    /// Fail with this error.
    Fail(ConnectorProcessError),
    /// Nothing is left to do.
    Stop,
}

/// The model of a spawn state.
pub struct ConnectorSpawnModel {
    pub phase: ConnectorSpawnPhase,
    pub artifact_count: usize,
    pub execution: Seq<u8>,
    pub policy: Seq<u8>,
    pub generation: u64,
    pub channel: Seq<u8>,
    pub plan: Seq<u8>,
    pub trust_root: Seq<u8>,
    pub connector: Seq<u8>,
    pub runtime_closure: Seq<u8>,
    pub resolver_configuration: Seq<u8>,
    pub bootstrap: Option<BootstrapModel>,
    pub ready: Option<ReadyModel>,
}

/// The model of an event.
pub enum ConnectorEventModel {
    ReaperReady(Result<(), ConnectorProcessError>, bool),
    Revalidated(Result<(), ConnectorProcessError>, bool),
    ChannelsCreated(Result<Seq<i32>, ConnectorProcessError>),
    InheritancePrepared(Result<(), ConnectorProcessError>, bool),
    Spawned(Result<(), ConnectorProcessError>),
    ReportReceived(Result<Seq<u8>, ConnectorProcessError>),
    ReadyConfirmed(bool),
}

/// The model of an action.
pub enum ConnectorActionModel {
    PrepareReaper,
    Revalidate(usize),
    CreateChannels,
    PrepareInheritance(BootstrapModel),
    SpawnConnector,
    ReceiveReport,
    ConfirmReady,
    Ready(ReadyModel),
    ReapFailed(ConnectorFailureStage, u8),
    Fail(ConnectorProcessError),
    Stop,
}

impl ConnectorSpawnEvent {
    /// The model of this event.
    pub open spec fn model(&self) -> ConnectorEventModel {
        match self {
            ConnectorSpawnEvent::ReaperReady(r, w) => ConnectorEventModel::ReaperReady(*r, *w),
            ConnectorSpawnEvent::Revalidated(r, w) => ConnectorEventModel::Revalidated(*r, *w),
            ConnectorSpawnEvent::ChannelsCreated(r) => ConnectorEventModel::ChannelsCreated(match r {
                Ok(fds) => Ok(fds@),
                Err(e) => Err(*e),
            }),
            ConnectorSpawnEvent::InheritancePrepared(r, w) => ConnectorEventModel::InheritancePrepared(*r, *w),
            ConnectorSpawnEvent::Spawned(r) => ConnectorEventModel::Spawned(*r),
            ConnectorSpawnEvent::ReportReceived(r) => ConnectorEventModel::ReportReceived(match r {
                Ok(p) => Ok(p@),
                Err(e) => Err(*e),
            }),
            ConnectorSpawnEvent::ReadyConfirmed(w) => ConnectorEventModel::ReadyConfirmed(*w),
        }
    }
}

impl ConnectorSpawnAction {
    /// The model of this action.
    pub open spec fn model(&self) -> ConnectorActionModel {
        match self {
            ConnectorSpawnAction::PrepareReaper => ConnectorActionModel::PrepareReaper,
            ConnectorSpawnAction::Revalidate(k) => ConnectorActionModel::Revalidate(*k),
            ConnectorSpawnAction::CreateChannels => ConnectorActionModel::CreateChannels,
            ConnectorSpawnAction::PrepareInheritance(b) => ConnectorActionModel::PrepareInheritance(b.model()),
            ConnectorSpawnAction::SpawnConnector => ConnectorActionModel::SpawnConnector,
            ConnectorSpawnAction::ReceiveReport => ConnectorActionModel::ReceiveReport,
            ConnectorSpawnAction::ConfirmReady => ConnectorActionModel::ConfirmReady,
            ConnectorSpawnAction::Ready(r) => ConnectorActionModel::Ready(r.model()),
            ConnectorSpawnAction::ReapFailed(f) => ConnectorActionModel::ReapFailed(f.stage_of(), f.code_of()),
            ConnectorSpawnAction::Fail(e) => ConnectorActionModel::Fail(*e),
            ConnectorSpawnAction::Stop => ConnectorActionModel::Stop,
        }
    }
}

/// The action a state waits on.
pub open spec fn spawn_pending(m: ConnectorSpawnModel) -> ConnectorActionModel {
    match m.phase {
        ConnectorSpawnPhase::Reaper => ConnectorActionModel::PrepareReaper,
        ConnectorSpawnPhase::Revalidate(k) => ConnectorActionModel::Revalidate(k),
        ConnectorSpawnPhase::Channels => ConnectorActionModel::CreateChannels,
        ConnectorSpawnPhase::Inherit => ConnectorActionModel::PrepareInheritance(m.bootstrap->0),
        ConnectorSpawnPhase::Spawn => ConnectorActionModel::SpawnConnector,
        ConnectorSpawnPhase::Receive => ConnectorActionModel::ReceiveReport,
        ConnectorSpawnPhase::Confirm => ConnectorActionModel::ConfirmReady,
        ConnectorSpawnPhase::Finished => ConnectorActionModel::Stop,
    }
}

/// Moves to `phase` and asks for its action.
pub open spec fn spawn_go(m: ConnectorSpawnModel, phase: ConnectorSpawnPhase) -> (ConnectorSpawnModel, ConnectorActionModel) {
    let n = ConnectorSpawnModel { phase, ..m };
    (n, spawn_pending(n))
}

/// Ends the spawn with `action`.
pub open spec fn spawn_end(m: ConnectorSpawnModel, action: ConnectorActionModel) -> (
    ConnectorSpawnModel,
    ConnectorActionModel,
) {
    (ConnectorSpawnModel { phase: ConnectorSpawnPhase::Finished, ..m }, action)
}

/// The bootstrap the four descriptors give, when each is inheritable and all differ.
pub open spec fn bootstrap_of(m: ConnectorSpawnModel, fds: Seq<i32>) -> Option<BootstrapModel> {
    if fds.len() != 4 || fds[0] < 0 || fds[1] < 0 || fds[2] < 0 || fds[3] < 0 {
        None
    } else {
        let p = fds[0] as u32;
        let t = fds[1] as u32;
        let c = fds[2] as u32;
        let k = fds[3] as u32;
        if inheritable(p) && inheritable(t) && inheritable(c) && inheritable(k) && p != t && p != c && p != k
            && t != c && t != k && c != k {
            Some(
                BootstrapModel {
                    plan_fd: p,
                    trust_root_fd: t,
                    channel_fd: c,
                    control_fd: k,
                    execution: m.execution,
                    policy: m.policy,
                    generation: m.generation,
                    channel: m.channel,
                    plan: m.plan,
                    trust_root: m.trust_root,
                    connector: m.connector,
                    runtime_closure: m.runtime_closure,
                    resolver_configuration: m.resolver_configuration,
                },
            )
        } else {
            None
        }
    }
}

/// The setup binding digest a ready connector must report.
pub open spec fn expected_binding(m: ConnectorSpawnModel) -> Seq<u8> {
    sha256(
        setup_binding_bytes(
            m.execution,
            m.policy,
            m.generation,
            m.channel,
            m.plan,
            m.trust_root,
            m.connector,
            m.runtime_closure,
            m.resolver_configuration,
        ),
    )
}

/// The next state and action after `event`. Each failure before the report ends the
/// spawn with its error, a passed deadline with `Timeout`; an event that does not
/// answer the pending action leaves the state as it is and asks again.
pub open spec fn connector_spawn_next(m: ConnectorSpawnModel, event: ConnectorEventModel) -> (
    ConnectorSpawnModel,
    ConnectorActionModel,
) {
    match (m.phase, event) {
        (ConnectorSpawnPhase::Reaper, ConnectorEventModel::ReaperReady(r, within)) => match r {
            Err(e) => spawn_end(m, ConnectorActionModel::Fail(e)),
            Ok(_) => if !within {
                spawn_end(m, ConnectorActionModel::Fail(ConnectorProcessError::Timeout))
            } else {
                spawn_go(m, ConnectorSpawnPhase::Revalidate(0))
            },
        },
        (ConnectorSpawnPhase::Revalidate(k), ConnectorEventModel::Revalidated(r, within)) => match r {
            Err(e) => spawn_end(m, ConnectorActionModel::Fail(e)),
            Ok(_) => if !within {
                spawn_end(m, ConnectorActionModel::Fail(ConnectorProcessError::Timeout))
            } else if k + 1 < m.artifact_count {
                spawn_go(m, ConnectorSpawnPhase::Revalidate((k + 1) as usize))
            } else {
                spawn_go(m, ConnectorSpawnPhase::Channels)
            },
        },
        (ConnectorSpawnPhase::Channels, ConnectorEventModel::ChannelsCreated(r)) => match r {
            Err(e) => spawn_end(m, ConnectorActionModel::Fail(e)),
            Ok(fds) => match bootstrap_of(m, fds) {
                None => spawn_end(m, ConnectorActionModel::Fail(ConnectorProcessError::BootstrapInvalid)),
                Some(b) => spawn_go(ConnectorSpawnModel { bootstrap: Some(b), ..m }, ConnectorSpawnPhase::Inherit),
            },
        },
        (ConnectorSpawnPhase::Inherit, ConnectorEventModel::InheritancePrepared(r, within)) => match r {
            Err(e) => spawn_end(m, ConnectorActionModel::Fail(e)),
            Ok(_) => if !within {
                spawn_end(m, ConnectorActionModel::Fail(ConnectorProcessError::Timeout))
            } else {
                spawn_go(m, ConnectorSpawnPhase::Spawn)
            },
        },
        (ConnectorSpawnPhase::Spawn, ConnectorEventModel::Spawned(r)) => match r {
            Err(e) => spawn_end(m, ConnectorActionModel::Fail(e)),
            Ok(_) => spawn_go(m, ConnectorSpawnPhase::Receive),
        },
        (ConnectorSpawnPhase::Receive, ConnectorEventModel::ReportReceived(r)) => match r {
            Err(e) => spawn_end(m, ConnectorActionModel::Fail(e)),
            Ok(p) => if p.len() == 0 || p.len() > MAX_CONNECTOR_REPORT_BYTES {
                spawn_end(m, ConnectorActionModel::Fail(ConnectorProcessError::Protocol))
            } else {
                match report_of(p) {
                    None => spawn_end(m, ConnectorActionModel::Fail(ConnectorProcessError::Protocol)),
                    Some(ReportModel::Ready(ready)) => if ready_binding_ok(
                        ready,
                        m.execution,
                        m.policy,
                        m.generation,
                        m.channel,
                        expected_binding(m),
                    ) {
                        spawn_go(ConnectorSpawnModel { ready: Some(ready), ..m }, ConnectorSpawnPhase::Confirm)
                    } else {
                        spawn_end(m, ConnectorActionModel::Fail(ConnectorProcessError::BindingInvalid))
                    },
                    Some(ReportModel::Failure(stage, code)) => if stage == ConnectorFailureStage::Channel {
                        spawn_end(m, ConnectorActionModel::Fail(ConnectorProcessError::Protocol))
                    } else {
                        spawn_end(m, ConnectorActionModel::ReapFailed(stage, code))
                    },
                    Some(ReportModel::Terminal(_)) => spawn_end(
                        m,
                        ConnectorActionModel::Fail(ConnectorProcessError::Protocol),
                    ),
                }
            },
        },
        (ConnectorSpawnPhase::Confirm, ConnectorEventModel::ReadyConfirmed(within)) => if !within {
            spawn_end(m, ConnectorActionModel::Fail(ConnectorProcessError::Timeout))
        } else {
            spawn_end(m, ConnectorActionModel::Ready(m.ready->0))
        },
        _ => (m, spawn_pending(m)),
    }
}

/// The laws of one spawn step. The binding inputs never change. A connector is ready
/// only on a deadline confirmation after a ready report that carried this run's
/// binding; that report is awaited only after a successful spawn, the spawn only after
/// the inherited descriptors were prepared within the deadline, those only after a
/// valid bootstrap, the bootstrap only after the last artifact was revalidated within
/// the deadline, and each artifact after the first only after the one before it was.
pub proof fn lemma_connector_spawn_step(m: ConnectorSpawnModel, e: ConnectorEventModel)
    requires
        spawn_model_ok(m),
    ensures
        ({
            let (n, a) = connector_spawn_next(m, e);
            &&& spawn_model_ok(n)
            &&& n.artifact_count == m.artifact_count && n.execution == m.execution && n.policy == m.policy
                && n.generation == m.generation && n.channel == m.channel && n.plan == m.plan && n.trust_root
                == m.trust_root && n.connector == m.connector && n.runtime_closure == m.runtime_closure
                && n.resolver_configuration == m.resolver_configuration
            &&& (a matches ConnectorActionModel::Ready(r) ==> m.phase == ConnectorSpawnPhase::Confirm && e
                == ConnectorEventModel::ReadyConfirmed(true) && m.ready == Some(r))
            &&& (n.phase == ConnectorSpawnPhase::Confirm && m.phase != ConnectorSpawnPhase::Confirm ==> m.phase
                == ConnectorSpawnPhase::Receive && (n.ready matches Some(r) && ready_binding_ok(
                r,
                m.execution,
                m.policy,
                m.generation,
                m.channel,
                expected_binding(m),
            )))
            &&& (n.phase == ConnectorSpawnPhase::Receive && m.phase != ConnectorSpawnPhase::Receive ==> m.phase
                == ConnectorSpawnPhase::Spawn && (e matches ConnectorEventModel::Spawned(Ok(_))))
            &&& (n.phase == ConnectorSpawnPhase::Spawn && m.phase != ConnectorSpawnPhase::Spawn ==> m.phase
                == ConnectorSpawnPhase::Inherit && (e matches ConnectorEventModel::InheritancePrepared(Ok(_), true)))
            &&& (n.phase == ConnectorSpawnPhase::Inherit && m.phase != ConnectorSpawnPhase::Inherit ==> m.phase
                == ConnectorSpawnPhase::Channels && n.bootstrap is Some)
            &&& (n.phase == ConnectorSpawnPhase::Channels && m.phase != ConnectorSpawnPhase::Channels ==> m.phase
                == ConnectorSpawnPhase::Revalidate((m.artifact_count - 1) as usize) && (e
                matches ConnectorEventModel::Revalidated(Ok(_), true)))
            &&& (n.phase matches ConnectorSpawnPhase::Revalidate(k) ==> n.phase != m.phase && k > 0 ==> m.phase
                == ConnectorSpawnPhase::Revalidate((k - 1) as usize) && (e matches ConnectorEventModel::Revalidated(
                Ok(_),
                true,
            )))
        }),
{
}

/// The state of one connector spawn.
pub struct ConnectorSpawnState {
    phase: ConnectorSpawnPhase,
    artifact_count: usize,
    execution_id: ExecutionId,
    policy_digest: Sha256Digest,
    process_generation: ConnectorProcessGeneration,
    channel_id: ServiceChannelId,
    plan_digest: Sha256Digest,
    trust_root_digest: Sha256Digest,
    connector_digest: Sha256Digest,
    runtime_closure_digest: Sha256Digest,
    resolver_configuration_digest: Sha256Digest,
    expected_binding: Sha256Digest,
    bootstrap: Option<ConnectorBootstrap>,
    ready: Option<ConnectorReady>,
}

/// A well-formed spawn model: at least the four fixed artifacts, and what the
/// phase needs recorded.
pub open spec fn spawn_model_ok(m: ConnectorSpawnModel) -> bool {
    &&& m.artifact_count >= 4
    &&& (m.phase matches ConnectorSpawnPhase::Revalidate(k) ==> k < m.artifact_count)
    &&& (m.phase == ConnectorSpawnPhase::Inherit ==> m.bootstrap is Some)
    &&& (m.phase == ConnectorSpawnPhase::Confirm ==> m.ready is Some)
}

impl ConnectorSpawnState {
    /// The model of this state.
    pub closed spec fn model(&self) -> ConnectorSpawnModel {
        ConnectorSpawnModel {
            phase: self.phase,
            artifact_count: self.artifact_count,
            execution: self.execution_id.bytes(),
            policy: self.policy_digest.bytes(),
            generation: self.process_generation.value(),
            channel: self.channel_id.bytes(),
            plan: self.plan_digest.bytes(),
            trust_root: self.trust_root_digest.bytes(),
            connector: self.connector_digest.bytes(),
            runtime_closure: self.runtime_closure_digest.bytes(),
            resolver_configuration: self.resolver_configuration_digest.bytes(),
            bootstrap: match self.bootstrap {
                Some(b) => Some(b.model()),
                None => None,
            },
            ready: match self.ready {
                Some(r) => Some(r.model()),
                None => None,
            },
        }
    }

    #[verifier::type_invariant]
    closed spec fn well_formed(&self) -> bool {
        &&& spawn_model_ok(self.model())
        &&& self.expected_binding.bytes() == expected_binding(self.model())
    }

    /// The model is well formed.
    pub fn phase(&self) -> (r: ConnectorSpawnPhase)
        ensures
            r == self.model().phase,
            spawn_model_ok(self.model()),
    {
        proof {
            use_type_invariant(self);
        }
        self.phase
    }

    fn pending(&self) -> (r: ConnectorSpawnAction)
        ensures
            r.model() == spawn_pending(self.model()),
    {
        proof {
            use_type_invariant(self);
        }
        match self.phase {
            ConnectorSpawnPhase::Reaper => ConnectorSpawnAction::PrepareReaper,
            ConnectorSpawnPhase::Revalidate(k) => ConnectorSpawnAction::Revalidate(k),
            ConnectorSpawnPhase::Channels => ConnectorSpawnAction::CreateChannels,
            ConnectorSpawnPhase::Inherit => match self.bootstrap {
                Some(b) => ConnectorSpawnAction::PrepareInheritance(b),
                None => ConnectorSpawnAction::Stop,
            },
            ConnectorSpawnPhase::Spawn => ConnectorSpawnAction::SpawnConnector,
            ConnectorSpawnPhase::Receive => ConnectorSpawnAction::ReceiveReport,
            ConnectorSpawnPhase::Confirm => ConnectorSpawnAction::ConfirmReady,
            ConnectorSpawnPhase::Finished => ConnectorSpawnAction::Stop,
        }
    }
}

/// Starts the spawn of a connector with `runtime_closure_count` runtime-closure
/// artifacts besides the connector, plan, trust root and resolver configuration;
/// the first action prepares the reaper.
pub fn connector_spawn_start(
    runtime_closure_count: usize,
    execution_id: ExecutionId,
    policy_digest: Sha256Digest,
    process_generation: ConnectorProcessGeneration,
    channel_id: ServiceChannelId,
    plan_digest: Sha256Digest,
    trust_root_digest: Sha256Digest,
    connector_digest: Sha256Digest,
    runtime_closure_digest: Sha256Digest,
    resolver_configuration_digest: Sha256Digest,
) -> (r: (ConnectorSpawnState, ConnectorSpawnAction))
    requires
        runtime_closure_count <= usize::MAX - 4,
    ensures
        r.0.model() == (ConnectorSpawnModel {
            phase: ConnectorSpawnPhase::Reaper,
            artifact_count: (runtime_closure_count + 4) as usize,
            execution: execution_id.bytes(),
            policy: policy_digest.bytes(),
            generation: process_generation.value(),
            channel: channel_id.bytes(),
            plan: plan_digest.bytes(),
            trust_root: trust_root_digest.bytes(),
            connector: connector_digest.bytes(),
            runtime_closure: runtime_closure_digest.bytes(),
            resolver_configuration: resolver_configuration_digest.bytes(),
            bootstrap: None,
            ready: None,
        }),
        r.1.model() == ConnectorActionModel::PrepareReaper,
{
    let expected_binding = setup_binding_digest(
        execution_id,
        policy_digest,
        process_generation,
        channel_id,
        plan_digest,
        trust_root_digest,
        connector_digest,
        runtime_closure_digest,
        resolver_configuration_digest,
    );
    let state = ConnectorSpawnState {
        phase: ConnectorSpawnPhase::Reaper,
        artifact_count: runtime_closure_count + 4,
        execution_id,
        policy_digest,
        process_generation,
        channel_id,
        plan_digest,
        trust_root_digest,
        connector_digest,
        runtime_closure_digest,
        resolver_configuration_digest,
        expected_binding,
        bootstrap: None,
        ready: None,
    };
    (state, ConnectorSpawnAction::PrepareReaper)
}

fn end(state: ConnectorSpawnState, action: ConnectorSpawnAction) -> (r: (ConnectorSpawnState, ConnectorSpawnAction))
    ensures
        r.0.model() == (ConnectorSpawnModel { phase: ConnectorSpawnPhase::Finished, ..state.model() }),
        r.1 == action,
{
    proof {
        use_type_invariant(&state);
    }
    let mut state = state;
    state.phase = ConnectorSpawnPhase::Finished;
    (state, action)
}

/// Decides the next state and action of a connector spawn from the caller's report
/// on the last action; see `connector_spawn_next`.
pub fn connector_spawn_step(state: ConnectorSpawnState, event: ConnectorSpawnEvent) -> (r: (
    ConnectorSpawnState,
    ConnectorSpawnAction,
))
    ensures
        (r.0.model(), r.1.model()) == connector_spawn_next(state.model(), event.model()),
{
    proof {
        use_type_invariant(&state);
    }
    let mut state = state;
    match (state.phase, event) {
        (ConnectorSpawnPhase::Reaper, ConnectorSpawnEvent::ReaperReady(r, within)) => match r {
            Err(e) => end(state, ConnectorSpawnAction::Fail(e)),
            Ok(_) => if !within {
                end(state, ConnectorSpawnAction::Fail(ConnectorProcessError::Timeout))
            } else {
                state.phase = ConnectorSpawnPhase::Revalidate(0);
                (state, ConnectorSpawnAction::Revalidate(0))
            },
        },
        (ConnectorSpawnPhase::Revalidate(k), ConnectorSpawnEvent::Revalidated(r, within)) => match r {
            Err(e) => end(state, ConnectorSpawnAction::Fail(e)),
            Ok(_) => if !within {
                end(state, ConnectorSpawnAction::Fail(ConnectorProcessError::Timeout))
            } else if k + 1 < state.artifact_count {
                state.phase = ConnectorSpawnPhase::Revalidate(k + 1);
                (state, ConnectorSpawnAction::Revalidate(k + 1))
            } else {
                state.phase = ConnectorSpawnPhase::Channels;
                (state, ConnectorSpawnAction::CreateChannels)
            },
        },
        (ConnectorSpawnPhase::Channels, ConnectorSpawnEvent::ChannelsCreated(r)) => match r {
            Err(e) => end(state, ConnectorSpawnAction::Fail(e)),
            Ok(fds) => {
                if fds[0] < 0 || fds[1] < 0 || fds[2] < 0 || fds[3] < 0 {
                    return end(state, ConnectorSpawnAction::Fail(ConnectorProcessError::BootstrapInvalid));
                }
                match ConnectorBootstrap::new(
                    fds[0] as u32,
                    fds[1] as u32,
                    fds[2] as u32,
                    fds[3] as u32,
                    state.execution_id,
                    state.policy_digest,
                    state.process_generation,
                    state.channel_id,
                    state.plan_digest,
                    state.trust_root_digest,
                    state.connector_digest,
                    state.runtime_closure_digest,
                    state.resolver_configuration_digest,
                ) {
                    Ok(bootstrap) => {
                        state.bootstrap = Some(bootstrap);
                        state.phase = ConnectorSpawnPhase::Inherit;
                        (state, ConnectorSpawnAction::PrepareInheritance(bootstrap))
                    },
                    Err(e) => end(state, ConnectorSpawnAction::Fail(e)),
                }
            },
        },
        (ConnectorSpawnPhase::Inherit, ConnectorSpawnEvent::InheritancePrepared(r, within)) => match r {
            Err(e) => end(state, ConnectorSpawnAction::Fail(e)),
            Ok(_) => if !within {
                end(state, ConnectorSpawnAction::Fail(ConnectorProcessError::Timeout))
            } else {
                state.phase = ConnectorSpawnPhase::Spawn;
                (state, ConnectorSpawnAction::SpawnConnector)
            },
        },
        (ConnectorSpawnPhase::Spawn, ConnectorSpawnEvent::Spawned(r)) => match r {
            Err(e) => end(state, ConnectorSpawnAction::Fail(e)),
            Ok(_) => {
                state.phase = ConnectorSpawnPhase::Receive;
                (state, ConnectorSpawnAction::ReceiveReport)
            },
        },
        (ConnectorSpawnPhase::Receive, ConnectorSpawnEvent::ReportReceived(r)) => match r {
            Err(e) => end(state, ConnectorSpawnAction::Fail(e)),
            Ok(packet) => {
                if packet.len() == 0 || packet.len() > MAX_CONNECTOR_REPORT_BYTES {
                    return end(state, ConnectorSpawnAction::Fail(ConnectorProcessError::Protocol));
                }
                let report = match decode_report(packet.as_slice()) {
                    Ok(report) => report,
                    Err(e) => {
                        return end(state, ConnectorSpawnAction::Fail(e));
                    },
                };
                match classify_setup_report(
                    report,
                    state.execution_id,
                    state.policy_digest,
                    state.process_generation,
                    state.channel_id,
                    state.expected_binding,
                ) {
                    Ok(SetupOutcome::Ready(ready)) => {
                        state.ready = Some(ready);
                        state.phase = ConnectorSpawnPhase::Confirm;
                        (state, ConnectorSpawnAction::ConfirmReady)
                    },
                    Ok(SetupOutcome::Failed(failure)) => end(state, ConnectorSpawnAction::ReapFailed(failure)),
                    Err(e) => end(state, ConnectorSpawnAction::Fail(e)),
                }
            },
        },
        (ConnectorSpawnPhase::Confirm, ConnectorSpawnEvent::ReadyConfirmed(within)) => if !within {
            end(state, ConnectorSpawnAction::Fail(ConnectorProcessError::Timeout))
        } else {
            match state.ready {
                Some(ready) => end(state, ConnectorSpawnAction::Ready(ready)),
                None => end(state, ConnectorSpawnAction::Stop),
            }
        },
        (_, _) => {
            let a = state.pending();
            (state, a)
        },
    }
}

} // verus!
