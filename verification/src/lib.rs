//! Verified decision logic of the Proofbound execution-assurance runtime.
pub mod cbor;
pub mod cgroup;
pub mod cgroup_setup;
pub mod connector_prepare;
pub mod connector_process;
pub mod connector_spawn;
pub mod execution;
pub mod landlock;
pub mod launcher;
pub mod model;
pub mod output;
pub mod privilege;
pub mod probe;
pub mod receipt;
pub mod resolve;
pub mod sdk;
pub mod seccomp;
pub mod supervisor;
pub mod text;
pub mod trace;
pub mod trace_capture;
pub mod trace_session;
