# proofbound_runtime

The verified decision logic of the Proofbound execution-assurance runtime, written
in Verus.

- `src/` is the library. Every function in it is verified against its `requires`
  and `ensures`: the launcher protocol and its deterministic CBOR encoding, the
  version 2 plan and the run-result projection, connector preparation (artifact roles, sizes, loader and declared paths), spawn decisions, reports and bootstrap,
  cgroup v2 control values, counters and the fresh-cgroup setup steps, Landlock and
  seccomp policies, system-call decoding and capture planning for tracing, receipt
  eligibility, and the capability probes.
- `app/` holds the parts that talk to the operating system: channels, privilege
  changes, filter installation, fresh cgroup creation and the launcher's entry point. It hands the library
  plain values and acts on the decisions the library returns.
- `tests/` runs the library on concrete inputs.
