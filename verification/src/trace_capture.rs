//! The decisions of capturing one system call's operands at entry: which tracee
//! memory to read, how a NUL-terminated string is gathered chunk by chunk within
//! its limits, and how the read bytes become the captured operands.
use vstd::prelude::*;

use crate::trace::{
    le_u64, read_little_endian_u64, TraceCaptureLimits, TraceCaptureRequest, TraceCapturedOperands,
    TraceObservationError, TraceSyscallClass,
};

verus! {

/// The size of one tracee memory read while gathering a string.
pub const TRACE_MEMORY_CHUNK_BYTES: usize = 256;

/// The size of the `open_how` structure `openat2` reads.
pub const OPEN_HOW_BYTES: u64 = 24;

/// One read of tracee memory that a capture needs.
#[derive(Clone, Copy, Debug, PartialEq, Eq, Structural)]
pub enum TraceMemoryRead {
    /// A NUL-terminated string at this address.
    String { address: u64 },
    /// Exactly `bytes` bytes at this address.
    Exact { address: u64, bytes: usize },
}

/// The memory reads of a capture request, in order, or why the request cannot be captured.
pub open spec fn capture_plan_of(request: TraceCaptureRequest, limits: TraceCaptureLimits) -> Result<
    Seq<TraceMemoryRead>,
    TraceObservationError,
> {
    match request {
        TraceCaptureRequest::Path { path_address, .. } => Ok(seq![TraceMemoryRead::String { address: path_address }]),
        TraceCaptureRequest::Openat2 { path_address, how_address, how_bytes, .. } => if how_bytes != OPEN_HOW_BYTES {
            Err(TraceObservationError::SyscallFormUnsupported)
        } else {
            Ok(
                seq![
                    TraceMemoryRead::String { address: path_address },
                    TraceMemoryRead::Exact { address: how_address, bytes: 24 },
                ],
            )
        },
        TraceCaptureRequest::ProcessCreate { .. } => Ok(Seq::empty()),
        TraceCaptureRequest::Clone3 { arguments_address, arguments_bytes } => if !(8 <= arguments_bytes <= 88)
            || arguments_bytes % 8 != 0 {
            Err(TraceObservationError::SyscallFormUnsupported)
        } else {
            Ok(seq![TraceMemoryRead::Exact { address: arguments_address, bytes: 8 }])
        },
        TraceCaptureRequest::SocketAddress { address, address_bytes, address_optional, .. } => if address_optional
            && address == 0 && address_bytes == 0 {
            Ok(Seq::empty())
        } else if address_bytes > usize::MAX || address_bytes > limits.limits().1 {
            Err(TraceObservationError::SocketAddressLimitExceeded)
        } else if address == 0 && address_bytes != 0 {
            Err(TraceObservationError::TraceeMemoryReadFailed)
        } else {
            Ok(seq![TraceMemoryRead::Exact { address, bytes: address_bytes as usize }])
        },
        TraceCaptureRequest::SocketCreate { .. } => Ok(Seq::empty()),
    }
}

/// Decides which tracee memory a capture request reads, in order: a path string; for
/// `openat2` also its 24-byte `open_how`; for `clone3` the first 8 bytes of its
/// arguments, whose size must be a multiple of 8 from 8 to 88; for a socket operation
/// its address, within the socket-address limit, unless the address is optional and
/// absent.
pub fn capture_plan(request: TraceCaptureRequest, limits: TraceCaptureLimits) -> (r: Result<
    Vec<TraceMemoryRead>,
    TraceObservationError,
>)
    ensures
        match capture_plan_of(request, limits) {
            Ok(plan) => r matches Ok(v) && v@ == plan,
            Err(e) => r == Err::<Vec<TraceMemoryRead>, TraceObservationError>(e),
        },
{
    match request {
        TraceCaptureRequest::Path { path_address, .. } => {
            let v = vec![TraceMemoryRead::String { address: path_address }];
            proof {
                assert(v@ =~= seq![TraceMemoryRead::String { address: path_address }]);
            }
            Ok(v)
        },
        TraceCaptureRequest::Openat2 { path_address, how_address, how_bytes, .. } => {
            if how_bytes != OPEN_HOW_BYTES {
                return Err(TraceObservationError::SyscallFormUnsupported);
            }
            let v = vec![
                TraceMemoryRead::String { address: path_address },
                TraceMemoryRead::Exact { address: how_address, bytes: 24 },
            ];
            proof {
                assert(v@ =~= seq![
                    TraceMemoryRead::String { address: path_address },
                    TraceMemoryRead::Exact { address: how_address, bytes: 24 },
                ]);
            }
            Ok(v)
        },
        TraceCaptureRequest::ProcessCreate { .. } => {
            let v: Vec<TraceMemoryRead> = Vec::new();
            proof {
                assert(v@ =~= Seq::<TraceMemoryRead>::empty());
            }
            Ok(v)
        },
        TraceCaptureRequest::Clone3 { arguments_address, arguments_bytes } => {
            if arguments_bytes < 8 || arguments_bytes > 88 || arguments_bytes % 8 != 0 {
                return Err(TraceObservationError::SyscallFormUnsupported);
            }
            let v = vec![TraceMemoryRead::Exact { address: arguments_address, bytes: 8 }];
            proof {
                assert(v@ =~= seq![TraceMemoryRead::Exact { address: arguments_address, bytes: 8 }]);
            }
            Ok(v)
        },
        TraceCaptureRequest::SocketAddress { address, address_bytes, address_optional, .. } => {
            if address_optional && address == 0 && address_bytes == 0 {
                let v: Vec<TraceMemoryRead> = Vec::new();
                proof {
                    assert(v@ =~= Seq::<TraceMemoryRead>::empty());
                }
                return Ok(v);
            }
            if address_bytes > usize::MAX as u64 || address_bytes as usize > limits.socket_address_bytes() {
                return Err(TraceObservationError::SocketAddressLimitExceeded);
            }
            if address == 0 && address_bytes != 0 {
                return Err(TraceObservationError::TraceeMemoryReadFailed);
            }
            let v = vec![TraceMemoryRead::Exact { address, bytes: address_bytes as usize }];
            proof {
                assert(v@ =~= seq![TraceMemoryRead::Exact { address, bytes: address_bytes as usize }]);
            }
            Ok(v)
        },
        TraceCaptureRequest::SocketCreate { .. } => {
            let v: Vec<TraceMemoryRead> = Vec::new();
            proof {
                assert(v@ =~= Seq::<TraceMemoryRead>::empty());
            }
            Ok(v)
        },
    }
}

/// The next chunk of a string read at `address` after `collected` bytes: its address
/// and size, the rest of the tracee-string limit up to one chunk. A string that has
/// filled its limit is `TraceeStringLimitExceeded`; an address past the end of the
/// address space is `TraceeMemoryReadFailed`.
pub fn string_chunk(address: u64, collected: usize, limits: TraceCaptureLimits) -> (r: Result<
    (u64, usize),
    TraceObservationError,
>)
    ensures
        collected >= limits.limits().2 ==> r == Err::<(u64, usize), TraceObservationError>(
            TraceObservationError::TraceeStringLimitExceeded,
        ),
        collected < limits.limits().2 && address + collected > u64::MAX ==> r == Err::<
            (u64, usize),
            TraceObservationError,
        >(TraceObservationError::TraceeMemoryReadFailed),
        collected < limits.limits().2 && address + collected <= u64::MAX ==> r == Ok::<
            (u64, usize),
            TraceObservationError,
        >(
            (
                (address + collected) as u64,
                if limits.limits().2 - collected < TRACE_MEMORY_CHUNK_BYTES {
                    (limits.limits().2 - collected) as usize
                } else {
                    TRACE_MEMORY_CHUNK_BYTES
                },
            ),
        ),
{
    let limit = limits.tracee_string_bytes();
    if collected >= limit {
        return Err(TraceObservationError::TraceeStringLimitExceeded);
    }
    let remaining = limit - collected;
    let count = if remaining < TRACE_MEMORY_CHUNK_BYTES {
        remaining
    } else {
        TRACE_MEMORY_CHUNK_BYTES
    };
    if collected as u64 > u64::MAX - address {
        return Err(TraceObservationError::TraceeMemoryReadFailed);
    }
    Ok((address + collected as u64, count))
}

/// The index of the first NUL byte of `s`, if any.
pub open spec fn first_nul(s: Seq<u8>) -> Option<int> {
    if exists|i: int| 0 <= i < s.len() && s[i] == 0 {
        Some(choose|i: int| 0 <= i < s.len() && s[i] == 0 && forall|j: int| 0 <= j < i ==> s[j] != 0)
    } else {
        None
    }
}

/// Adds one chunk to a string being read: up to its first NUL, which ends the string,
/// or all of it. A string longer than the path limit is `PathLimitExceeded`. Returns
/// whether the string is complete.
pub fn absorb_string_chunk(collected: &mut Vec<u8>, chunk: &[u8], limits: TraceCaptureLimits) -> (r: Result<
    bool,
    TraceObservationError,
>)
    ensures
        ({
            let (taken, complete) = match first_nul(chunk@) {
                Some(t) => (chunk@.subrange(0, t), true),
                None => (chunk@, false),
            };
            &&& final(collected)@ == old(collected)@ + taken
            &&& if final(collected)@.len() > limits.limits().0 {
                r == Err::<bool, TraceObservationError>(TraceObservationError::PathLimitExceeded)
            } else {
                r == Ok::<bool, TraceObservationError>(complete)
            }
        }),
{
    let mut i: usize = 0;
    while i < chunk.len() && chunk[i] != 0
        invariant
            i <= chunk@.len(),
            forall|j: int| 0 <= j < i ==> chunk@[j] != 0,
        decreases chunk@.len() - i,
    {
        i = i + 1;
    }
    let complete = i < chunk.len();
    proof {
        if complete {
            assert(chunk@[i as int] == 0);
            let t = first_nul(chunk@)->0;
            assert(0 <= t < chunk@.len() && chunk@[t] == 0 && forall|j: int| 0 <= j < t ==> chunk@[j] != 0);
            if t < i {
                assert(chunk@[t] != 0);
            }
            if i < t {
                assert(chunk@[i as int] != 0);
            }
        } else {
            assert(!(exists|k: int| 0 <= k < chunk@.len() && chunk@[k] == 0));
            assert(chunk@.subrange(0, i as int) =~= chunk@);
        }
    }
    let ghost before = collected@;
    let mut k: usize = 0;
    while k < i
        invariant
            k <= i <= chunk@.len(),
            collected@ == before + chunk@.subrange(0, k as int),
        decreases i - k,
    {
        collected.push(chunk[k]);
        proof {
            assert(chunk@.subrange(0, k + 1) =~= chunk@.subrange(0, k as int).push(chunk@[k as int]));
        }
        k = k + 1;
    }
    if collected.len() > limits.path_bytes() {
        return Err(TraceObservationError::PathLimitExceeded);
    }
    Ok(complete)
}

/// The model of captured operands; byte strings are held as sequences.
pub enum OperandsModel {
    Path {
        buffer_bytes: Option<u64>,
        directory_fd: Option<i32>,
        flags: Option<u64>,
        mask: Option<u64>,
        mode: Option<u64>,
        path: Seq<u8>,
        resolve: Option<u64>,
    },
    ProcessCreate { flags: Option<u64> },
    SocketAddress { address: Option<Seq<u8>>, descriptor: u32, payload_bytes: Option<u64> },
    SocketCreate { domain: u32, protocol: u32, socket_type: u32 },
}

/// The model of captured operands.
pub open spec fn operands_model(o: TraceCapturedOperands) -> OperandsModel {
    match o {
        TraceCapturedOperands::Path { buffer_bytes, directory_fd, flags, mask, mode, path, resolve } => OperandsModel::Path {
            buffer_bytes,
            directory_fd,
            flags,
            mask,
            mode,
            path: path@,
            resolve,
        },
        TraceCapturedOperands::ProcessCreate { flags } => OperandsModel::ProcessCreate { flags },
        TraceCapturedOperands::SocketAddress { address, descriptor, payload_bytes } => OperandsModel::SocketAddress {
            address: match address {
                Some(a) => Some(a@),
                None => None,
            },
            descriptor,
            payload_bytes,
        },
        TraceCapturedOperands::SocketCreate { domain, protocol, socket_type } => OperandsModel::SocketCreate {
            domain,
            protocol,
            socket_type,
        },
    }
}

/// The class and operands that a request and the bytes of its reads, in plan order,
/// give; a read missing from `reads` is `TraceeMemoryReadFailed`, and an `open_how` or
/// `clone3` read too short for its words `SyscallFormUnsupported`.
pub open spec fn captured_operands_of(request: TraceCaptureRequest, reads: Seq<Seq<u8>>) -> Result<
    (TraceSyscallClass, OperandsModel),
    TraceObservationError,
> {
    match request {
        TraceCaptureRequest::Path { class, buffer_bytes, directory_fd, flags, mask, mode, .. } => if reads.len() < 1 {
            Err(TraceObservationError::TraceeMemoryReadFailed)
        } else {
            Ok(
                (
                    class,
                    OperandsModel::Path { buffer_bytes, directory_fd, flags, mask, mode, path: reads[0], resolve: None },
                ),
            )
        },
        TraceCaptureRequest::Openat2 { directory_fd, .. } => if reads.len() < 2 {
            Err(TraceObservationError::TraceeMemoryReadFailed)
        } else if reads[1].len() < 24 {
            Err(TraceObservationError::SyscallFormUnsupported)
        } else {
            Ok(
                (
                    TraceSyscallClass::Openat2,
                    OperandsModel::Path {
                        buffer_bytes: None,
                        directory_fd: Some(directory_fd),
                        flags: Some(le_u64(reads[1].subrange(0, 8)) as u64),
                        mask: None,
                        mode: Some(le_u64(reads[1].subrange(8, 16)) as u64),
                        path: reads[0],
                        resolve: Some(le_u64(reads[1].subrange(16, 24)) as u64),
                    },
                ),
            )
        },
        TraceCaptureRequest::ProcessCreate { class, flags } => Ok((class, OperandsModel::ProcessCreate { flags })),
        TraceCaptureRequest::Clone3 { .. } => if reads.len() < 1 {
            Err(TraceObservationError::TraceeMemoryReadFailed)
        } else if reads[0].len() < 8 {
            Err(TraceObservationError::SyscallFormUnsupported)
        } else {
            Ok(
                (
                    TraceSyscallClass::Clone,
                    OperandsModel::ProcessCreate { flags: Some(le_u64(reads[0].subrange(0, 8)) as u64) },
                ),
            )
        },
        TraceCaptureRequest::SocketAddress { class, descriptor, payload_bytes, .. } => Ok(
            (
                class,
                OperandsModel::SocketAddress {
                    address: if reads.len() == 0 {
                        None
                    } else {
                        Some(reads[0])
                    },
                    descriptor,
                    payload_bytes,
                },
            ),
        ),
        TraceCaptureRequest::SocketCreate { domain, protocol, socket_type } => Ok(
            (TraceSyscallClass::Socket, OperandsModel::SocketCreate { domain, protocol, socket_type }),
        ),
    }
}

/// The bytes of each read.
pub open spec fn reads_model(reads: Seq<Vec<u8>>) -> Seq<Seq<u8>> {
    reads.map_values(|r: Vec<u8>| r@)
}

/// Builds the captured operands of a request from the bytes its reads returned, in
/// the order `capture_plan` gave them.
pub fn captured_operands(request: TraceCaptureRequest, reads: Vec<Vec<u8>>) -> (r: Result<
    (TraceSyscallClass, TraceCapturedOperands),
    TraceObservationError,
>)
    ensures
        match captured_operands_of(request, reads_model(reads@)) {
            Ok((class, model)) => r matches Ok((c, o)) && c == class && operands_model(o) == model,
            Err(e) => r matches Err(x) && x == e,
        },
{
    let ghost m = reads_model(reads@);
    let mut reads = reads;
    proof {
        assert(m.len() == reads@.len());
    }
    match request {
        TraceCaptureRequest::Path { class, buffer_bytes, directory_fd, flags, mask, mode, .. } => {
            if reads.len() < 1 {
                return Err(TraceObservationError::TraceeMemoryReadFailed);
            }
            let path = reads.remove(0);
            Ok((class, TraceCapturedOperands::Path { buffer_bytes, directory_fd, flags, mask, mode, path, resolve: None }))
        },
        TraceCaptureRequest::Openat2 { directory_fd, .. } => {
            if reads.len() < 2 {
                return Err(TraceObservationError::TraceeMemoryReadFailed);
            }
            let how = reads.remove(1);
            let path = reads.remove(0);
            let flags = read_little_endian_u64(how.as_slice(), 0)?;
            let mode = read_little_endian_u64(how.as_slice(), 8)?;
            let resolve = read_little_endian_u64(how.as_slice(), 16)?;
            Ok(
                (
                    TraceSyscallClass::Openat2,
                    TraceCapturedOperands::Path {
                        buffer_bytes: None,
                        directory_fd: Some(directory_fd),
                        flags: Some(flags),
                        mask: None,
                        mode: Some(mode),
                        path,
                        resolve: Some(resolve),
                    },
                ),
            )
        },
        TraceCaptureRequest::ProcessCreate { class, flags } => Ok((class, TraceCapturedOperands::ProcessCreate { flags })),
        TraceCaptureRequest::Clone3 { .. } => {
            if reads.len() < 1 {
                return Err(TraceObservationError::TraceeMemoryReadFailed);
            }
            let arguments = reads.remove(0);
            let flags = read_little_endian_u64(arguments.as_slice(), 0)?;
            Ok((TraceSyscallClass::Clone, TraceCapturedOperands::ProcessCreate { flags: Some(flags) }))
        },
        TraceCaptureRequest::SocketAddress { class, descriptor, payload_bytes, .. } => {
            let address = if reads.len() == 0 {
                None
            } else {
                Some(reads.remove(0))
            };
            Ok((class, TraceCapturedOperands::SocketAddress { address, descriptor, payload_bytes }))
        },
        TraceCaptureRequest::SocketCreate { domain, protocol, socket_type } => Ok(
            (TraceSyscallClass::Socket, TraceCapturedOperands::SocketCreate { domain, protocol, socket_type }),
        ),
    }
}

} // verus!
