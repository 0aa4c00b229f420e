//! The backend capability interface.
//!
//! The runtime never implements a hardware target; it talks to one through
//! the [`Backend`] trait: allocate and free buffers, textures, bindless
//! arrays and streams, accept one ordered dispatch per committed command
//! buffer, and synchronize a stream.  Every implementation exposes, as
//! specification, the ordered log of the calls it has received; the
//! runtime's lifetime and atomicity guarantees are stated over that log.
//!
//! [`ModelBackend`] is a verified in-memory implementation that records
//! every call and can be told to run out of allocations or to reject
//! dispatches, so callers can exercise every error path.

use vstd::prelude::*;

use crate::command::{cmds_model, Command, CommandModel};

verus! {

/// An error surfaced to the immediate caller of a runtime operation.
#[derive(Clone, Copy, Debug, PartialEq, Eq, Structural)]
pub enum RuntimeError {
    /// The backend could not create a resource.  The caller may retry with
    /// a smaller request or a different device.
    AllocationFailure,
    /// The requested pixel format does not fit the element type: a
    /// programmer error, surfaced immediately and never retried.
    UnsupportedFormat,
    /// The backend rejected or failed a committed batch; none of the batch
    /// may be assumed to have run.
    DispatchFailure,
}

/// A pixel format a texture can be created with.
#[derive(Clone, Copy, Debug, PartialEq, Eq, Structural)]
pub enum PixelFormat {
    R8Unorm,
    Rg8Unorm,
    Rgba8Unorm,
    R32Sint,
    R32Uint,
}

/// One call a backend received, in the order it was received.
pub ghost enum BackendCall {
    CreateBuffer { byte_size: usize, handle: u64 },
    CreateTexture {
        format: PixelFormat,
        dim: u32,
        width: u32,
        height: u32,
        depth: u32,
        mips: u32,
        handle: u64,
    },
    CreateBindlessArray { slots: usize, handle: u64 },
    CreateStream { handle: u64 },
    DestroyBuffer { handle: u64 },
    DestroyTexture { handle: u64 },
    DestroyBindlessArray { handle: u64 },
    DestroyStream { handle: u64 },
    Dispatch { stream: u64, commands: Seq<CommandModel> },
    Synchronize { stream: u64 },
}

/// Whether `c` is the creation of a resource or stream with handle `h`.
pub open spec fn call_creates(c: BackendCall, h: u64) -> bool {
    match c {
        BackendCall::CreateBuffer { handle, .. } => handle == h,
        BackendCall::CreateTexture { handle, .. } => handle == h,
        BackendCall::CreateBindlessArray { handle, .. } => handle == h,
        BackendCall::CreateStream { handle } => handle == h,
        _ => false,
    }
}

/// Whether some call in `log` created the handle `h`.
pub open spec fn handle_created(log: Seq<BackendCall>, h: u64) -> bool {
    exists|i: int| 0 <= i < log.len() && call_creates(#[trigger] log[i], h)
}

/// A handle no call in `log` has created.  Every successful creation
/// returns such a handle, so distinct live resources never share one.
pub open spec fn fresh_handle(log: Seq<BackendCall>, h: u64) -> bool {
    !handle_created(log, h)
}

/// How many times `log` destroys the stream handle `h`.
pub open spec fn destroy_stream_count(log: Seq<BackendCall>, h: u64) -> nat
    decreases log.len(),
{
    if log.len() == 0 {
        0
    } else {
        destroy_stream_count(log.drop_last(), h) + if log.last() == (BackendCall::DestroyStream {
            handle: h,
        }) {
            1nat
        } else {
            0nat
        }
    }
}

/// Appending one call raises exactly the destroy count of the stream it
/// destroys, if any, and no other.
pub proof fn lemma_destroy_stream_count_push(log: Seq<BackendCall>, c: BackendCall)
    ensures
        forall|h: u64| #[trigger] destroy_stream_count(log.push(c), h) == destroy_stream_count(
            log,
            h,
        ) + if c == (BackendCall::DestroyStream { handle: h }) {
            1nat
        } else {
            0nat
        },
{
    assert(log.push(c).drop_last() =~= log);
    assert(log.push(c).last() == c);
}

/// The capability set the runtime consumes.  Each method's contract pins
/// how the call log grows; nothing is promised about when a fallible call
/// succeeds — that is the backend's decision, and failures propagate to
/// the caller as error values.
pub trait Backend: Sized {
    /// The ordered log of the calls this backend has received.
    spec fn log(&self) -> Seq<BackendCall>;

    /// Allocates a buffer of `byte_size` bytes.
    fn create_buffer(&mut self, byte_size: usize) -> (r: Result<u64, RuntimeError>)
        ensures
            match r {
                Ok(h) => final(self).log() == old(self).log().push(
                    BackendCall::CreateBuffer { byte_size, handle: h },
                ) && fresh_handle(old(self).log(), h),
                Err(e) => final(self).log() == old(self).log() && e
                    == RuntimeError::AllocationFailure,
            },
    ;

    /// Allocates a texture.
    fn create_texture(
        &mut self,
        format: PixelFormat,
        dim: u32,
        width: u32,
        height: u32,
        depth: u32,
        mips: u32,
    ) -> (r: Result<u64, RuntimeError>)
        ensures
            match r {
                Ok(h) => final(self).log() == old(self).log().push(
                    BackendCall::CreateTexture { format, dim, width, height, depth, mips, handle: h },
                ) && fresh_handle(old(self).log(), h),
                Err(e) => final(self).log() == old(self).log() && e
                    == RuntimeError::AllocationFailure,
            },
    ;

    /// Allocates a bindless table with `slots` slots.
    fn create_bindless_array(&mut self, slots: usize) -> (r: Result<u64, RuntimeError>)
        ensures
            match r {
                Ok(h) => final(self).log() == old(self).log().push(
                    BackendCall::CreateBindlessArray { slots, handle: h },
                ) && fresh_handle(old(self).log(), h),
                Err(e) => final(self).log() == old(self).log() && e
                    == RuntimeError::AllocationFailure,
            },
    ;

    /// Allocates a stream.
    fn create_stream(&mut self) -> (r: Result<u64, RuntimeError>)
        ensures
            match r {
                Ok(h) => final(self).log() == old(self).log().push(
                    BackendCall::CreateStream { handle: h },
                ) && fresh_handle(old(self).log(), h),
                Err(e) => final(self).log() == old(self).log() && e
                    == RuntimeError::AllocationFailure,
            },
    ;

    /// Frees a buffer.
    fn destroy_buffer(&mut self, handle: u64)
        ensures
            final(self).log() == old(self).log().push(BackendCall::DestroyBuffer { handle }),
    ;

    /// Frees a texture.
    fn destroy_texture(&mut self, handle: u64)
        ensures
            final(self).log() == old(self).log().push(BackendCall::DestroyTexture { handle }),
    ;

    /// Frees a bindless table.
    fn destroy_bindless_array(&mut self, handle: u64)
        ensures
            final(self).log() == old(self).log().push(
                BackendCall::DestroyBindlessArray { handle },
            ),
    ;

    /// Frees a stream.
    fn destroy_stream(&mut self, handle: u64)
        ensures
            final(self).log() == old(self).log().push(BackendCall::DestroyStream { handle }),
    ;

    /// Accepts one ordered batch of commands for a stream.  A successful
    /// call is recorded as a single dispatch holding exactly the given
    /// commands in order; a failed call records nothing, and none of the
    /// batch may be assumed to have run.
    fn dispatch(&mut self, stream: u64, commands: Vec<Command>) -> (r: Result<(), RuntimeError>)
        ensures
            match r {
                Ok(u) => final(self).log() == old(self).log().push(
                    BackendCall::Dispatch { stream, commands: cmds_model(commands@) },
                ),
                Err(e) => final(self).log() == old(self).log() && e
                    == RuntimeError::DispatchFailure,
            },
    ;

    /// Blocks until every previously dispatched command on `stream` has
    /// completed.
    fn synchronize(&mut self, stream: u64) -> (r: Result<(), RuntimeError>)
        ensures
            match r {
                Ok(u) => final(self).log() == old(self).log().push(
                    BackendCall::Synchronize { stream },
                ),
                Err(e) => final(self).log() == old(self).log() && e
                    == RuntimeError::DispatchFailure,
            },
    ;
}

/// One call as the in-memory backend records it.
#[derive(Debug, PartialEq)]
pub enum CallRecord {
    CreateBuffer { byte_size: usize, handle: u64 },
    CreateTexture {
        format: PixelFormat,
        dim: u32,
        width: u32,
        height: u32,
        depth: u32,
        mips: u32,
        handle: u64,
    },
    CreateBindlessArray { slots: usize, handle: u64 },
    CreateStream { handle: u64 },
    DestroyBuffer { handle: u64 },
    DestroyTexture { handle: u64 },
    DestroyBindlessArray { handle: u64 },
    DestroyStream { handle: u64 },
    Dispatch { stream: u64, commands: Vec<Command> },
    Synchronize { stream: u64 },
}

impl View for CallRecord {
    type V = BackendCall;

    open spec fn view(&self) -> BackendCall {
        match self {
            CallRecord::CreateBuffer { byte_size, handle } => BackendCall::CreateBuffer {
                byte_size: *byte_size,
                handle: *handle,
            },
            CallRecord::CreateTexture { format, dim, width, height, depth, mips, handle } => {
                BackendCall::CreateTexture {
                    format: *format,
                    dim: *dim,
                    width: *width,
                    height: *height,
                    depth: *depth,
                    mips: *mips,
                    handle: *handle,
                }
            },
            CallRecord::CreateBindlessArray { slots, handle } => BackendCall::CreateBindlessArray {
                slots: *slots,
                handle: *handle,
            },
            CallRecord::CreateStream { handle } => BackendCall::CreateStream { handle: *handle },
            CallRecord::DestroyBuffer { handle } => BackendCall::DestroyBuffer { handle: *handle },
            CallRecord::DestroyTexture { handle } => BackendCall::DestroyTexture {
                handle: *handle,
            },
            CallRecord::DestroyBindlessArray { handle } => BackendCall::DestroyBindlessArray {
                handle: *handle,
            },
            CallRecord::DestroyStream { handle } => BackendCall::DestroyStream { handle: *handle },
            CallRecord::Dispatch { stream, commands } => BackendCall::Dispatch {
                stream: *stream,
                commands: cmds_model(commands@),
            },
            CallRecord::Synchronize { stream } => BackendCall::Synchronize { stream: *stream },
        }
    }
}

/// Whether a creation quota permits one more creation.
pub open spec fn quota_allows(q: Option<usize>) -> bool {
    match q {
        None => true,
        Some(n) => n > 0,
    }
}

/// A verified in-memory backend.  It performs no real work: it records
/// every call it receives, hands out handles never handed out before, and
/// can be configured to exhaust its allocations or reject dispatches.
#[derive(Debug)]
pub struct ModelBackend {
    /// Every call received, in order.
    pub record: Vec<CallRecord>,
    /// How many more creations succeed; `None` is unlimited.
    pub alloc_quota: Option<usize>,
    /// Whether dispatches and synchronizations are rejected.
    pub fail_dispatch: bool,
}

impl ModelBackend {
    /// A backend with unlimited allocations that accepts every dispatch.
    pub fn new() -> (r: ModelBackend)
        ensures
            r.log() == Seq::<BackendCall>::empty(),
            r.record@.len() == 0,
            r.alloc_quota is None,
            !r.fail_dispatch,
    {
        let r = ModelBackend { record: Vec::new(), alloc_quota: None, fail_dispatch: false };
        proof {
            assert(r.log() =~= Seq::<BackendCall>::empty());
        }
        r
    }

    /// A backend whose next `n` creations succeed and whose later ones
    /// fail with an allocation error.
    pub fn with_quota(n: usize) -> (r: ModelBackend)
        ensures
            r.log() == Seq::<BackendCall>::empty(),
            r.record@.len() == 0,
            r.alloc_quota == Some(n),
            !r.fail_dispatch,
    {
        let r = ModelBackend { record: Vec::new(), alloc_quota: Some(n), fail_dispatch: false };
        proof {
            assert(r.log() =~= Seq::<BackendCall>::empty());
        }
        r
    }

    /// A backend that rejects every dispatch and synchronization.
    pub fn rejecting_dispatch() -> (r: ModelBackend)
        ensures
            r.log() == Seq::<BackendCall>::empty(),
            r.record@.len() == 0,
            r.alloc_quota is None,
            r.fail_dispatch,
    {
        let r = ModelBackend { record: Vec::new(), alloc_quota: None, fail_dispatch: true };
        proof {
            assert(r.log() =~= Seq::<BackendCall>::empty());
        }
        r
    }

    /// How many calls were received.
    pub fn call_count(&self) -> (r: usize)
        ensures
            r == self.log().len(),
    {
        self.record.len()
    }

    /// The handle a record created, if it is a creation.
    fn created_handle(rec: &CallRecord) -> (r: Option<u64>)
        ensures
            forall|h: u64| call_creates(rec@, h) <==> r == Some(h),
    {
        match rec {
            CallRecord::CreateBuffer { handle, .. } => Some(*handle),
            CallRecord::CreateTexture { handle, .. } => Some(*handle),
            CallRecord::CreateBindlessArray { handle, .. } => Some(*handle),
            CallRecord::CreateStream { handle } => Some(*handle),
            _ => None,
        }
    }

    /// A handle no recorded call has created, when one exists: only a log
    /// that has already created the largest handle has no fresh one left.
    fn fresh_handle_now(&self) -> (r: Option<u64>)
        ensures
            r matches Some(h) ==> fresh_handle(self.log(), h),
            r is None <==> handle_created(self.log(), u64::MAX),
    {
        let mut m: u64 = 0;
        let mut i: usize = 0;
        while i < self.record.len()
            invariant
                i <= self.record@.len(),
                forall|j: int, h: u64|
                    0 <= j < i && #[trigger] call_creates(self.log()[j], h) ==> h < m,
            decreases self.record@.len() - i,
        {
            match Self::created_handle(&self.record[i]) {
                Some(h) => {
                    if h == u64::MAX {
                        proof {
                            assert(self.log()[i as int] == self.record@[i as int]@);
                            assert(call_creates(self.log()[i as int], u64::MAX));
                        }
                        return None;
                    }
                    if h >= m {
                        m = h + 1;
                    }
                },
                None => {},
            }
            proof {
                assert(self.log()[i as int] == self.record@[i as int]@);
            }
            i = i + 1;
        }
        proof {
            assert(!handle_created(self.log(), u64::MAX)) by {
                if handle_created(self.log(), u64::MAX) {
                    let j = choose|j: int|
                        0 <= j < self.log().len() && call_creates(#[trigger] self.log()[j], u64::MAX);
                    assert(u64::MAX < m);
                }
            }
        }
        Some(m)
    }

    /// Whether a creation may proceed, consuming quota if limited.
    fn take_alloc(&mut self) -> (r: bool)
        ensures
            final(self).record == old(self).record,
            final(self).log() == old(self).log(),
            final(self).fail_dispatch == old(self).fail_dispatch,
            r == quota_allows(old(self).alloc_quota),
            !r ==> final(self).alloc_quota == old(self).alloc_quota,
    {
        match self.alloc_quota {
            None => true,
            Some(n) => {
                if n == 0 {
                    false
                } else {
                    self.alloc_quota = Some(n - 1);
                    true
                }
            },
        }
    }
}

/// Appending a record appends its image to the log.
proof fn lemma_log_push(pre: Seq<CallRecord>, r: CallRecord)
    ensures
        pre.push(r).map_values(|c: CallRecord| c@) =~= pre.map_values(|c: CallRecord| c@).push(r@),
{
}

impl Backend for ModelBackend {
    open spec fn log(&self) -> Seq<BackendCall> {
        self.record@.map_values(|c: CallRecord| c@)
    }

    fn create_buffer(&mut self, byte_size: usize) -> (r: Result<u64, RuntimeError>)
        ensures
            r is Ok <==> (quota_allows(old(self).alloc_quota) && !handle_created(
                old(self).log(),
                u64::MAX,
            )),
            final(self).fail_dispatch == old(self).fail_dispatch,
    {
        match self.fresh_handle_now() {
            None => Err(RuntimeError::AllocationFailure),
            Some(h) => {
                if !self.take_alloc() {
                    return Err(RuntimeError::AllocationFailure);
                }
                proof {
                    lemma_log_push(self.record@, CallRecord::CreateBuffer { byte_size, handle: h });
                }
                self.record.push(CallRecord::CreateBuffer { byte_size, handle: h });
                Ok(h)
            },
        }
    }

    fn create_texture(
        &mut self,
        format: PixelFormat,
        dim: u32,
        width: u32,
        height: u32,
        depth: u32,
        mips: u32,
    ) -> (r: Result<u64, RuntimeError>)
        ensures
            r is Ok <==> (quota_allows(old(self).alloc_quota) && !handle_created(
                old(self).log(),
                u64::MAX,
            )),
            final(self).fail_dispatch == old(self).fail_dispatch,
    {
        match self.fresh_handle_now() {
            None => Err(RuntimeError::AllocationFailure),
            Some(h) => {
                if !self.take_alloc() {
                    return Err(RuntimeError::AllocationFailure);
                }
                proof {
                    lemma_log_push(
                        self.record@,
                        CallRecord::CreateTexture {
                            format,
                            dim,
                            width,
                            height,
                            depth,
                            mips,
                            handle: h,
                        },
                    );
                }
                self.record.push(
                    CallRecord::CreateTexture { format, dim, width, height, depth, mips, handle: h },
                );
                Ok(h)
            },
        }
    }

    fn create_bindless_array(&mut self, slots: usize) -> (r: Result<u64, RuntimeError>)
        ensures
            r is Ok <==> (quota_allows(old(self).alloc_quota) && !handle_created(
                old(self).log(),
                u64::MAX,
            )),
            final(self).fail_dispatch == old(self).fail_dispatch,
    {
        match self.fresh_handle_now() {
            None => Err(RuntimeError::AllocationFailure),
            Some(h) => {
                if !self.take_alloc() {
                    return Err(RuntimeError::AllocationFailure);
                }
                proof {
                    lemma_log_push(
                        self.record@,
                        CallRecord::CreateBindlessArray { slots, handle: h },
                    );
                }
                self.record.push(CallRecord::CreateBindlessArray { slots, handle: h });
                Ok(h)
            },
        }
    }

    fn create_stream(&mut self) -> (r: Result<u64, RuntimeError>)
        ensures
            r is Ok <==> (quota_allows(old(self).alloc_quota) && !handle_created(
                old(self).log(),
                u64::MAX,
            )),
            final(self).fail_dispatch == old(self).fail_dispatch,
    {
        match self.fresh_handle_now() {
            None => Err(RuntimeError::AllocationFailure),
            Some(h) => {
                if !self.take_alloc() {
                    return Err(RuntimeError::AllocationFailure);
                }
                proof {
                    lemma_log_push(self.record@, CallRecord::CreateStream { handle: h });
                }
                self.record.push(CallRecord::CreateStream { handle: h });
                Ok(h)
            },
        }
    }

    fn destroy_buffer(&mut self, handle: u64) {
        proof {
            lemma_log_push(self.record@, CallRecord::DestroyBuffer { handle });
        }
        self.record.push(CallRecord::DestroyBuffer { handle });
    }

    fn destroy_texture(&mut self, handle: u64) {
        proof {
            lemma_log_push(self.record@, CallRecord::DestroyTexture { handle });
        }
        self.record.push(CallRecord::DestroyTexture { handle });
    }

    fn destroy_bindless_array(&mut self, handle: u64) {
        proof {
            lemma_log_push(self.record@, CallRecord::DestroyBindlessArray { handle });
        }
        self.record.push(CallRecord::DestroyBindlessArray { handle });
    }

    fn destroy_stream(&mut self, handle: u64) {
        proof {
            lemma_log_push(self.record@, CallRecord::DestroyStream { handle });
        }
        self.record.push(CallRecord::DestroyStream { handle });
    }

    fn dispatch(&mut self, stream: u64, commands: Vec<Command>) -> (r: Result<(), RuntimeError>)
        ensures
            r is Ok <==> !old(self).fail_dispatch,
            final(self).fail_dispatch == old(self).fail_dispatch,
            final(self).alloc_quota == old(self).alloc_quota,
    {
        if self.fail_dispatch {
            return Err(RuntimeError::DispatchFailure);
        }
        proof {
            lemma_log_push(self.record@, CallRecord::Dispatch { stream, commands });
        }
        self.record.push(CallRecord::Dispatch { stream, commands });
        Ok(())
    }

    fn synchronize(&mut self, stream: u64) -> (r: Result<(), RuntimeError>)
        ensures
            r is Ok <==> !old(self).fail_dispatch,
            final(self).fail_dispatch == old(self).fail_dispatch,
            final(self).alloc_quota == old(self).alloc_quota,
    {
        if self.fail_dispatch {
            return Err(RuntimeError::DispatchFailure);
        }
        proof {
            lemma_log_push(self.record@, CallRecord::Synchronize { stream });
        }
        self.record.push(CallRecord::Synchronize { stream });
        Ok(())
    }
}

} // verus!
