//! The resource and execution runtime.
//!
//! A [`Device`] owns one backend and an arena of the backend handles it has
//! created: one slot per stream (slot zero is the default stream) and one
//! per buffer, texture or bindless array.  Handle values ([`Stream`],
//! [`Buffer`], …) are move-only references into the arena and go back
//! through the device to be released; the device's invariant ties each slot
//! to the backend's call log, so that a slot that is alive has never been
//! freed and a slot that is dead has been freed exactly once.
//!
//! Streams are reference counted: cloning a [`Stream`] raises its slot's
//! count and releasing lowers it, and only the release of the last
//! reference to a non-default stream frees the backend stream.  The default
//! stream is freed only when the device itself is shut down.  The other
//! resources have a single owner each: releasing the handle frees the
//! backend memory, once, and the type system rules out a second release.
//!
//! A [`CommandBuffer`] is a transient builder bound to one stream.  Commit
//! is all or nothing: a successful commit hands the backend exactly the
//! recorded commands, in recorded order, as one dispatch call, and a failed
//! commit hands it nothing.

use vstd::prelude::*;

use crate::backend::{
    call_creates, destroy_stream_count, fresh_handle, handle_created,
    lemma_destroy_stream_count_push, Backend, BackendCall, PixelFormat, RuntimeError,
};
use crate::command::{cmds_model, Command};

verus! {

/// What kind of device memory a resource slot owns.
#[derive(Clone, Copy, Debug, PartialEq, Eq, Structural)]
pub enum ResourceKind {
    Buffer,
    Texture,
    Bindless,
}

/// The backend call that frees a resource of the given kind.
pub open spec fn destroy_call(kind: ResourceKind, h: u64) -> BackendCall {
    match kind {
        ResourceKind::Buffer => BackendCall::DestroyBuffer { handle: h },
        ResourceKind::Texture => BackendCall::DestroyTexture { handle: h },
        ResourceKind::Bindless => BackendCall::DestroyBindlessArray { handle: h },
    }
}

/// How many times `log` frees a resource of this kind and handle.
pub open spec fn destroy_resource_count(log: Seq<BackendCall>, kind: ResourceKind, h: u64) -> nat
    decreases log.len(),
{
    if log.len() == 0 {
        0
    } else {
        destroy_resource_count(log.drop_last(), kind, h) + if log.last() == destroy_call(kind, h) {
            1nat
        } else {
            0nat
        }
    }
}

/// Appending one call raises exactly the destroy count of the resource it
/// frees, if any, and no other.
proof fn lemma_destroy_resource_count_push(log: Seq<BackendCall>, c: BackendCall)
    ensures
        forall|k: ResourceKind, h: u64| #[trigger] destroy_resource_count(log.push(c), k, h)
            == destroy_resource_count(log, k, h) + if c == destroy_call(k, h) {
            1nat
        } else {
            0nat
        },
{
    assert(log.push(c).drop_last() =~= log);
    assert(log.push(c).last() == c);
}

/// Appending a call keeps every created handle created, and creates at
/// most the one the call creates.
proof fn lemma_created_push(log: Seq<BackendCall>, c: BackendCall)
    ensures
        forall|h: u64| #[trigger] handle_created(log.push(c), h) <==> (handle_created(log, h)
            || call_creates(c, h)),
{
    assert forall|h: u64| #[trigger] handle_created(log.push(c), h) implies (handle_created(log, h)
        || call_creates(c, h)) by {
        let i = choose|i: int| 0 <= i < log.push(c).len() && call_creates(#[trigger] log.push(c)[i], h);
        if i < log.len() {
            assert(log.push(c)[i] == log[i]);
            assert(call_creates(log[i], h));
        } else {
            assert(log.push(c)[i] == c);
        }
    }
    assert forall|h: u64| (handle_created(log, h) || call_creates(c, h)) implies #[trigger]
        handle_created(log.push(c), h) by {
        if handle_created(log, h) {
            let i = choose|i: int| 0 <= i < log.len() && call_creates(#[trigger] log[i], h);
            assert(log.push(c)[i] == log[i]);
            assert(call_creates(log.push(c)[i], h));
        } else {
            assert(log.push(c)[log.len() as int] == c);
            assert(call_creates(log.push(c)[log.len() as int], h));
        }
    }
}

/// A stream the device created; slot zero is the default stream.
#[derive(Debug)]
pub struct StreamSlot {
    pub handle: u64,
    pub refs: usize,
    pub alive: bool,
}

/// A buffer, texture or bindless array the device created.
#[derive(Debug)]
pub struct ResourceSlot {
    pub kind: ResourceKind,
    pub handle: u64,
    pub alive: bool,
}

/// A counted reference to a stream.  Obtained from the device, cloned and
/// released through it.
#[derive(Debug)]
pub struct Stream {
    pub id: usize,
    pub handle: u64,
}

/// An owning reference to a device buffer of `len` elements of
/// `elem_size` bytes each; the backend allocation is exactly
/// `len * elem_size` bytes.
#[derive(Debug)]
pub struct Buffer {
    pub id: usize,
    pub handle: u64,
    pub len: usize,
    pub elem_size: usize,
}

/// An owning reference to a two-dimensional texture.
#[derive(Debug)]
pub struct Tex2d {
    pub id: usize,
    pub handle: u64,
    pub format: PixelFormat,
    pub width: u32,
    pub height: u32,
    pub mips: u32,
}

/// An owning reference to a three-dimensional texture.
#[derive(Debug)]
pub struct Tex3d {
    pub id: usize,
    pub handle: u64,
    pub format: PixelFormat,
    pub width: u32,
    pub height: u32,
    pub depth: u32,
    pub mips: u32,
}

/// An owning reference to a bindless table.
#[derive(Debug)]
pub struct BindlessArray {
    pub id: usize,
    pub handle: u64,
    pub slots: usize,
}

/// The element type of a texture, as the host sees it.
#[derive(Clone, Copy, Debug, PartialEq, Eq, Structural)]
pub enum TexelKind {
    U8,
    U8x2,
    U8x4,
    I32,
    U32,
}

/// Which pixel format holds which element type.
pub open spec fn texel_supports(t: TexelKind, f: PixelFormat) -> bool {
    match t {
        TexelKind::U8 => f == PixelFormat::R8Unorm,
        TexelKind::U8x2 => f == PixelFormat::Rg8Unorm,
        TexelKind::U8x4 => f == PixelFormat::Rgba8Unorm,
        TexelKind::I32 => f == PixelFormat::R32Sint,
        TexelKind::U32 => f == PixelFormat::R32Uint,
    }
}

/// Whether the format can hold the element type.
pub fn texel_format_supported(t: TexelKind, f: PixelFormat) -> (r: bool)
    ensures
        r == texel_supports(t, f),
{
    match t {
        TexelKind::U8 => f == PixelFormat::R8Unorm,
        TexelKind::U8x2 => f == PixelFormat::Rg8Unorm,
        TexelKind::U8x4 => f == PixelFormat::Rgba8Unorm,
        TexelKind::I32 => f == PixelFormat::R32Sint,
        TexelKind::U32 => f == PixelFormat::R32Uint,
    }
}

/// A device: one backend, its default stream, and the arena of every
/// backend handle it has created.
#[derive(Debug)]
pub struct Device<B: Backend> {
    pub backend: B,
    pub streams: Vec<StreamSlot>,
    pub resources: Vec<ResourceSlot>,
}

/// Some stream slot holds the handle `h`.
pub open spec fn stream_handle_present<B: Backend>(d: Device<B>, h: u64) -> bool {
    exists|i: int| 0 <= i < d.streams@.len() && (#[trigger] d.streams@[i]).handle == h
}

/// Some resource slot of kind `k` holds the handle `h`.
pub open spec fn resource_handle_present<B: Backend>(d: Device<B>, k: ResourceKind, h: u64) -> bool {
    exists|i: int|
        0 <= i < d.resources@.len() && (#[trigger] d.resources@[i]).kind == k && d.resources@[i].handle
            == h
}

/// No two slots share a backend handle.
pub open spec fn handles_distinct<B: Backend>(d: Device<B>) -> bool {
    &&& forall|i: int, j: int|
        0 <= i < j < d.streams@.len() ==> (#[trigger] d.streams@[i]).handle != (
        #[trigger] d.streams@[j]).handle
    &&& forall|i: int, j: int|
        0 <= i < j < d.resources@.len() ==> (#[trigger] d.resources@[i]).handle != (
        #[trigger] d.resources@[j]).handle
    &&& forall|i: int, j: int|
        0 <= i < d.streams@.len() && 0 <= j < d.resources@.len() ==> (
        #[trigger] d.streams@[i]).handle != (#[trigger] d.resources@[j]).handle
}

impl<B: Backend> Device<B> {
    /// The device's internal invariant: the default stream is alive, every
    /// slot's handle was created by the backend, no two slots share one,
    /// and the log frees each slot's handle exactly once if the slot is
    /// dead and never otherwise.
    pub open spec fn wf(self) -> bool {
        &&& self.streams@.len() >= 1
        &&& self.streams@[0].alive
        &&& forall|i: int|
            0 <= i < self.streams@.len() ==> handle_created(
                self.backend.log(),
                (#[trigger] self.streams@[i]).handle,
            )
        &&& forall|i: int|
            0 <= i < self.resources@.len() ==> handle_created(
                self.backend.log(),
                (#[trigger] self.resources@[i]).handle,
            )
        &&& handles_distinct(self)
        &&& forall|i: int|
            0 <= i < self.streams@.len() ==> destroy_stream_count(
                self.backend.log(),
                (#[trigger] self.streams@[i]).handle,
            ) == if self.streams@[i].alive {
                0nat
            } else {
                1nat
            }
        &&& forall|i: int|
            0 <= i < self.resources@.len() ==> destroy_resource_count(
                self.backend.log(),
                (#[trigger] self.resources@[i]).kind,
                self.resources@[i].handle,
            ) == if self.resources@[i].alive {
                0nat
            } else {
                1nat
            }
        &&& forall|h: u64|
            !stream_handle_present(self, h) ==> #[trigger] destroy_stream_count(
                self.backend.log(),
                h,
            ) == 0
        &&& forall|k: ResourceKind, h: u64|
            !resource_handle_present(self, k, h) ==> #[trigger] destroy_resource_count(
                self.backend.log(),
                k,
                h,
            ) == 0
    }

    /// `s` refers to a live stream slot of this device.
    pub open spec fn stream_valid(self, s: Stream) -> bool {
        &&& s.id < self.streams@.len()
        &&& self.streams@[s.id as int].alive
        &&& self.streams@[s.id as int].handle == s.handle
    }
}

/// The invariant depends on the backend only through its log: it survives
/// any backend step that leaves the log unchanged (a failed call).
proof fn lemma_wf_log_unchanged<B: Backend>(pre: Device<B>, post: Device<B>)
    requires
        pre.wf(),
        post.streams@ == pre.streams@,
        post.resources@ == pre.resources@,
        post.backend.log() == pre.backend.log(),
    ensures
        post.wf(),
{
    assert forall|h2: u64| !stream_handle_present(post, h2) implies #[trigger] destroy_stream_count(
        post.backend.log(),
        h2,
    ) == 0 by {
        assert(!stream_handle_present(pre, h2)) by {
            if stream_handle_present(pre, h2) {
                let i = choose|i: int|
                    0 <= i < pre.streams@.len() && (#[trigger] pre.streams@[i]).handle == h2;
                assert(post.streams@[i].handle == h2);
            }
        }
    }
    assert forall|k2: ResourceKind, h2: u64| !resource_handle_present(post, k2, h2) implies #[trigger]
        destroy_resource_count(post.backend.log(), k2, h2) == 0 by {
        assert(!resource_handle_present(pre, k2, h2)) by {
            if resource_handle_present(pre, k2, h2) {
                let i = choose|i: int|
                    0 <= i < pre.resources@.len() && (#[trigger] pre.resources@[i]).kind == k2
                        && pre.resources@[i].handle == h2;
                assert(post.resources@[i].kind == k2 && post.resources@[i].handle == h2);
            }
        }
    }
}

/// The invariant survives a backend call that neither creates nor frees a
/// handle (a dispatch or a synchronization).
proof fn lemma_wf_push_neutral<B: Backend>(pre: Device<B>, post: Device<B>, c: BackendCall)
    requires
        pre.wf(),
        post.streams@ == pre.streams@,
        post.resources@ == pre.resources@,
        post.backend.log() == pre.backend.log().push(c),
        c matches BackendCall::Dispatch { .. } || c matches BackendCall::Synchronize { .. },
    ensures
        post.wf(),
{
    let log = pre.backend.log();
    lemma_created_push(log, c);
    lemma_destroy_stream_count_push(log, c);
    lemma_destroy_resource_count_push(log, c);
    assert forall|h: u64| !stream_handle_present(post, h) implies #[trigger] destroy_stream_count(
        post.backend.log(),
        h,
    ) == 0 by {
        assert(!stream_handle_present(pre, h));
    }
    assert forall|k: ResourceKind, h: u64| !resource_handle_present(post, k, h) implies #[trigger]
        destroy_resource_count(post.backend.log(), k, h) == 0 by {
        assert(!resource_handle_present(pre, k, h));
    }
}

/// The invariant survives the creation of a stream with a fresh handle.
proof fn lemma_wf_create_stream<B: Backend>(pre: Device<B>, post: Device<B>, h: u64)
    requires
        pre.wf(),
        fresh_handle(pre.backend.log(), h),
        post.backend.log() == pre.backend.log().push(BackendCall::CreateStream { handle: h }),
        post.streams@ == pre.streams@.push(StreamSlot { handle: h, refs: 1, alive: true }),
        post.resources@ == pre.resources@,
    ensures
        post.wf(),
{
    let log = pre.backend.log();
    let c = BackendCall::CreateStream { handle: h };
    lemma_created_push(log, c);
    lemma_destroy_stream_count_push(log, c);
    lemma_destroy_resource_count_push(log, c);
    assert(call_creates(c, h));
    // The fresh handle differs from every slot's handle, which was created.
    assert forall|i: int| 0 <= i < pre.streams@.len() implies (#[trigger] pre.streams@[i]).handle
        != h by {
        assert(handle_created(log, pre.streams@[i].handle));
    }
    assert forall|i: int| 0 <= i < pre.resources@.len() implies (
    #[trigger] pre.resources@[i]).handle != h by {
        assert(handle_created(log, pre.resources@[i].handle));
    }
    assert(!stream_handle_present(pre, h));
    assert(destroy_stream_count(log, h) == 0);
    assert forall|h2: u64| !stream_handle_present(post, h2) implies #[trigger] destroy_stream_count(
        post.backend.log(),
        h2,
    ) == 0 by {
        assert(!stream_handle_present(pre, h2)) by {
            if stream_handle_present(pre, h2) {
                let i = choose|i: int|
                    0 <= i < pre.streams@.len() && (#[trigger] pre.streams@[i]).handle == h2;
                assert(post.streams@[i].handle == h2);
            }
        }
    }
    assert forall|k: ResourceKind, h2: u64| !resource_handle_present(post, k, h2) implies #[trigger]
        destroy_resource_count(post.backend.log(), k, h2) == 0 by {
        assert(!resource_handle_present(pre, k, h2));
    }
}

/// The invariant survives the creation of a resource with a fresh handle.
proof fn lemma_wf_create_resource<B: Backend>(
    pre: Device<B>,
    post: Device<B>,
    c: BackendCall,
    kind: ResourceKind,
    h: u64,
)
    requires
        pre.wf(),
        fresh_handle(pre.backend.log(), h),
        call_creates(c, h),
        !(c matches BackendCall::DestroyBuffer { .. }),
        !(c matches BackendCall::DestroyTexture { .. }),
        !(c matches BackendCall::DestroyBindlessArray { .. }),
        !(c matches BackendCall::DestroyStream { .. }),
        post.backend.log() == pre.backend.log().push(c),
        post.streams@ == pre.streams@,
        post.resources@ == pre.resources@.push(ResourceSlot { kind, handle: h, alive: true }),
    ensures
        post.wf(),
{
    let log = pre.backend.log();
    lemma_created_push(log, c);
    lemma_destroy_stream_count_push(log, c);
    lemma_destroy_resource_count_push(log, c);
    assert forall|i: int| 0 <= i < pre.streams@.len() implies (#[trigger] pre.streams@[i]).handle
        != h by {
        assert(handle_created(log, pre.streams@[i].handle));
    }
    assert forall|i: int| 0 <= i < pre.resources@.len() implies (
    #[trigger] pre.resources@[i]).handle != h by {
        assert(handle_created(log, pre.resources@[i].handle));
    }
    assert(!resource_handle_present(pre, kind, h));
    assert(destroy_resource_count(log, kind, h) == 0);
    assert forall|h2: u64| !stream_handle_present(post, h2) implies #[trigger] destroy_stream_count(
        post.backend.log(),
        h2,
    ) == 0 by {
        assert(!stream_handle_present(pre, h2));
    }
    assert forall|k2: ResourceKind, h2: u64| !resource_handle_present(post, k2, h2) implies #[trigger]
        destroy_resource_count(post.backend.log(), k2, h2) == 0 by {
        assert(!resource_handle_present(pre, k2, h2)) by {
            if resource_handle_present(pre, k2, h2) {
                let i = choose|i: int|
                    0 <= i < pre.resources@.len() && (#[trigger] pre.resources@[i]).kind == k2
                        && pre.resources@[i].handle == h2;
                assert(post.resources@[i].kind == k2 && post.resources@[i].handle == h2);
            }
        }
    }
}

/// The invariant survives freeing the live non-default stream in slot
/// `idx`.
proof fn lemma_wf_destroy_stream<B: Backend>(pre: Device<B>, post: Device<B>, idx: int)
    requires
        pre.wf(),
        0 < idx < pre.streams@.len(),
        pre.streams@[idx].alive,
        post.backend.log() == pre.backend.log().push(
            BackendCall::DestroyStream { handle: pre.streams@[idx].handle },
        ),
        post.streams@ == pre.streams@.update(
            idx,
            StreamSlot { handle: pre.streams@[idx].handle, refs: 0, alive: false },
        ),
        post.resources@ == pre.resources@,
    ensures
        post.wf(),
{
    let log = pre.backend.log();
    let h = pre.streams@[idx].handle;
    let c = BackendCall::DestroyStream { handle: h };
    lemma_created_push(log, c);
    lemma_destroy_stream_count_push(log, c);
    lemma_destroy_resource_count_push(log, c);
    assert forall|i: int| 0 <= i < post.streams@.len() implies destroy_stream_count(
        post.backend.log(),
        (#[trigger] post.streams@[i]).handle,
    ) == if post.streams@[i].alive {
        0nat
    } else {
        1nat
    } by {
        if i == idx {
            assert(destroy_stream_count(log, h) == 0);
        } else {
            assert(post.streams@[i] == pre.streams@[i]);
            assert(pre.streams@[i].handle != h);
        }
    }
    assert forall|h2: u64| !stream_handle_present(post, h2) implies #[trigger] destroy_stream_count(
        post.backend.log(),
        h2,
    ) == 0 by {
        assert(!stream_handle_present(pre, h2)) by {
            if stream_handle_present(pre, h2) {
                let i = choose|i: int|
                    0 <= i < pre.streams@.len() && (#[trigger] pre.streams@[i]).handle == h2;
                assert(post.streams@[i].handle == h2);
            }
        }
        assert(h2 != h);
    }
    assert forall|k2: ResourceKind, h2: u64| !resource_handle_present(post, k2, h2) implies #[trigger]
        destroy_resource_count(post.backend.log(), k2, h2) == 0 by {
        assert(!resource_handle_present(pre, k2, h2));
    }
}

/// The invariant survives a stream slot's reference count changing, with
/// its handle and liveness unchanged.
proof fn lemma_wf_stream_refs<B: Backend>(pre: Device<B>, post: Device<B>, idx: int, refs: usize)
    requires
        pre.wf(),
        0 <= idx < pre.streams@.len(),
        post.backend.log() == pre.backend.log(),
        post.streams@ == pre.streams@.update(
            idx,
            StreamSlot {
                handle: pre.streams@[idx].handle,
                refs,
                alive: pre.streams@[idx].alive,
            },
        ),
        post.resources@ == pre.resources@,
    ensures
        post.wf(),
{
    assert forall|h2: u64| !stream_handle_present(post, h2) implies #[trigger] destroy_stream_count(
        post.backend.log(),
        h2,
    ) == 0 by {
        assert(!stream_handle_present(pre, h2)) by {
            if stream_handle_present(pre, h2) {
                let i = choose|i: int|
                    0 <= i < pre.streams@.len() && (#[trigger] pre.streams@[i]).handle == h2;
                assert(post.streams@[i].handle == h2);
            }
        }
    }
    assert forall|k2: ResourceKind, h2: u64| !resource_handle_present(post, k2, h2) implies #[trigger]
        destroy_resource_count(post.backend.log(), k2, h2) == 0 by {
        assert(!resource_handle_present(pre, k2, h2));
    }
}

/// The invariant survives freeing the live resource in slot `idx`.
proof fn lemma_wf_destroy_resource<B: Backend>(pre: Device<B>, post: Device<B>, idx: int)
    requires
        pre.wf(),
        0 <= idx < pre.resources@.len(),
        pre.resources@[idx].alive,
        post.backend.log() == pre.backend.log().push(
            destroy_call(pre.resources@[idx].kind, pre.resources@[idx].handle),
        ),
        post.streams@ == pre.streams@,
        post.resources@ == pre.resources@.update(
            idx,
            ResourceSlot {
                kind: pre.resources@[idx].kind,
                handle: pre.resources@[idx].handle,
                alive: false,
            },
        ),
    ensures
        post.wf(),
{
    let log = pre.backend.log();
    let kind = pre.resources@[idx].kind;
    let h = pre.resources@[idx].handle;
    let c = destroy_call(kind, h);
    lemma_created_push(log, c);
    lemma_destroy_stream_count_push(log, c);
    lemma_destroy_resource_count_push(log, c);
    assert(!(c matches BackendCall::DestroyStream { .. }));
    assert forall|i: int| 0 <= i < post.resources@.len() implies destroy_resource_count(
        post.backend.log(),
        (#[trigger] post.resources@[i]).kind,
        post.resources@[i].handle,
    ) == if post.resources@[i].alive {
        0nat
    } else {
        1nat
    } by {
        if i == idx {
            assert(destroy_resource_count(log, kind, h) == 0);
        } else {
            assert(post.resources@[i] == pre.resources@[i]);
            assert(pre.resources@[i].handle != h);
            assert(c != destroy_call(pre.resources@[i].kind, pre.resources@[i].handle));
        }
    }
    assert forall|h2: u64| !stream_handle_present(post, h2) implies #[trigger] destroy_stream_count(
        post.backend.log(),
        h2,
    ) == 0 by {
        assert(!stream_handle_present(pre, h2));
    }
    assert forall|k2: ResourceKind, h2: u64| !resource_handle_present(post, k2, h2) implies #[trigger]
        destroy_resource_count(post.backend.log(), k2, h2) == 0 by {
        assert(!resource_handle_present(pre, k2, h2)) by {
            if resource_handle_present(pre, k2, h2) {
                let i = choose|i: int|
                    0 <= i < pre.resources@.len() && (#[trigger] pre.resources@[i]).kind == k2
                        && pre.resources@[i].handle == h2;
                assert(post.resources@[i].kind == k2 && post.resources@[i].handle == h2);
            }
        }
        assert(!(k2 == kind && h2 == h));
    }
}

impl<B: Backend> Device<B> {
    /// Creates a device around a backend that has not been used yet, and
    /// its default stream.
    pub fn new(backend: B) -> (r: Result<Device<B>, RuntimeError>)
        requires
            backend.log().len() == 0,
        ensures
            match r {
                Ok(d) => {
                    &&& d.wf()
                    &&& d.streams@.len() == 1
                    &&& d.streams@[0].refs == 1
                    &&& d.resources@.len() == 0
                    &&& d.backend.log() == backend.log().push(
                        BackendCall::CreateStream { handle: d.streams@[0].handle },
                    )
                },
                Err(e) => e == RuntimeError::AllocationFailure,
            },
    {
        let mut b = backend;
        match b.create_stream() {
            Ok(h) => {
                let mut streams: Vec<StreamSlot> = Vec::new();
                streams.push(StreamSlot { handle: h, refs: 1, alive: true });
                let d = Device { backend: b, streams, resources: Vec::new() };
                proof {
                    let log0 = backend.log();
                    let c = BackendCall::CreateStream { handle: h };
                    lemma_created_push(log0, c);
                    lemma_destroy_stream_count_push(log0, c);
                    lemma_destroy_resource_count_push(log0, c);
                    assert(d.backend.log() == log0.push(c));
                    assert forall|h2: u64| #[trigger] destroy_stream_count(log0, h2) == 0 by {}
                    assert forall|k2: ResourceKind, h2: u64| #[trigger] destroy_resource_count(
                        log0,
                        k2,
                        h2,
                    ) == 0 by {}
                    assert(d.wf());
                }
                Ok(d)
            },
            Err(e) => Err(e),
        }
    }

    /// Creates a new backend stream and returns the first reference to it.
    pub fn create_stream(&mut self) -> (r: Result<Stream, RuntimeError>)
        requires
            old(self).wf(),
        ensures
            final(self).wf(),
            final(self).resources@ == old(self).resources@,
            match r {
                Ok(s) => {
                    &&& s.id == old(self).streams@.len()
                    &&& final(self).streams@ == old(self).streams@.push(
                        StreamSlot { handle: s.handle, refs: 1, alive: true },
                    )
                    &&& final(self).backend.log() == old(self).backend.log().push(
                        BackendCall::CreateStream { handle: s.handle },
                    )
                    &&& final(self).stream_valid(s)
                },
                Err(e) => {
                    &&& e == RuntimeError::AllocationFailure
                    &&& final(self).backend.log() == old(self).backend.log()
                    &&& final(self).streams@ == old(self).streams@
                },
            },
    {
        match self.backend.create_stream() {
            Ok(h) => {
                let id: usize = self.streams.len();
                self.streams.push(StreamSlot { handle: h, refs: 1, alive: true });
                proof {
                    lemma_wf_create_stream(*old(self), *self, h);
                }
                Ok(Stream { id, handle: h })
            },
            Err(e) => {
                proof {
                    lemma_wf_log_unchanged(*old(self), *self);
                }
                Err(e)
            },
        }
    }

    /// Returns a new reference to the device's default stream, without
    /// creating backend state.  Fails only when the reference count is
    /// saturated.
    pub fn default_stream(&mut self) -> (r: Option<Stream>)
        requires
            old(self).wf(),
        ensures
            final(self).wf(),
            final(self).backend.log() == old(self).backend.log(),
            final(self).resources@ == old(self).resources@,
            match r {
                Some(s) => {
                    &&& s.id == 0
                    &&& s.handle == old(self).streams@[0].handle
                    &&& old(self).streams@[0].refs < usize::MAX
                    &&& final(self).streams@ == old(self).streams@.update(
                        0,
                        StreamSlot {
                            handle: s.handle,
                            refs: (old(self).streams@[0].refs + 1) as usize,
                            alive: true,
                        },
                    )
                    &&& final(self).stream_valid(s)
                },
                None => old(self).streams@[0].refs == usize::MAX && final(self).streams@ == old(
                    self,
                ).streams@,
            },
    {
        let h: u64 = self.streams[0].handle;
        let refs: usize = self.streams[0].refs;
        if refs == usize::MAX {
            return None;
        }
        self.streams.set(0, StreamSlot { handle: h, refs: refs + 1, alive: true });
        proof {
            lemma_wf_stream_refs(*old(self), *self, 0, (refs + 1) as usize);
        }
        Some(Stream { id: 0, handle: h })
    }

    /// Returns one more reference to the same stream, raising its count.
    pub fn clone_stream(&mut self, s: &Stream) -> (r: Option<Stream>)
        requires
            old(self).wf(),
            old(self).stream_valid(*s),
        ensures
            final(self).wf(),
            final(self).backend.log() == old(self).backend.log(),
            final(self).resources@ == old(self).resources@,
            match r {
                Some(s2) => {
                    &&& s2.id == s.id
                    &&& s2.handle == s.handle
                    &&& old(self).streams@[s.id as int].refs < usize::MAX
                    &&& final(self).streams@ == old(self).streams@.update(
                        s.id as int,
                        StreamSlot {
                            handle: s.handle,
                            refs: (old(self).streams@[s.id as int].refs + 1) as usize,
                            alive: true,
                        },
                    )
                },
                None => old(self).streams@[s.id as int].refs == usize::MAX && final(self).streams@
                    == old(self).streams@,
            },
    {
        let refs: usize = self.streams[s.id].refs;
        if refs == usize::MAX {
            return None;
        }
        self.streams.set(s.id, StreamSlot { handle: s.handle, refs: refs + 1, alive: true });
        proof {
            lemma_wf_stream_refs(*old(self), *self, s.id as int, (refs + 1) as usize);
        }
        Some(Stream { id: s.id, handle: s.handle })
    }

    /// Gives a stream reference back.  Releasing the last reference to a
    /// non-default stream frees the backend stream, exactly once; the
    /// default stream is never freed here.  Returns whether the backend
    /// stream was freed by this call.
    pub fn release_stream(&mut self, s: Stream) -> (destroyed: bool)
        requires
            old(self).wf(),
        ensures
            final(self).wf(),
            final(self).resources@ == old(self).resources@,
            ({
                let slots = old(self).streams@;
                if s.id < slots.len() && slots[s.id as int].alive && slots[s.id as int].handle
                    == s.handle && slots[s.id as int].refs > 0 {
                    if slots[s.id as int].refs == 1 && s.id != 0 {
                        &&& destroyed == true
                        &&& final(self).streams@ == slots.update(
                            s.id as int,
                            StreamSlot { handle: s.handle, refs: 0, alive: false },
                        )
                        &&& final(self).backend.log() == old(self).backend.log().push(
                            BackendCall::DestroyStream { handle: s.handle },
                        )
                    } else {
                        &&& destroyed == false
                        &&& final(self).streams@ == slots.update(
                            s.id as int,
                            StreamSlot {
                                handle: s.handle,
                                refs: (slots[s.id as int].refs - 1) as usize,
                                alive: slots[s.id as int].alive,
                            },
                        )
                        &&& final(self).backend.log() == old(self).backend.log()
                    }
                } else {
                    &&& destroyed == false
                    &&& final(self).streams@ == slots
                    &&& final(self).backend.log() == old(self).backend.log()
                }
            }),
    {
        if s.id >= self.streams.len() {
            return false;
        }
        let slot_handle: u64 = self.streams[s.id].handle;
        let slot_refs: usize = self.streams[s.id].refs;
        let slot_alive: bool = self.streams[s.id].alive;
        if !slot_alive || slot_handle != s.handle || slot_refs == 0 {
            return false;
        }
        if slot_refs == 1 && s.id != 0 {
            self.streams.set(s.id, StreamSlot { handle: slot_handle, refs: 0, alive: false });
            self.backend.destroy_stream(slot_handle);
            proof {
                lemma_wf_destroy_stream(*old(self), *self, s.id as int);
            }
            true
        } else {
            self.streams.set(
                s.id,
                StreamSlot { handle: slot_handle, refs: slot_refs - 1, alive: slot_alive },
            );
            proof {
                lemma_wf_stream_refs(*old(self), *self, s.id as int, (slot_refs - 1) as usize);
            }
            false
        }
    }

    /// Tears the device down, freeing the default stream's backend handle,
    /// and hands the backend back.  Resources still outstanding are not
    /// freed here: they are released through the device before it is shut
    /// down.
    pub fn shutdown(self) -> (b: B)
        requires
            self.wf(),
        ensures
            b.log() == self.backend.log().push(
                BackendCall::DestroyStream { handle: self.streams@[0].handle },
            ),
    {
        let Device { mut backend, streams, resources } = self;
        let h: u64 = streams[0].handle;
        backend.destroy_stream(h);
        backend
    }

    /// Allocates a buffer for `count` elements of `elem_size` bytes.  The
    /// backend allocation is exactly `count * elem_size` bytes, which must
    /// be representable.
    pub fn create_buffer(&mut self, elem_size: usize, count: usize) -> (r: Result<
        Buffer,
        RuntimeError,
    >)
        requires
            old(self).wf(),
        ensures
            final(self).wf(),
            final(self).streams@ == old(self).streams@,
            match r {
                Ok(b) => {
                    &&& b.len == count
                    &&& b.elem_size == elem_size
                    &&& count * elem_size <= usize::MAX
                    &&& b.id == old(self).resources@.len()
                    &&& final(self).resources@ == old(self).resources@.push(
                        ResourceSlot { kind: ResourceKind::Buffer, handle: b.handle, alive: true },
                    )
                    &&& final(self).backend.log() == old(self).backend.log().push(
                        BackendCall::CreateBuffer {
                            byte_size: (count * elem_size) as usize,
                            handle: b.handle,
                        },
                    )
                },
                Err(e) => {
                    &&& e == RuntimeError::AllocationFailure
                    &&& final(self).backend.log() == old(self).backend.log()
                    &&& final(self).resources@ == old(self).resources@
                },
            },
    {
        let byte_size: usize = match count.checked_mul(elem_size) {
            Some(n) => n,
            None => {
                return Err(RuntimeError::AllocationFailure);
            },
        };
        match self.backend.create_buffer(byte_size) {
            Ok(h) => {
                let id: usize = self.resources.len();
                self.resources.push(
                    ResourceSlot { kind: ResourceKind::Buffer, handle: h, alive: true },
                );
                proof {
                    lemma_wf_create_resource(
                        *old(self),
                        *self,
                        BackendCall::CreateBuffer { byte_size, handle: h },
                        ResourceKind::Buffer,
                        h,
                    );
                }
                Ok(Buffer { id, handle: h, len: count, elem_size })
            },
            Err(e) => {
                proof {
                    lemma_wf_log_unchanged(*old(self), *self);
                }
                Err(e)
            },
        }
    }

    /// Allocates a two-dimensional texture, validating that the pixel
    /// format can hold the element type.
    pub fn create_tex2d(
        &mut self,
        texel: TexelKind,
        format: PixelFormat,
        width: u32,
        height: u32,
        mips: u32,
    ) -> (r: Result<Tex2d, RuntimeError>)
        requires
            old(self).wf(),
        ensures
            final(self).wf(),
            final(self).streams@ == old(self).streams@,
            match r {
                Ok(t) => {
                    &&& texel_supports(texel, format)
                    &&& t.format == format
                    &&& t.width == width
                    &&& t.height == height
                    &&& t.mips == mips
                    &&& t.id == old(self).resources@.len()
                    &&& final(self).resources@ == old(self).resources@.push(
                        ResourceSlot { kind: ResourceKind::Texture, handle: t.handle, alive: true },
                    )
                    &&& final(self).backend.log() == old(self).backend.log().push(
                        BackendCall::CreateTexture {
                            format,
                            dim: 2,
                            width,
                            height,
                            depth: 1,
                            mips,
                            handle: t.handle,
                        },
                    )
                },
                Err(e) => {
                    &&& final(self).backend.log() == old(self).backend.log()
                    &&& final(self).resources@ == old(self).resources@
                    &&& if !texel_supports(texel, format) {
                        e == RuntimeError::UnsupportedFormat
                    } else {
                        e == RuntimeError::AllocationFailure
                    }
                },
            },
    {
        if !texel_format_supported(texel, format) {
            return Err(RuntimeError::UnsupportedFormat);
        }
        match self.backend.create_texture(format, 2, width, height, 1, mips) {
            Ok(h) => {
                let id: usize = self.resources.len();
                self.resources.push(
                    ResourceSlot { kind: ResourceKind::Texture, handle: h, alive: true },
                );
                proof {
                    lemma_wf_create_resource(
                        *old(self),
                        *self,
                        BackendCall::CreateTexture {
                            format,
                            dim: 2,
                            width,
                            height,
                            depth: 1,
                            mips,
                            handle: h,
                        },
                        ResourceKind::Texture,
                        h,
                    );
                }
                Ok(Tex2d { id, handle: h, format, width, height, mips })
            },
            Err(e) => {
                proof {
                    lemma_wf_log_unchanged(*old(self), *self);
                }
                Err(e)
            },
        }
    }

    /// Allocates a three-dimensional texture, validating that the pixel
    /// format can hold the element type.
    pub fn create_tex3d(
        &mut self,
        texel: TexelKind,
        format: PixelFormat,
        width: u32,
        height: u32,
        depth: u32,
        mips: u32,
    ) -> (r: Result<Tex3d, RuntimeError>)
        requires
            old(self).wf(),
        ensures
            final(self).wf(),
            final(self).streams@ == old(self).streams@,
            match r {
                Ok(t) => {
                    &&& texel_supports(texel, format)
                    &&& t.format == format
                    &&& t.width == width
                    &&& t.height == height
                    &&& t.depth == depth
                    &&& t.mips == mips
                    &&& t.id == old(self).resources@.len()
                    &&& final(self).resources@ == old(self).resources@.push(
                        ResourceSlot { kind: ResourceKind::Texture, handle: t.handle, alive: true },
                    )
                    &&& final(self).backend.log() == old(self).backend.log().push(
                        BackendCall::CreateTexture {
                            format,
                            dim: 3,
                            width,
                            height,
                            depth,
                            mips,
                            handle: t.handle,
                        },
                    )
                },
                Err(e) => {
                    &&& final(self).backend.log() == old(self).backend.log()
                    &&& final(self).resources@ == old(self).resources@
                    &&& if !texel_supports(texel, format) {
                        e == RuntimeError::UnsupportedFormat
                    } else {
                        e == RuntimeError::AllocationFailure
                    }
                },
            },
    {
        if !texel_format_supported(texel, format) {
            return Err(RuntimeError::UnsupportedFormat);
        }
        match self.backend.create_texture(format, 3, width, height, depth, mips) {
            Ok(h) => {
                let id: usize = self.resources.len();
                self.resources.push(
                    ResourceSlot { kind: ResourceKind::Texture, handle: h, alive: true },
                );
                proof {
                    lemma_wf_create_resource(
                        *old(self),
                        *self,
                        BackendCall::CreateTexture {
                            format,
                            dim: 3,
                            width,
                            height,
                            depth,
                            mips,
                            handle: h,
                        },
                        ResourceKind::Texture,
                        h,
                    );
                }
                Ok(Tex3d { id, handle: h, format, width, height, depth, mips })
            },
            Err(e) => {
                proof {
                    lemma_wf_log_unchanged(*old(self), *self);
                }
                Err(e)
            },
        }
    }

    /// Allocates a bindless table with `slots` resource slots.
    pub fn create_bindless_array(&mut self, slots: usize) -> (r: Result<
        BindlessArray,
        RuntimeError,
    >)
        requires
            old(self).wf(),
        ensures
            final(self).wf(),
            final(self).streams@ == old(self).streams@,
            match r {
                Ok(a) => {
                    &&& a.slots == slots
                    &&& a.id == old(self).resources@.len()
                    &&& final(self).resources@ == old(self).resources@.push(
                        ResourceSlot { kind: ResourceKind::Bindless, handle: a.handle, alive: true },
                    )
                    &&& final(self).backend.log() == old(self).backend.log().push(
                        BackendCall::CreateBindlessArray { slots, handle: a.handle },
                    )
                },
                Err(e) => {
                    &&& e == RuntimeError::AllocationFailure
                    &&& final(self).backend.log() == old(self).backend.log()
                    &&& final(self).resources@ == old(self).resources@
                },
            },
    {
        match self.backend.create_bindless_array(slots) {
            Ok(h) => {
                let id: usize = self.resources.len();
                self.resources.push(
                    ResourceSlot { kind: ResourceKind::Bindless, handle: h, alive: true },
                );
                proof {
                    lemma_wf_create_resource(
                        *old(self),
                        *self,
                        BackendCall::CreateBindlessArray { slots, handle: h },
                        ResourceKind::Bindless,
                        h,
                    );
                }
                Ok(BindlessArray { id, handle: h, slots })
            },
            Err(e) => {
                proof {
                    lemma_wf_log_unchanged(*old(self), *self);
                }
                Err(e)
            },
        }
    }

    /// Frees the resource in slot `id` if the handle still matches a live
    /// slot of that kind; returns whether the backend memory was freed.
    fn release_resource(&mut self, id: usize, kind: ResourceKind, handle: u64) -> (destroyed: bool)
        requires
            old(self).wf(),
        ensures
            final(self).wf(),
            final(self).streams@ == old(self).streams@,
            ({
                let rs = old(self).resources@;
                if id < rs.len() && rs[id as int].alive && rs[id as int].kind == kind
                    && rs[id as int].handle == handle {
                    &&& destroyed == true
                    &&& final(self).resources@ == rs.update(
                        id as int,
                        ResourceSlot { kind, handle, alive: false },
                    )
                    &&& final(self).backend.log() == old(self).backend.log().push(
                        destroy_call(kind, handle),
                    )
                } else {
                    &&& destroyed == false
                    &&& final(self).resources@ == rs
                    &&& final(self).backend.log() == old(self).backend.log()
                }
            }),
    {
        if id >= self.resources.len() {
            return false;
        }
        let slot_handle: u64 = self.resources[id].handle;
        let slot_kind: ResourceKind = self.resources[id].kind;
        let slot_alive: bool = self.resources[id].alive;
        if !slot_alive || slot_kind != kind || slot_handle != handle {
            return false;
        }
        self.resources.set(id, ResourceSlot { kind, handle, alive: false });
        match kind {
            ResourceKind::Buffer => self.backend.destroy_buffer(handle),
            ResourceKind::Texture => self.backend.destroy_texture(handle),
            ResourceKind::Bindless => self.backend.destroy_bindless_array(handle),
        }
        proof {
            lemma_wf_destroy_resource(*old(self), *self, id as int);
        }
        true
    }

    /// Releases a buffer, freeing its backend memory exactly once.
    pub fn release_buffer(&mut self, b: Buffer) -> (destroyed: bool)
        requires
            old(self).wf(),
        ensures
            final(self).wf(),
            final(self).streams@ == old(self).streams@,
            ({
                let rs = old(self).resources@;
                if b.id < rs.len() && rs[b.id as int].alive && rs[b.id as int].kind
                    == ResourceKind::Buffer && rs[b.id as int].handle == b.handle {
                    &&& destroyed == true
                    &&& final(self).resources@ == rs.update(
                        b.id as int,
                        ResourceSlot { kind: ResourceKind::Buffer, handle: b.handle, alive: false },
                    )
                    &&& final(self).backend.log() == old(self).backend.log().push(
                        BackendCall::DestroyBuffer { handle: b.handle },
                    )
                } else {
                    &&& destroyed == false
                    &&& final(self).resources@ == rs
                    &&& final(self).backend.log() == old(self).backend.log()
                }
            }),
    {
        self.release_resource(b.id, ResourceKind::Buffer, b.handle)
    }

    /// Releases a two-dimensional texture, freeing its backend memory
    /// exactly once.
    pub fn release_tex2d(&mut self, t: Tex2d) -> (destroyed: bool)
        requires
            old(self).wf(),
        ensures
            final(self).wf(),
            final(self).streams@ == old(self).streams@,
            ({
                let rs = old(self).resources@;
                if t.id < rs.len() && rs[t.id as int].alive && rs[t.id as int].kind
                    == ResourceKind::Texture && rs[t.id as int].handle == t.handle {
                    &&& destroyed == true
                    &&& final(self).resources@ == rs.update(
                        t.id as int,
                        ResourceSlot { kind: ResourceKind::Texture, handle: t.handle, alive: false },
                    )
                    &&& final(self).backend.log() == old(self).backend.log().push(
                        BackendCall::DestroyTexture { handle: t.handle },
                    )
                } else {
                    &&& destroyed == false
                    &&& final(self).resources@ == rs
                    &&& final(self).backend.log() == old(self).backend.log()
                }
            }),
    {
        self.release_resource(t.id, ResourceKind::Texture, t.handle)
    }

    /// Releases a three-dimensional texture, freeing its backend memory
    /// exactly once.
    pub fn release_tex3d(&mut self, t: Tex3d) -> (destroyed: bool)
        requires
            old(self).wf(),
        ensures
            final(self).wf(),
            final(self).streams@ == old(self).streams@,
            ({
                let rs = old(self).resources@;
                if t.id < rs.len() && rs[t.id as int].alive && rs[t.id as int].kind
                    == ResourceKind::Texture && rs[t.id as int].handle == t.handle {
                    &&& destroyed == true
                    &&& final(self).resources@ == rs.update(
                        t.id as int,
                        ResourceSlot { kind: ResourceKind::Texture, handle: t.handle, alive: false },
                    )
                    &&& final(self).backend.log() == old(self).backend.log().push(
                        BackendCall::DestroyTexture { handle: t.handle },
                    )
                } else {
                    &&& destroyed == false
                    &&& final(self).resources@ == rs
                    &&& final(self).backend.log() == old(self).backend.log()
                }
            }),
    {
        self.release_resource(t.id, ResourceKind::Texture, t.handle)
    }

    /// Releases a bindless table, freeing its backend memory exactly once.
    pub fn release_bindless_array(&mut self, a: BindlessArray) -> (destroyed: bool)
        requires
            old(self).wf(),
        ensures
            final(self).wf(),
            final(self).streams@ == old(self).streams@,
            ({
                let rs = old(self).resources@;
                if a.id < rs.len() && rs[a.id as int].alive && rs[a.id as int].kind
                    == ResourceKind::Bindless && rs[a.id as int].handle == a.handle {
                    &&& destroyed == true
                    &&& final(self).resources@ == rs.update(
                        a.id as int,
                        ResourceSlot { kind: ResourceKind::Bindless, handle: a.handle, alive: false },
                    )
                    &&& final(self).backend.log() == old(self).backend.log().push(
                        BackendCall::DestroyBindlessArray { handle: a.handle },
                    )
                } else {
                    &&& destroyed == false
                    &&& final(self).resources@ == rs
                    &&& final(self).backend.log() == old(self).backend.log()
                }
            }),
    {
        self.release_resource(a.id, ResourceKind::Bindless, a.handle)
    }
}

impl Stream {
    /// The backend handle of this stream.
    pub fn handle(&self) -> (r: u64)
        ensures
            r == self.handle,
    {
        self.handle
    }

    /// A fresh builder bound to this stream, with no commands recorded.
    pub fn command_buffer(&self) -> (cb: CommandBuffer)
        ensures
            cb.stream_id == self.id,
            cb.stream_handle == self.handle,
            cb.commands@.len() == 0,
    {
        CommandBuffer { stream_id: self.id, stream_handle: self.handle, commands: Vec::new() }
    }

    /// Blocks until every command previously dispatched on this stream has
    /// completed.  It never flushes an uncommitted command buffer:
    /// committing and synchronizing are separate.
    pub fn synchronize<B: Backend>(&self, device: &mut Device<B>) -> (r: Result<(), RuntimeError>)
        requires
            old(device).wf(),
            old(device).stream_valid(*self),
        ensures
            final(device).wf(),
            final(device).streams@ == old(device).streams@,
            final(device).resources@ == old(device).resources@,
            match r {
                Ok(u) => final(device).backend.log() == old(device).backend.log().push(
                    BackendCall::Synchronize { stream: self.handle },
                ),
                Err(e) => e == RuntimeError::DispatchFailure && final(device).backend.log() == old(
                    device,
                ).backend.log(),
            },
    {
        let r = device.backend.synchronize(self.handle);
        proof {
            if r is Ok {
                lemma_wf_push_neutral(
                    *old(device),
                    *device,
                    BackendCall::Synchronize { stream: self.handle },
                );
            } else {
                lemma_wf_log_unchanged(*old(device), *device);
            }
        }
        r
    }
}

/// A transient, non-shared builder bound to one stream: an ordered record
/// of commands that commit submits as one atomic backend dispatch.
#[derive(Debug)]
pub struct CommandBuffer {
    pub stream_id: usize,
    pub stream_handle: u64,
    pub commands: Vec<Command>,
}

impl CommandBuffer {
    /// Appends one command to the recorded sequence.
    pub fn push(&mut self, command: Command)
        ensures
            final(self).stream_id == old(self).stream_id,
            final(self).stream_handle == old(self).stream_handle,
            final(self).commands@ == old(self).commands@.push(command),
    {
        self.commands.push(command);
    }

    /// Appends a sequence of commands in order.
    pub fn extend(&mut self, commands: Vec<Command>)
        ensures
            final(self).stream_id == old(self).stream_id,
            final(self).stream_handle == old(self).stream_handle,
            final(self).commands@ == old(self).commands@ + commands@,
    {
        let mut rest = commands;
        self.commands.append(&mut rest);
    }

    /// Submits the whole recorded sequence as one backend dispatch: on
    /// success the backend receives exactly the recorded commands, in
    /// recorded order, as a single call; on failure it receives nothing
    /// and none of the batch may be assumed to have run.
    pub fn commit<B: Backend>(self, device: &mut Device<B>) -> (r: Result<(), RuntimeError>)
        requires
            old(device).wf(),
            self.stream_id < old(device).streams@.len(),
            old(device).streams@[self.stream_id as int].alive,
            old(device).streams@[self.stream_id as int].handle == self.stream_handle,
        ensures
            final(device).wf(),
            final(device).streams@ == old(device).streams@,
            final(device).resources@ == old(device).resources@,
            match r {
                Ok(u) => final(device).backend.log() == old(device).backend.log().push(
                    BackendCall::Dispatch {
                        stream: self.stream_handle,
                        commands: cmds_model(self.commands@),
                    },
                ),
                Err(e) => e == RuntimeError::DispatchFailure && final(device).backend.log() == old(
                    device,
                ).backend.log(),
            },
    {
        let CommandBuffer { stream_id, stream_handle, commands } = self;
        let ghost cmds = commands@;
        let r = device.backend.dispatch(stream_handle, commands);
        proof {
            if r is Ok {
                lemma_wf_push_neutral(
                    *old(device),
                    *device,
                    BackendCall::Dispatch { stream: stream_handle, commands: cmds_model(cmds) },
                );
            } else {
                lemma_wf_log_unchanged(*old(device), *device);
            }
        }
        r
    }
}

/// Records the given commands on a fresh builder for the device's default
/// stream, commits them as one dispatch, and synchronizes that stream.
/// Commit and synchronization stay two separate backend calls, made in
/// that order; an error from either is returned and ends the sequence.
pub fn submit_default_stream_and_sync<B: Backend>(
    device: &mut Device<B>,
    commands: Vec<Command>,
) -> (r: Result<(), RuntimeError>)
    requires
        old(device).wf(),
    ensures
        final(device).wf(),
        final(device).streams@ == old(device).streams@,
        final(device).resources@ == old(device).resources@,
        ({
            let h = old(device).streams@[0].handle;
            let dispatched = old(device).backend.log().push(
                BackendCall::Dispatch { stream: h, commands: cmds_model(commands@) },
            );
            match r {
                Ok(u) => final(device).backend.log() == dispatched.push(
                    BackendCall::Synchronize { stream: h },
                ),
                Err(e) => e == RuntimeError::DispatchFailure && (final(device).backend.log() == old(
                    device,
                ).backend.log() || final(device).backend.log() == dispatched),
            }
        }),
{
    let h: u64 = device.streams[0].handle;
    let default_stream = Stream { id: 0, handle: h };
    let mut cmd_buffer = default_stream.command_buffer();
    cmd_buffer.extend(commands);
    proof {
        assert(cmd_buffer.commands@ =~= commands@);
    }
    match cmd_buffer.commit(device) {
        Ok(u) => default_stream.synchronize(device),
        Err(e) => Err(e),
    }
}

/// Resource lifetime, streams: while the device is alive, a live stream
/// slot's backend handle has never been freed, and a dead one's has been
/// freed exactly once — by the release of its last reference.
pub proof fn stream_freed_exactly_once<B: Backend>(d: Device<B>, i: int)
    requires
        d.wf(),
        0 <= i < d.streams@.len(),
    ensures
        destroy_stream_count(d.backend.log(), d.streams@[i].handle) == if d.streams@[i].alive {
            0nat
        } else {
            1nat
        },
{
}

/// Resource lifetime, default stream: while the device is alive, the
/// default stream's backend handle is never freed.
pub proof fn default_stream_never_freed<B: Backend>(d: Device<B>)
    requires
        d.wf(),
    ensures
        destroy_stream_count(d.backend.log(), d.streams@[0].handle) == 0,
{
}

/// Resource lifetime, memory: a live resource slot's backend memory has
/// never been freed, and a dead one's has been freed exactly once — by the
/// release of its owning handle.
pub proof fn resource_freed_exactly_once<B: Backend>(d: Device<B>, i: int)
    requires
        d.wf(),
        0 <= i < d.resources@.len(),
    ensures
        destroy_resource_count(d.backend.log(), d.resources@[i].kind, d.resources@[i].handle)
            == if d.resources@[i].alive {
            0nat
        } else {
            1nat
        },
{
}

} // verus!
