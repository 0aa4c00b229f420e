use simt_autodiff::backend::{Backend, CallRecord, ModelBackend, PixelFormat, RuntimeError};
use simt_autodiff::command::{Command, CommandKind};
use simt_autodiff::runtime::{submit_default_stream_and_sync, Device, TexelKind};

fn new_device() -> Device<ModelBackend> {
    Device::new(ModelBackend::new()).unwrap()
}

fn copy_cmd(src: u64, dst: u64, byte_size: u64) -> Command {
    Command { kind: CommandKind::BufferCopy { src, dst, byte_size }, resources: vec![src, dst] }
}

#[test]
fn device_creation_makes_default_stream() {
    let d = new_device();
    assert_eq!(d.backend.record.len(), 1);
    match &d.backend.record[0] {
        CallRecord::CreateStream { .. } => {}
        other => panic!("unexpected call: {:?}", other),
    }
    assert_eq!(d.streams.len(), 1);
    assert!(d.streams[0].alive);
}

#[test]
fn commit_is_one_dispatch_with_all_commands_in_order() {
    // A command buffer with N recorded commands commits as a single
    // backend dispatch receiving exactly those N commands in recorded
    // order.
    let mut d = new_device();
    let s = d.default_stream().unwrap();
    let mut cb = s.command_buffer();
    let mut expected = Vec::new();
    for i in 0..5u64 {
        cb.push(copy_cmd(100 + i, 200 + i, 64 * (i + 1)));
        expected.push(copy_cmd(100 + i, 200 + i, 64 * (i + 1)));
    }
    let calls_before = d.backend.record.len();
    cb.commit(&mut d).unwrap();
    assert_eq!(d.backend.record.len(), calls_before + 1);
    match d.backend.record.last().unwrap() {
        CallRecord::Dispatch { stream, commands } => {
            assert_eq!(*stream, s.handle());
            assert_eq!(commands, &expected);
        }
        other => panic!("unexpected call: {:?}", other),
    }
}

#[test]
fn commit_failure_dispatches_nothing() {
    let mut d = Device::new(ModelBackend::new()).unwrap();
    d.backend.fail_dispatch = true;
    let s = d.default_stream().unwrap();
    let mut cb = s.command_buffer();
    cb.push(copy_cmd(1, 2, 8));
    let calls_before = d.backend.record.len();
    assert_eq!(cb.commit(&mut d), Err(RuntimeError::DispatchFailure));
    assert_eq!(d.backend.record.len(), calls_before);
}

#[test]
fn last_reference_release_destroys_stream_once() {
    // Destroying the last reference to a non-default stream triggers
    // exactly one backend destroy call.
    let mut d = new_device();
    let s = d.create_stream().unwrap();
    let h = s.handle();
    let s2 = d.clone_stream(&s).unwrap();
    let s3 = d.clone_stream(&s).unwrap();
    assert!(!d.release_stream(s2));
    assert!(!d.release_stream(s3));
    assert_eq!(destroy_count(&d.backend, h), 0);
    assert!(d.release_stream(s));
    assert_eq!(destroy_count(&d.backend, h), 1);
    // a stale reference to the dead slot is a no-op
    let stale = simt_autodiff::runtime::Stream { id: 1, handle: h };
    assert!(!d.release_stream(stale));
    assert_eq!(destroy_count(&d.backend, h), 1);
}

fn destroy_count(b: &ModelBackend, h: u64) -> usize {
    let mut n = 0;
    for c in b.record.iter() {
        if let CallRecord::DestroyStream { handle } = c {
            if *handle == h {
                n += 1;
            }
        }
    }
    n
}

#[test]
fn default_stream_never_destroyed_while_device_lives() {
    let mut d = new_device();
    let h = d.streams[0].handle;
    let s = d.default_stream().unwrap();
    let s2 = d.default_stream().unwrap();
    assert!(!d.release_stream(s));
    assert!(!d.release_stream(s2));
    assert_eq!(destroy_count(&d.backend, h), 0);
    // shutting the device down releases the default stream, exactly once
    let b = d.shutdown();
    assert_eq!(destroy_count(&b, h), 1);
}

#[test]
fn buffer_lifecycle() {
    let mut d = new_device();
    let b = d.create_buffer(4, 1024).unwrap();
    assert_eq!(b.len, 1024);
    assert_eq!(b.elem_size, 4);
    match &d.backend.record[1] {
        CallRecord::CreateBuffer { byte_size, handle } => {
            assert_eq!(*byte_size, 4096);
            assert_eq!(*handle, b.handle);
        }
        other => panic!("unexpected call: {:?}", other),
    }
    let h = b.handle;
    assert!(d.release_buffer(b));
    match d.backend.record.last().unwrap() {
        CallRecord::DestroyBuffer { handle } => assert_eq!(*handle, h),
        other => panic!("unexpected call: {:?}", other),
    }
    // releasing a forged handle to the now-dead slot is a no-op
    let stale = simt_autodiff::runtime::Buffer { id: 0, handle: h, len: 1024, elem_size: 4 };
    let calls = d.backend.record.len();
    assert!(!d.release_buffer(stale));
    assert_eq!(d.backend.record.len(), calls);
}

#[test]
fn buffer_byte_size_overflow_fails() {
    let mut d = new_device();
    let r = d.create_buffer(usize::MAX, 2);
    assert_eq!(r.unwrap_err(), RuntimeError::AllocationFailure);
    assert_eq!(d.backend.record.len(), 1);
}

#[test]
fn texture_format_validation() {
    let mut d = new_device();
    let r = d.create_tex2d(TexelKind::U8, PixelFormat::Rgba8Unorm, 16, 16, 1);
    assert_eq!(r.unwrap_err(), RuntimeError::UnsupportedFormat);
    assert_eq!(d.backend.record.len(), 1);
    let t = d.create_tex2d(TexelKind::U8x4, PixelFormat::Rgba8Unorm, 16, 16, 1).unwrap();
    match d.backend.record.last().unwrap() {
        CallRecord::CreateTexture { format, dim, width, height, depth, mips, handle } => {
            assert_eq!(*format, PixelFormat::Rgba8Unorm);
            assert_eq!(*dim, 2);
            assert_eq!(*width, 16);
            assert_eq!(*height, 16);
            assert_eq!(*depth, 1);
            assert_eq!(*mips, 1);
            assert_eq!(*handle, t.handle);
        }
        other => panic!("unexpected call: {:?}", other),
    }
    let t3 = d.create_tex3d(TexelKind::U32, PixelFormat::R32Uint, 8, 8, 8, 3).unwrap();
    match d.backend.record.last().unwrap() {
        CallRecord::CreateTexture { dim, depth, handle, .. } => {
            assert_eq!(*dim, 3);
            assert_eq!(*depth, 8);
            assert_eq!(*handle, t3.handle);
        }
        other => panic!("unexpected call: {:?}", other),
    }
    assert!(d.release_tex2d(t));
    assert!(d.release_tex3d(t3));
}

#[test]
fn bindless_array_lifecycle() {
    let mut d = new_device();
    let a = d.create_bindless_array(64).unwrap();
    assert_eq!(a.slots, 64);
    let h = a.handle;
    assert!(d.release_bindless_array(a));
    match d.backend.record.last().unwrap() {
        CallRecord::DestroyBindlessArray { handle } => assert_eq!(*handle, h),
        other => panic!("unexpected call: {:?}", other),
    }
}

#[test]
fn allocation_quota_exhausts() {
    // The first creation (the default stream) consumes one unit.
    let mut d = Device::new(ModelBackend::with_quota(2)).unwrap();
    let b = d.create_buffer(4, 16).unwrap();
    assert_eq!(d.create_buffer(4, 16).unwrap_err(), RuntimeError::AllocationFailure);
    assert_eq!(d.create_stream().unwrap_err(), RuntimeError::AllocationFailure);
    assert!(d.release_buffer(b));
}

#[test]
fn handles_are_distinct() {
    let mut d = new_device();
    let b1 = d.create_buffer(4, 1).unwrap();
    let b2 = d.create_buffer(4, 1).unwrap();
    let s = d.create_stream().unwrap();
    let t = d.create_tex2d(TexelKind::U8, PixelFormat::R8Unorm, 4, 4, 1).unwrap();
    let hs = [d.streams[0].handle, b1.handle, b2.handle, s.handle(), t.handle];
    for i in 0..hs.len() {
        for j in 0..i {
            assert_ne!(hs[i], hs[j]);
        }
    }
}

#[test]
fn synchronize_after_commit() {
    let mut d = new_device();
    let s = d.default_stream().unwrap();
    let mut cb = s.command_buffer();
    cb.push(copy_cmd(7, 8, 16));
    cb.commit(&mut d).unwrap();
    s.synchronize(&mut d).unwrap();
    let n = d.backend.record.len();
    match &d.backend.record[n - 1] {
        CallRecord::Synchronize { stream } => assert_eq!(*stream, s.handle()),
        other => panic!("unexpected call: {:?}", other),
    }
    match &d.backend.record[n - 2] {
        CallRecord::Dispatch { .. } => {}
        other => panic!("unexpected call: {:?}", other),
    }
}

#[test]
fn submit_and_sync_bundles_commit_then_sync() {
    let mut d = new_device();
    let cmds = vec![copy_cmd(1, 2, 4), copy_cmd(3, 4, 8)];
    submit_default_stream_and_sync(&mut d, cmds).unwrap();
    let n = d.backend.record.len();
    assert_eq!(n, 3);
    match &d.backend.record[1] {
        CallRecord::Dispatch { stream, commands } => {
            assert_eq!(*stream, d.streams[0].handle);
            assert_eq!(commands.len(), 2);
        }
        other => panic!("unexpected call: {:?}", other),
    }
    match &d.backend.record[2] {
        CallRecord::Synchronize { stream } => assert_eq!(*stream, d.streams[0].handle),
        other => panic!("unexpected call: {:?}", other),
    }
}

#[test]
fn failed_submit_leaves_no_partial_batch() {
    let mut d = Device::new(ModelBackend::new()).unwrap();
    d.backend.fail_dispatch = true;
    let cmds = vec![copy_cmd(1, 2, 4)];
    assert_eq!(
        submit_default_stream_and_sync(&mut d, cmds),
        Err(RuntimeError::DispatchFailure)
    );
    assert_eq!(d.backend.record.len(), 1);
}
