use v4l2_decoder::buffer::{BufferState, MemoryType, PlaneHandle, QueryBuffer};
use v4l2_decoder::device::{BufferCapabilities, Device, QueueDescription, QueueType};
use v4l2_decoder::format::{Format, FormatDesc, FormatFlags, PixelFormat};
use v4l2_decoder::queue::{
    BufferStateFuse, CreateQueueError, DqBufReply, DQBufError, GetFreeBufferError, Queue,
    RequestBuffersError, TryGetBufferError,
};

fn desc() -> QueueDescription {
    QueueDescription {
        capabilities: BufferCapabilities(0x2),
        formats: vec![FormatDesc { pixelformat: PixelFormat(0x3231564e), flags: FormatFlags(0) }],
        current_format: Format { width: 640, height: 480, pixelformat: PixelFormat(0x3231564e) },
    }
}

fn features(n: usize) -> Vec<QueryBuffer> {
    (0..n).map(|i| QueryBuffer { index: i, num_planes: 1 }).collect()
}

fn userptr(byte: u8) -> Vec<PlaneHandle> {
    vec![PlaneHandle::UserPtr(vec![byte; 8])]
}

fn dqbuf(index: usize, bytesused: u32, flags: u32) -> v4l2_decoder::buffer::DqBufData {
    v4l2_decoder::buffer::DqBufData {
        index,
        flags: v4l2_decoder::buffer::BufferFlags(flags),
        planes: vec![v4l2_decoder::buffer::PlaneData { bytesused }],
    }
}

#[test]
fn queue_type_borrowed_at_most_once() {
    let mut device = Device::new();
    let first = Queue::get_output_mplane_queue(&mut device, Ok(desc()));
    assert!(first.is_ok());
    let second = Queue::get_output_mplane_queue(&mut device, Ok(desc()));
    assert!(matches!(second, Err(CreateQueueError::AlreadyBorrowed)));
    // Releasing the first borrow makes the type available again.
    first.unwrap().release(&mut device);
    let third = Queue::get_output_mplane_queue(&mut device, Ok(desc()));
    assert!(third.is_ok());
}

#[test]
fn queue_create_reports_probe_error() {
    let mut device = Device::new();
    let r = Queue::get_capture_mplane_queue(&mut device, Err(19));
    assert!(matches!(r, Err(CreateQueueError::ReqbufsError(19))));
    // The registry was not touched: the type can still be obtained.
    assert!(Queue::get_capture_mplane_queue(&mut device, Ok(desc())).is_ok());
}

#[test]
fn queue_reports_probed_values() {
    let mut device = Device::new();
    let q = Queue::get_capture_queue(&mut device, Ok(desc())).unwrap();
    assert_eq!(q.get_type(), QueueType::VideoCapture);
    assert_eq!(q.get_capabilities(), BufferCapabilities(0x2));
    assert_eq!(q.get_format().width, 640);
    assert_eq!(q.format_iter().len(), 1);
}

#[test]
fn allocate_then_free_returns_to_initial_state() {
    let mut device = Device::new();
    let q = Queue::get_output_mplane_queue(&mut device, Ok(desc())).unwrap();
    let caps_before = q.get_capabilities();
    let format_before = q.get_format();
    let q = q.request_buffers(MemoryType::UserPtr, 4, Ok(features(4))).unwrap();
    assert_eq!(q.num_buffers(), 4);
    assert_eq!(q.num_queued_buffers(), 0);
    let q = q.free_buffers(Ok(())).unwrap();
    assert_eq!(q.get_capabilities(), caps_before);
    assert_eq!(q.get_format(), format_before);
}

#[test]
fn reserve_then_abandon_leaves_states_unchanged() {
    let mut device = Device::new();
    let q = Queue::get_output_mplane_queue(&mut device, Ok(desc())).unwrap();
    let mut q = q.request_buffers(MemoryType::UserPtr, 2, Ok(features(2))).unwrap();
    let b = q.try_get_free_buffer().unwrap();
    assert_eq!(b.index(), 0);
    assert!(matches!(q.buffer_state(0), BufferState::PreQueue));
    b.abandon(&mut q);
    assert!(matches!(q.buffer_state(0), BufferState::Free));
    assert!(matches!(q.buffer_state(1), BufferState::Free));
    assert_eq!(q.num_queued_buffers(), 0);
}

#[test]
fn stream_cycle_on_all_free_queue_cancels_nothing() {
    let mut device = Device::new();
    let q = Queue::get_output_mplane_queue(&mut device, Ok(desc())).unwrap();
    let mut q = q.request_buffers(MemoryType::UserPtr, 3, Ok(features(3))).unwrap();
    q.stream_on(Ok(())).unwrap();
    let canceled = q.stream_off(Ok(())).unwrap();
    assert!(canceled.is_empty());
    for i in 0..3 {
        assert!(matches!(q.buffer_state(i), BufferState::Free));
    }
    assert_eq!(q.num_queued_buffers(), 0);
}

#[test]
fn stream_off_cancels_queued_buffers_lowest_index_first() {
    let mut device = Device::new();
    let q = Queue::get_output_mplane_queue(&mut device, Ok(desc())).unwrap();
    let mut q = q.request_buffers(MemoryType::UserPtr, 3, Ok(features(3))).unwrap();
    for byte in 0..3u8 {
        let b = q.try_get_free_buffer().unwrap();
        b.queue_with_handles(&mut q, userptr(byte), Ok(())).unwrap();
    }
    assert_eq!(q.num_queued_buffers(), 3);
    let canceled = q.stream_off(Ok(())).unwrap();
    assert_eq!(canceled.len(), 3);
    for (i, c) in canceled.iter().enumerate() {
        assert_eq!(c.index, i as u32);
        assert_eq!(c.plane_handles, userptr(i as u8));
    }
    assert_eq!(q.num_queued_buffers(), 0);
}

#[test]
fn queued_counter_matches_queued_states() {
    let mut device = Device::new();
    let q = Queue::get_output_mplane_queue(&mut device, Ok(desc())).unwrap();
    let mut q = q.request_buffers(MemoryType::UserPtr, 4, Ok(features(4))).unwrap();
    for byte in 0..3u8 {
        let b = q.try_get_free_buffer().unwrap();
        b.queue_with_handles(&mut q, userptr(byte), Ok(())).unwrap();
    }
    let queued = (0..4).filter(|i| matches!(q.buffer_state(*i), BufferState::Queued(_))).count();
    assert_eq!(q.num_queued_buffers(), queued);
    let reply = DqBufReply::Dequeued(dqbuf(1, 32, 0));
    let buf = q.try_dequeue(reply).unwrap();
    let queued = (0..4).filter(|i| matches!(q.buffer_state(*i), BufferState::Queued(_))).count();
    assert_eq!(q.num_queued_buffers(), queued);
    buf.release(&mut q);
    assert!(matches!(q.buffer_state(1), BufferState::Free));
}

#[test]
fn buffer_is_in_exactly_one_state() {
    let mut device = Device::new();
    let q = Queue::get_output_mplane_queue(&mut device, Ok(desc())).unwrap();
    let mut q = q.request_buffers(MemoryType::UserPtr, 2, Ok(features(2))).unwrap();
    let b = q.try_get_buffer(0).unwrap();
    b.queue_with_handles(&mut q, userptr(7), Ok(())).unwrap();
    // Slot 0 is queued and nothing else; slot 1 is free and nothing else.
    match q.buffer_state(0) {
        BufferState::Queued(h) => assert_eq!(h.len(), 1),
        other => panic!("slot 0 in unexpected state {:?}", other),
    }
    assert!(matches!(q.buffer_state(1), BufferState::Free));
}

#[test]
fn free_buffers_have_no_handles_queued_have_plane_count() {
    let mut device = Device::new();
    let q = Queue::get_output_mplane_queue(&mut device, Ok(desc())).unwrap();
    let mut q = q.request_buffers(MemoryType::UserPtr, 2, Ok(features(2))).unwrap();
    match q.buffer_state(0) {
        BufferState::Free => (),
        other => panic!("fresh slot not free: {:?}", other),
    }
    let b = q.try_get_buffer(1).unwrap();
    assert_eq!(b.num_planes(), 1);
    b.queue_with_handles(&mut q, userptr(9), Ok(())).unwrap();
    match q.buffer_state(1) {
        BufferState::Queued(h) => assert_eq!(h.len(), 1),
        other => panic!("submitted slot not queued: {:?}", other),
    }
    // A dequeued buffer carries exactly its plane count of handles.
    let mut buf = q.try_dequeue(DqBufReply::Dequeued(dqbuf(1, 16, 0))).unwrap();
    let handles = buf.take_handles().unwrap();
    assert_eq!(handles.len(), 1);
    assert_eq!(handles, userptr(9));
    buf.release(&mut q);
}

#[test]
fn try_get_buffer_errors() {
    let mut device = Device::new();
    let q = Queue::get_output_mplane_queue(&mut device, Ok(desc())).unwrap();
    let mut q = q.request_buffers(MemoryType::UserPtr, 1, Ok(features(1))).unwrap();
    assert!(matches!(q.try_get_buffer(5), Err(TryGetBufferError::InvalidIndex(5))));
    let b = q.try_get_buffer(0).unwrap();
    assert!(matches!(q.try_get_buffer(0), Err(TryGetBufferError::AlreadyUsed)));
    b.abandon(&mut q);
    assert!(q.try_get_buffer(0).is_ok());
}

#[test]
fn no_free_buffer_error() {
    let mut device = Device::new();
    let q = Queue::get_output_mplane_queue(&mut device, Ok(desc())).unwrap();
    let mut q = q.request_buffers(MemoryType::UserPtr, 1, Ok(features(1))).unwrap();
    let b = q.try_get_free_buffer().unwrap();
    assert!(matches!(q.try_get_free_buffer(), Err(GetFreeBufferError::NoFreeBuffer)));
    b.abandon(&mut q);
}

#[test]
fn submit_failure_returns_handles_and_frees_slot() {
    let mut device = Device::new();
    let q = Queue::get_output_mplane_queue(&mut device, Ok(desc())).unwrap();
    let mut q = q.request_buffers(MemoryType::UserPtr, 1, Ok(features(1))).unwrap();
    let b = q.try_get_free_buffer().unwrap();
    let err = b.queue_with_handles(&mut q, userptr(3), Err(22)).unwrap_err();
    assert_eq!(err.errno, 22);
    assert_eq!(err.plane_handles, userptr(3));
    assert!(matches!(q.buffer_state(0), BufferState::Free));
    assert_eq!(q.num_queued_buffers(), 0);
}

#[test]
fn dequeue_passthrough_errors() {
    let mut device = Device::new();
    let q = Queue::get_output_mplane_queue(&mut device, Ok(desc())).unwrap();
    let mut q = q.request_buffers(MemoryType::UserPtr, 1, Ok(features(1))).unwrap();
    assert!(matches!(q.try_dequeue(DqBufReply::NotReady), Err(DQBufError::NotReady)));
    assert!(matches!(q.try_dequeue(DqBufReply::Eos), Err(DQBufError::Eos)));
    assert!(matches!(q.try_dequeue(DqBufReply::IoctlError(5)), Err(DQBufError::IoctlError(5))));
}

#[test]
fn corrupted_dequeue_still_carries_the_buffer() {
    let mut device = Device::new();
    let q = Queue::get_output_mplane_queue(&mut device, Ok(desc())).unwrap();
    let mut q = q.request_buffers(MemoryType::UserPtr, 1, Ok(features(1))).unwrap();
    let b = q.try_get_free_buffer().unwrap();
    b.queue_with_handles(&mut q, userptr(1), Ok(())).unwrap();
    let r = q.try_dequeue(DqBufReply::CorruptedBuffer(dqbuf(0, 64, 0x40)));
    match r {
        Err(DQBufError::CorruptedBuffer(mut buf)) => {
            assert_eq!(buf.data().index, 0);
            assert_eq!(buf.take_handles().unwrap(), userptr(1));
            buf.release(&mut q);
        },
        other => panic!("expected corrupted buffer, got {:?}", other),
    }
    assert!(matches!(q.buffer_state(0), BufferState::Free));
    assert_eq!(q.num_queued_buffers(), 0);
}

#[test]
fn stale_fuse_is_inert_after_reallocation() {
    let mut device = Device::new();
    let q = Queue::get_output_mplane_queue(&mut device, Ok(desc())).unwrap();
    let mut q = q.request_buffers(MemoryType::UserPtr, 1, Ok(features(1))).unwrap();
    let b = q.try_get_free_buffer().unwrap();
    b.queue_with_handles(&mut q, userptr(2), Ok(())).unwrap();
    let buf = q.try_dequeue(DqBufReply::Dequeued(dqbuf(0, 8, 0))).unwrap();
    // Tear the allocation down while the dequeued handle is outstanding,
    // then allocate afresh.
    let q = q.free_buffers(Ok(())).unwrap();
    let mut q = q.request_buffers(MemoryType::UserPtr, 2, Ok(features(2))).unwrap();
    let b1 = q.try_get_buffer(0).unwrap();
    b1.queue_with_handles(&mut q, userptr(5), Ok(())).unwrap();
    // Releasing the stale handle must not touch the new allocation.
    buf.release(&mut q);
    assert!(matches!(q.buffer_state(0), BufferState::Queued(_)));
    assert_eq!(q.num_queued_buffers(), 1);
}

#[test]
fn disarmed_fuse_is_inert() {
    let mut device = Device::new();
    let q = Queue::get_output_mplane_queue(&mut device, Ok(desc())).unwrap();
    let mut q = q.request_buffers(MemoryType::UserPtr, 1, Ok(features(1))).unwrap();
    let b = q.try_get_free_buffer().unwrap();
    b.queue_with_handles(&mut q, userptr(4), Ok(())).unwrap();
    // A fuse pointing past the table is a no-op as well.
    let mut out_of_range = BufferStateFuse::new(9, 1);
    out_of_range.trigger(&mut q);
    assert!(matches!(q.buffer_state(0), BufferState::Queued(_)));
    let mut disarmed = BufferStateFuse::new(0, 99);
    disarmed.disarm();
    disarmed.trigger(&mut q);
    assert!(matches!(q.buffer_state(0), BufferState::Queued(_)));
    assert_eq!(q.num_queued_buffers(), 1);
}

#[test]
fn format_builder_round_trip() {
    let mut device = Device::new();
    let mut q = Queue::get_output_mplane_queue(&mut device, Ok(desc())).unwrap();
    let builder = q.change_format();
    assert_eq!(builder.format().width, 640);
    let builder = builder.set_size(1920, 1080).set_pixelformat(PixelFormat(0x34363248));
    let wanted = *builder.format();
    assert_eq!(wanted.width, 1920);
    assert_eq!(wanted.height, 1080);
    let applied = builder.apply(&mut q, Ok(wanted)).unwrap();
    assert_eq!(applied, wanted);
    assert_eq!(q.get_format(), wanted);
}

#[test]
fn format_builder_try_apply_takes_adjustment() {
    let mut device = Device::new();
    let q = Queue::get_capture_mplane_queue(&mut device, Ok(desc())).unwrap();
    let mut builder = q.change_format().set_size(1921, 1081);
    let adjusted = Format { width: 1920, height: 1080, pixelformat: builder.format().pixelformat };
    builder.try_apply(Ok(adjusted)).unwrap();
    assert_eq!(*builder.format(), adjusted);
    let mut failing = q.change_format();
    let e = failing.try_apply(Err(22)).unwrap_err();
    assert_eq!(e, v4l2_decoder::queue::TryFmtError(22));
}

#[test]
fn set_format_error_leaves_format_unchanged() {
    let mut device = Device::new();
    let mut q = Queue::get_output_mplane_queue(&mut device, Ok(desc())).unwrap();
    let before = q.get_format();
    let wanted = Format { width: 1280, height: 720, pixelformat: PixelFormat(1) };
    let e = q.set_format(wanted, Err(22)).unwrap_err();
    assert_eq!(e, v4l2_decoder::queue::SFmtError(22));
    assert_eq!(q.get_format(), before);
}

#[test]
fn request_buffers_error_is_reported() {
    let mut device = Device::new();
    let q = Queue::get_output_mplane_queue(&mut device, Ok(desc())).unwrap();
    let r = q.request_buffers(
        MemoryType::UserPtr,
        4,
        Err(RequestBuffersError::ReqbufsError(12)),
    );
    assert!(matches!(r, Err(RequestBuffersError::ReqbufsError(12))));
}
