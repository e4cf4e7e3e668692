use v4l2_decoder::buffer::{
    BufferFlags, DqBufData, PlaneData, PlaneHandle, QueryBuffer, BUFFER_FLAG_ERROR,
    BUFFER_FLAG_LAST,
};
use v4l2_decoder::decoder::{Decoder, DecoderOpenError, GetBufferError, StartDecoderError};
use v4l2_decoder::device::{BufferCapabilities, QueueDescription, BUFFER_CAP_SUPPORTS_REQUESTS};
use v4l2_decoder::format::{Format, FormatDesc, FormatFlags, PixelFormat, FORMAT_FLAG_COMPRESSED};
use v4l2_decoder::poller::{DeviceEvent, PollEvents};
use v4l2_decoder::queue::{CreateQueueError, DqBufReply, RequestBuffersError};
use v4l2_decoder::worker::{
    DecoderThread, Event, ProcessEventsError, ResolutionChangeIo, SrcChanges, UpdateCaptureError,
    SRC_CHANGE_RESOLUTION,
};

const H264: PixelFormat = PixelFormat(0x3436_3248);
const NV12: PixelFormat = PixelFormat(0x3231_564e);

fn output_description() -> QueueDescription {
    QueueDescription {
        capabilities: BufferCapabilities(0),
        formats: vec![FormatDesc { pixelformat: H264, flags: FormatFlags(FORMAT_FLAG_COMPRESSED) }],
        current_format: Format { width: 0, height: 0, pixelformat: H264 },
    }
}

fn capture_description() -> QueueDescription {
    QueueDescription {
        capabilities: BufferCapabilities(0),
        formats: vec![FormatDesc { pixelformat: NV12, flags: FormatFlags(0) }],
        current_format: Format { width: 0, height: 0, pixelformat: NV12 },
    }
}

fn features(n: usize) -> Vec<QueryBuffer> {
    (0..n).map(|i| QueryBuffer { index: i, num_planes: 1 }).collect()
}

fn userptr(byte: u8) -> Vec<PlaneHandle> {
    vec![PlaneHandle::UserPtr(vec![byte; 16])]
}

fn dqbuf(index: usize, bytesused: u32, flags: u32) -> DqBufData {
    DqBufData { index, flags: BufferFlags(flags), planes: vec![PlaneData { bytesused }] }
}

fn output_ready() -> PollEvents {
    PollEvents { device_event: false, device_capture: false, device_output: true, waker: false }
}

fn resolution_event() -> Result<Event, i32> {
    Ok(Event::SrcChangeEvent(SrcChanges(SRC_CHANGE_RESOLUTION)))
}

fn resolution_io(width: u32, height: u32, buffers: usize) -> ResolutionChangeIo {
    let chosen = Format { width, height, pixelformat: NV12 };
    ResolutionChangeIo {
        streamoff: Ok(()),
        free: Ok(()),
        gfmt: Ok(chosen),
        chosen,
        sfmt: Ok(chosen),
        reqbufs: Ok(features(buffers)),
        streamon: Ok(()),
        qbuf: vec![Ok(()); buffers],
    }
}

fn opened() -> Decoder<v4l2_decoder::decoder::AwaitingOutputFormat> {
    Decoder::open(Ok(()), Ok(output_description()), Ok(capture_description())).unwrap()
}

fn running(
    num_buffers: usize,
) -> (Decoder<v4l2_decoder::decoder::Decoding>, DecoderThread) {
    let format = Format { width: 1920, height: 1080, pixelformat: H264 };
    let decoder = opened().set_output_format(format, Ok(format)).unwrap();
    let decoder = decoder.allocate_output_buffers(num_buffers, Ok(features(num_buffers))).unwrap();
    decoder.start(Ok(()), Ok(())).unwrap()
}

#[test]
fn reject_non_decoder() {
    // The OUTPUT queue lists no compressed format.
    let mut bad_output = output_description();
    bad_output.formats = vec![FormatDesc { pixelformat: NV12, flags: FormatFlags(0) }];
    let r = Decoder::open(Ok(()), Ok(bad_output), Ok(capture_description()));
    assert!(matches!(r, Err(DecoderOpenError::NotAStatefulDecoder)));
}

#[test]
fn reject_decoder_without_raw_capture() {
    // The CAPTURE queue lists only compressed formats.
    let mut bad_capture = capture_description();
    bad_capture.formats =
        vec![FormatDesc { pixelformat: H264, flags: FormatFlags(FORMAT_FLAG_COMPRESSED) }];
    let r = Decoder::open(Ok(()), Ok(output_description()), Ok(bad_capture));
    assert!(matches!(r, Err(DecoderOpenError::NotAStatefulDecoder)));
}

#[test]
fn reject_stateless_decoder() {
    let mut stateless = output_description();
    stateless.capabilities = BufferCapabilities(BUFFER_CAP_SUPPORTS_REQUESTS);
    let r = Decoder::open(Ok(()), Ok(stateless), Ok(capture_description()));
    assert!(matches!(r, Err(DecoderOpenError::NotAStatefulDecoder)));
}

#[test]
fn open_reports_device_error() {
    let r = Decoder::open(Err(13), Ok(output_description()), Ok(capture_description()));
    assert!(matches!(r, Err(DecoderOpenError::DeviceOpenError(13))));
}

#[test]
fn open_reports_queue_probe_error() {
    let r = Decoder::open(Ok(()), Ok(output_description()), Err(25));
    assert!(matches!(
        r,
        Err(DecoderOpenError::CreateQueueError(CreateQueueError::ReqbufsError(25)))
    ));
}

#[test]
fn set_output_format_takes_driver_adjustment() {
    let wanted = Format { width: 1921, height: 1081, pixelformat: H264 };
    let adjusted = Format { width: 1920, height: 1080, pixelformat: H264 };
    let decoder = opened().set_output_format(wanted, Ok(adjusted)).unwrap();
    let decoder = decoder.allocate_output_buffers(2, Ok(features(2))).unwrap();
    let (decoder, _worker) = decoder.start(Ok(()), Ok(())).unwrap();
    assert_eq!(decoder.get_output_format(), adjusted);
}

#[test]
fn set_output_format_error() {
    let wanted = Format { width: 16, height: 16, pixelformat: H264 };
    let r = opened().set_output_format(wanted, Err(22));
    assert!(matches!(r, Err(v4l2_decoder::queue::SFmtError(22))));
}

#[test]
fn allocate_output_buffers_takes_driver_count() {
    let format = Format { width: 1920, height: 1080, pixelformat: H264 };
    let decoder = opened().set_output_format(format, Ok(format)).unwrap();
    // The driver grants 3 buffers although 4 were asked for.
    let decoder = decoder.allocate_output_buffers(4, Ok(features(3))).unwrap();
    let (decoder, _worker) = decoder.start(Ok(()), Ok(())).unwrap();
    assert_eq!(decoder.num_output_buffers(), 3);
}

#[test]
fn allocate_output_buffers_error() {
    let format = Format { width: 1920, height: 1080, pixelformat: H264 };
    let decoder = opened().set_output_format(format, Ok(format)).unwrap();
    let r = decoder.allocate_output_buffers(4, Err(RequestBuffersError::QueryBufferError(3)));
    assert!(matches!(r, Err(RequestBuffersError::QueryBufferError(3))));
}

#[test]
fn start_reports_subscription_error() {
    let format = Format { width: 1920, height: 1080, pixelformat: H264 };
    let decoder = opened().set_output_format(format, Ok(format)).unwrap();
    let decoder = decoder.allocate_output_buffers(2, Ok(features(2))).unwrap();
    let r = decoder.start(Err(7), Ok(()));
    assert!(matches!(r, Err(StartDecoderError::SubscribeEventError(7))));
}

#[test]
fn start_reports_stream_on_error() {
    let format = Format { width: 1920, height: 1080, pixelformat: H264 };
    let decoder = opened().set_output_format(format, Ok(format)).unwrap();
    let decoder = decoder.allocate_output_buffers(2, Ok(features(2))).unwrap();
    let r = decoder.start(Ok(()), Err(16));
    assert!(matches!(
        r,
        Err(StartDecoderError::StreamOnError(v4l2_decoder::queue::StreamOnError(16)))
    ));
}

#[test]
fn stop_reports_command_error() {
    let (decoder, worker) = running(2);
    let worker = worker
        .process_events(&vec![resolution_event()], vec![resolution_io(1920, 1080, 4)])
        .unwrap();
    let r = decoder.stop(worker, Err(9), Ok(()));
    assert!(matches!(r, Err(v4l2_decoder::decoder::DecoderCmdError(9))));
}

#[test]
fn poll_counter_counts_wakeups() {
    let format = Format { width: 1920, height: 1080, pixelformat: H264 };
    let decoder = opened().set_output_format(format, Ok(format)).unwrap();
    let decoder = decoder.allocate_output_buffers(1, Ok(features(1))).unwrap();
    let decoder = decoder.set_poll_counter(0);
    let (mut decoder, mut worker) = decoder.start(Ok(()), Ok(())).unwrap();
    assert_eq!(decoder.poll_wakeups(), Some(0));
    assert_eq!(worker.poll_wakeups(), Some(0));
    // Fill the single buffer, then a blocking acquisition records a wakeup.
    let mut completed: Vec<Vec<PlaneHandle>> = Vec::new();
    let b = decoder.get_buffer(None, vec![], vec![], &mut completed).unwrap();
    decoder.queue_buffer(b, userptr(0), Ok(())).unwrap();
    let b = decoder
        .get_buffer(
            Some(Ok(output_ready())),
            vec![DqBufReply::Dequeued(dqbuf(0, 0, 0)), DqBufReply::NotReady],
            vec![],
            &mut completed,
        )
        .unwrap();
    assert_eq!(b.index(), 0);
    assert_eq!(decoder.poll_wakeups(), Some(1));
    worker.record_poll_wakeup();
    assert_eq!(worker.poll_wakeups(), Some(1));
}

#[test]
fn worker_spurious_wake_is_harmless() {
    let (_decoder, mut worker) = running(2);
    assert!(!worker.is_decoding());
    // A wakeup with nothing to requeue does nothing.
    worker.enqueue_capture_buffers(vec![]);
    assert!(!worker.is_decoding());
}

#[test]
fn worker_initial_resolution_configures_capture() {
    let (_decoder, worker) = running(2);
    assert!(worker.is_event_enabled(DeviceEvent::V4L2Event));
    assert!(!worker.is_event_enabled(DeviceEvent::CaptureReady));
    let worker = worker
        .process_events(&vec![resolution_event()], vec![resolution_io(1920, 1080, 4)])
        .unwrap();
    assert!(worker.is_decoding());
    assert_eq!(worker.capture_format(), Format { width: 1920, height: 1080, pixelformat: NV12 });
    assert_eq!(worker.num_queued_capture_buffers(), 4);
    assert!(worker.is_event_enabled(DeviceEvent::CaptureReady));
    assert!(!worker.is_event_enabled(DeviceEvent::V4L2Event));
}

#[test]
fn worker_ignores_event_without_resolution_bit() {
    let (_decoder, worker) = running(2);
    let worker = worker
        .process_events(&vec![Ok(Event::SrcChangeEvent(SrcChanges(0)))], vec![])
        .unwrap();
    assert!(!worker.is_decoding());
}

#[test]
fn process_events_reports_dequeue_error() {
    let (_decoder, worker) = running(2);
    let r = worker.process_events(&vec![Err(5)], vec![]);
    assert!(matches!(r, Err(ProcessEventsError::DQEvent(5))));
}

#[test]
fn update_capture_resolution_errors() {
    let (_decoder, worker) = running(2);
    let mut io = resolution_io(1920, 1080, 4);
    io.gfmt = Err(11);
    let r = worker.update_capture_resolution(io);
    assert!(matches!(r, Err(UpdateCaptureError::GFmt(11))));

    let (_decoder, worker) = running(2);
    let mut io = resolution_io(1920, 1080, 4);
    io.sfmt = Err(12);
    let r = worker.update_capture_resolution(io);
    assert!(matches!(r, Err(UpdateCaptureError::SFmt(v4l2_decoder::queue::SFmtError(12)))));

    let (_decoder, worker) = running(2);
    let mut io = resolution_io(1920, 1080, 4);
    io.reqbufs = Err(RequestBuffersError::ReqbufsError(13));
    let r = worker.update_capture_resolution(io);
    assert!(matches!(
        r,
        Err(UpdateCaptureError::RequestBuffers(RequestBuffersError::ReqbufsError(13)))
    ));

    let (_decoder, worker) = running(2);
    let mut io = resolution_io(1920, 1080, 4);
    io.streamon = Err(14);
    let r = worker.update_capture_resolution(io);
    assert!(matches!(
        r,
        Err(UpdateCaptureError::StreamOn(v4l2_decoder::queue::StreamOnError(14)))
    ));
}

#[test]
fn capture_poll_disabled_with_zero_queued_buffers() {
    let (_decoder, worker) = running(2);
    let mut worker = worker
        .process_events(&vec![resolution_event()], vec![resolution_io(1920, 1080, 2)])
        .unwrap();
    // Drain both buffers without returning them: nothing stays queued.
    let (f1, last1) = worker.process_capture_buffer(DqBufReply::Dequeued(dqbuf(0, 100, 0)));
    let (f2, last2) = worker.process_capture_buffer(DqBufReply::Dequeued(dqbuf(1, 100, 0)));
    assert!(f1.is_some() && f2.is_some());
    assert!(!last1 && !last2);
    assert_eq!(worker.num_queued_capture_buffers(), 0);
    worker.prepare_poll();
    assert!(!worker.is_event_enabled(DeviceEvent::CaptureReady));
    // Returning a frame queues its buffer again and re-enables the poll.
    worker.release_capture_buffer(f1.unwrap());
    assert!(worker.take_waker());
    worker.enqueue_capture_buffers(vec![Ok(())]);
    assert_eq!(worker.num_queued_capture_buffers(), 1);
    worker.prepare_poll();
    assert!(worker.is_event_enabled(DeviceEvent::CaptureReady));
    worker.release_capture_buffer(f2.unwrap());
}

#[test]
fn empty_capture_buffer_is_not_delivered() {
    let (_decoder, worker) = running(2);
    let mut worker = worker
        .process_events(&vec![resolution_event()], vec![resolution_io(1920, 1080, 2)])
        .unwrap();
    let (frame, exit) = worker.process_capture_buffer(DqBufReply::Dequeued(dqbuf(0, 0, 0)));
    assert!(frame.is_none());
    assert!(!exit);
    // The empty buffer went straight back to the free pool and woke the
    // loop so it gets queued again.
    assert!(worker.take_waker());
    assert_eq!(worker.num_queued_capture_buffers(), 1);
    worker.enqueue_capture_buffers(vec![Ok(())]);
    assert_eq!(worker.num_queued_capture_buffers(), 2);
}

#[test]
fn last_capture_buffer_terminates_after_delivery() {
    let (_decoder, worker) = running(2);
    let mut worker = worker
        .process_events(&vec![resolution_event()], vec![resolution_io(1920, 1080, 2)])
        .unwrap();
    let (frame, exit) =
        worker.process_capture_buffer(DqBufReply::Dequeued(dqbuf(0, 100, BUFFER_FLAG_LAST)));
    // The last frame is still delivered, and the loop must end after it.
    let frame = frame.unwrap();
    assert!(frame.data().flags.contains(BUFFER_FLAG_LAST));
    assert!(exit);
    worker.release_capture_buffer(frame);
}

#[test]
fn corrupted_capture_buffer_is_delivered_and_recycled() {
    let (_decoder, worker) = running(2);
    let mut worker = worker
        .process_events(&vec![resolution_event()], vec![resolution_io(1920, 1080, 2)])
        .unwrap();
    let (frame, exit) = worker.process_capture_buffer(DqBufReply::CorruptedBuffer(dqbuf(
        0,
        100,
        BUFFER_FLAG_ERROR,
    )));
    let frame = frame.unwrap();
    assert!(!exit);
    // The frame arrives with the driver's error flag preserved.
    assert!(frame.data().flags.contains(BUFFER_FLAG_ERROR));
    assert_eq!(worker.num_queued_capture_buffers(), 1);
    // Dropping it returns the buffer to the free pool, eligible again.
    worker.release_capture_buffer(frame);
    worker.enqueue_capture_buffers(vec![Ok(())]);
    assert_eq!(worker.num_queued_capture_buffers(), 2);
}

#[test]
fn backpressure_on_output() {
    let (mut decoder, _worker) = running(2);
    let mut completed: Vec<Vec<PlaneHandle>> = Vec::new();
    // Fill both OUTPUT buffers without the driver consuming any.
    for byte in 0..2u8 {
        let b = decoder.get_buffer(None, vec![], vec![], &mut completed).unwrap();
        decoder.queue_buffer(b, userptr(byte), Ok(())).unwrap();
    }
    assert_eq!(decoder.num_output_buffers(), 2);
    // The third acquisition must wait: it consumes the blocking poll, and
    // once the driver hands one buffer back it returns that buffer.
    let b = decoder
        .get_buffer(
            Some(Ok(output_ready())),
            vec![DqBufReply::Dequeued(dqbuf(0, 0, 0)), DqBufReply::NotReady],
            vec![],
            &mut completed,
        )
        .unwrap();
    assert_eq!(b.index(), 0);
    assert_eq!(completed.len(), 1);
    assert_eq!(completed[0], userptr(0));
}

#[test]
fn get_buffer_reports_poll_error() {
    let (mut decoder, _worker) = running(1);
    let mut completed: Vec<Vec<PlaneHandle>> = Vec::new();
    let b = decoder.get_buffer(None, vec![], vec![], &mut completed).unwrap();
    decoder.queue_buffer(b, userptr(1), Ok(())).unwrap();
    let r = decoder.get_buffer(Some(Err(4)), vec![], vec![], &mut completed);
    assert!(matches!(r, Err(GetBufferError::PollError(4))));
}

#[test]
fn happy_path_static_resolution() {
    let (mut decoder, worker) = running(4);
    assert_eq!(decoder.num_output_buffers(), 4);

    // The worker observes the initial source change and configures the
    // CAPTURE side for the stream's resolution.
    let mut worker = worker
        .process_events(&vec![resolution_event()], vec![resolution_io(1920, 1080, 4)])
        .unwrap();
    assert!(worker.is_decoding());

    // Submit 10 compressed buffers; the driver consumes them in order and
    // their userptr handles come back through the completion drain.
    let mut driver_output: Vec<(usize, u8)> = Vec::new();
    let mut completed: Vec<Vec<PlaneHandle>> = Vec::new();
    for byte in 0..10u8 {
        let full = driver_output.len() == 4;
        let buffer = if full {
            let (oldest, _) = driver_output.remove(0);
            decoder
                .get_buffer(
                    Some(Ok(output_ready())),
                    vec![DqBufReply::Dequeued(dqbuf(oldest, 0, 0)), DqBufReply::NotReady],
                    vec![],
                    &mut completed,
                )
                .unwrap()
        } else {
            decoder.get_buffer(None, vec![], vec![], &mut completed).unwrap()
        };
        driver_output.push((buffer.index(), byte));
        decoder.queue_buffer(buffer, userptr(byte), Ok(())).unwrap();
    }
    // Drain the four buffers still owned by the driver.
    let tail: Vec<DqBufReply> = driver_output
        .iter()
        .map(|(index, _)| DqBufReply::Dequeued(dqbuf(*index, 0, 0)))
        .collect();
    decoder.dequeue_output_buffers(tail, &mut completed).unwrap();
    // Every submission was reclaimed, in order, with the original bytes.
    assert_eq!(completed.len(), 10);
    for (byte, handles) in completed.iter().enumerate() {
        assert_eq!(*handles, userptr(byte as u8));
    }

    // The worker delivers 10 non-empty frames in order; the driver flags
    // the last one, which ends the loop.
    let mut delivered = 0usize;
    let mut frame_index = 0usize;
    loop {
        worker.prepare_poll();
        assert!(worker.is_event_enabled(DeviceEvent::CaptureReady));
        let flags = if delivered == 9 { BUFFER_FLAG_LAST } else { 0 };
        let (frame, exit) =
            worker.process_capture_buffer(DqBufReply::Dequeued(dqbuf(frame_index, 100, flags)));
        let frame = frame.unwrap();
        assert_eq!(frame.data().index, frame_index);
        delivered += 1;
        worker.release_capture_buffer(frame);
        assert!(worker.take_waker());
        worker.enqueue_capture_buffers(vec![Ok(())]);
        if exit {
            break;
        }
        frame_index = (frame_index + 1) % 4;
    }
    assert_eq!(delivered, 10);

    // Stopping the session streams the CAPTURE queue off.
    decoder.stop(worker, Ok(()), Ok(())).unwrap();
}

#[test]
fn process_events_applies_each_resolution_change_in_order() {
    // Two resolution events in one drained batch: the second change tears
    // the first configuration down again; the last one wins.
    let (_decoder, worker) = running(2);
    let worker = worker
        .process_events(
            &vec![resolution_event(), Ok(Event::SrcChangeEvent(SrcChanges(0))), resolution_event()],
            vec![resolution_io(1920, 1080, 4), resolution_io(1280, 720, 2)],
        )
        .unwrap();
    assert!(worker.is_decoding());
    assert_eq!(worker.capture_format(), Format { width: 1280, height: 720, pixelformat: NV12 });
    assert_eq!(worker.num_queued_capture_buffers(), 2);
}

#[test]
fn process_events_reports_failing_resolution_change() {
    let (_decoder, worker) = running(2);
    let mut bad = resolution_io(1920, 1080, 4);
    bad.streamon = Err(6);
    let r = worker.process_events(&vec![resolution_event()], vec![bad]);
    assert!(matches!(
        r,
        Err(ProcessEventsError::UpdateCapture(UpdateCaptureError::StreamOn(
            v4l2_decoder::queue::StreamOnError(6)
        )))
    ));
}

#[test]
fn output_drain_error_keeps_earlier_completions() {
    let (mut decoder, _worker) = running(2);
    let mut completed: Vec<Vec<PlaneHandle>> = Vec::new();
    for byte in 0..2u8 {
        let b = decoder.get_buffer(None, vec![], vec![], &mut completed).unwrap();
        decoder.queue_buffer(b, userptr(byte), Ok(())).unwrap();
    }
    // One buffer completes, then the stream ends: the drain surfaces the
    // end of the stream but the reclaimed handles of the first buffer have
    // already been delivered.
    let r = decoder.dequeue_output_buffers(
        vec![DqBufReply::Dequeued(dqbuf(0, 0, 0)), DqBufReply::Eos],
        &mut completed,
    );
    assert!(matches!(r, Err(v4l2_decoder::queue::DQBufError::Eos)));
    assert_eq!(completed.len(), 1);
    assert_eq!(completed[0], userptr(0));
}

#[test]
fn get_buffer_surfaces_dequeue_errors() {
    let (mut decoder, _worker) = running(1);
    let mut completed: Vec<Vec<PlaneHandle>> = Vec::new();
    let b = decoder.get_buffer(None, vec![], vec![], &mut completed).unwrap();
    decoder.queue_buffer(b, userptr(0), Ok(())).unwrap();
    let r = decoder.get_buffer(
        Some(Ok(output_ready())),
        vec![DqBufReply::IoctlError(35)],
        vec![],
        &mut completed,
    );
    assert!(matches!(
        r,
        Err(GetBufferError::DequeueError(v4l2_decoder::queue::DQBufError::IoctlError(35)))
    ));
}

#[test]
fn get_buffer_reports_no_free_buffer() {
    let (mut decoder, _worker) = running(1);
    let mut completed: Vec<Vec<PlaneHandle>> = Vec::new();
    // The only buffer is reserved but not yet submitted: the queue is not
    // full, yet nothing is free either.
    let held = decoder.get_buffer(None, vec![], vec![], &mut completed).unwrap();
    let r = decoder.get_buffer(None, vec![], vec![], &mut completed);
    assert!(matches!(
        r,
        Err(GetBufferError::GetFreeBufferError(
            v4l2_decoder::queue::GetFreeBufferError::NoFreeBuffer
        ))
    ));
    assert_eq!(held.index(), 0);
}

#[test]
fn corrupted_output_buffer_travels_in_the_error_and_is_returnable() {
    let (mut decoder, _worker) = running(1);
    let mut completed: Vec<Vec<PlaneHandle>> = Vec::new();
    let b = decoder.get_buffer(None, vec![], vec![], &mut completed).unwrap();
    decoder.queue_buffer(b, userptr(8), Ok(())).unwrap();
    let r = decoder.dequeue_output_buffers(
        vec![DqBufReply::CorruptedBuffer(dqbuf(0, 0, BUFFER_FLAG_ERROR))],
        &mut completed,
    );
    match r {
        Err(v4l2_decoder::queue::DQBufError::CorruptedBuffer(mut buf)) => {
            assert!(buf.data().flags.contains(BUFFER_FLAG_ERROR));
            assert_eq!(buf.take_handles().unwrap(), userptr(8));
            decoder.release_output_buffer(buf);
        },
        other => panic!("expected a corrupted buffer, got {:?}", other),
    }
    // The slot is usable again.
    let b = decoder.get_buffer(None, vec![], vec![], &mut completed).unwrap();
    assert_eq!(b.index(), 0);
}

#[test]
fn dynamic_resolution_change_mid_stream() {
    let (_decoder, worker) = running(4);
    let mut worker = worker
        .process_events(&vec![resolution_event()], vec![resolution_io(1920, 1080, 4)])
        .unwrap();

    // Five frames arrive at the initial resolution.
    for i in 0..5usize {
        let (frame, exit) =
            worker.process_capture_buffer(DqBufReply::Dequeued(dqbuf(i % 4, 100, 0)));
        assert!(!exit);
        worker.release_capture_buffer(frame.unwrap());
        assert!(worker.take_waker());
        worker.enqueue_capture_buffers(vec![Ok(())]);
    }
    assert_eq!(worker.capture_format(), Format { width: 1920, height: 1080, pixelformat: NV12 });

    // The driver announces a new resolution: the CAPTURE side is stopped,
    // re-formatted through the client's choice, re-allocated and restarted.
    let worker = worker
        .process_events(&vec![resolution_event()], vec![resolution_io(1280, 720, 4)])
        .unwrap();
    assert!(worker.is_decoding());
    assert_eq!(worker.capture_format(), Format { width: 1280, height: 720, pixelformat: NV12 });
    assert_eq!(worker.num_queued_capture_buffers(), 4);

    // Frames keep arriving, now from the new allocation.
    let mut worker = worker;
    let (frame, exit) = worker.process_capture_buffer(DqBufReply::Dequeued(dqbuf(0, 100, 0)));
    assert!(!exit);
    worker.release_capture_buffer(frame.unwrap());
}
