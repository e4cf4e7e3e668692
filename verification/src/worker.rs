//! The decoder worker: the state machine that owns the CAPTURE side while
//! decoding runs.
//!
//! The worker waits for three signal sources — driver events, CAPTURE
//! completions and re-queue wakeups. Waiting is a blocking poll the caller
//! performs; each outcome is handed to one of the handlers here, which take
//! every decision: resolution discovery and dynamic resolution changes,
//! frame delivery, and re-enqueueing of returned buffers.

use vstd::prelude::*;
use vstd::pervasive::VecAdditionalExecFns;

use crate::buffer::{
    count_free, lemma_count_free_all_free, lemma_count_free_le_len, lemma_count_free_lower_bound,
    lemma_count_free_update, make_default_handles, spec_default_handles, BufferState, MemoryType,
    QueryBuffer, BUFFER_FLAG_LAST,
};
use crate::device::QueueType;
use crate::format::Format;
use crate::poller::{DeviceEvent, Poller};
use crate::queue::{
    BuffersAllocated, DQBufError, DQBuffer, DqBufReply, GetFreeBufferError, Queue, QueueInit,
    RequestBuffersError, SFmtError, StreamOnError,
};

verus! {

/// Change bits of a source-change event.
#[derive(Clone, Copy, Debug, PartialEq, Eq, Structural)]
pub struct SrcChanges(pub u32);

/// Bit set when the stream's resolution has been determined or has changed.
pub const SRC_CHANGE_RESOLUTION: u32 = 0x1;

impl SrcChanges {
    /// Whether any bit of `mask` is set.
    pub open spec fn spec_contains(self, mask: u32) -> bool {
        self.0 & mask != 0
    }

    pub fn contains(self, mask: u32) -> (r: bool)
        ensures
            r == self.spec_contains(mask),
    {
        self.0 & mask != 0
    }
}

/// An event dequeued from the driver.
#[derive(Clone, Copy, Debug, PartialEq, Eq, Structural)]
pub enum Event {
    SrcChangeEvent(SrcChanges),
}

/// Error returned when a resolution change cannot be applied.
#[derive(Clone, Copy, Debug, PartialEq, Eq, Structural)]
pub enum UpdateCaptureError {
    /// Reading the driver's proposed CAPTURE format failed with this code.
    GFmt(i32),
    /// Applying the chosen CAPTURE format failed.
    SFmt(SFmtError),
    /// Allocating the CAPTURE buffers failed.
    RequestBuffers(RequestBuffersError),
    /// Starting the CAPTURE stream failed.
    StreamOn(StreamOnError),
}

/// Error returned when processing driver events fails.
#[derive(Clone, Copy, Debug, PartialEq, Eq, Structural)]
pub enum ProcessEventsError {
    /// Dequeueing an event failed with this code.
    DQEvent(i32),
    /// A resolution change could not be applied.
    UpdateCapture(UpdateCaptureError),
}

/// Everything the driver and the client answer during one resolution
/// change, in the order the steps run.
#[derive(Debug)]
pub struct ResolutionChangeIo {
    /// Stopping the old CAPTURE stream (used only on a mid-stream change).
    pub streamoff: Result<(), i32>,
    /// Freeing the old CAPTURE buffers (used only on a mid-stream change).
    pub free: Result<(), i32>,
    /// The driver's proposed CAPTURE format, offered to the client.
    pub gfmt: Result<Format, i32>,
    /// The CAPTURE format the client chose.
    pub chosen: Format,
    /// The driver's answer to applying the chosen format.
    pub sfmt: Result<Format, i32>,
    /// The driver's answer to allocating the CAPTURE buffers.
    pub reqbufs: Result<Vec<QueryBuffer>, RequestBuffersError>,
    /// The driver's answer to starting the CAPTURE stream.
    pub streamon: Result<(), i32>,
    /// The driver's answers to enqueueing each fresh buffer.
    pub qbuf: Vec<Result<(), i32>>,
}

/// Whether every driver reply of a resolution change succeeded.
pub open spec fn spec_io_ok(io: ResolutionChangeIo) -> bool {
    &&& io.gfmt is Ok
    &&& io.sfmt is Ok
    &&& io.reqbufs is Ok
    &&& io.streamon is Ok
}

/// The error a failing resolution change surfaces, in step order.
pub open spec fn spec_io_err(io: ResolutionChangeIo) -> UpdateCaptureError {
    match io.gfmt {
        Err(e) => UpdateCaptureError::GFmt(e),
        Ok(_) => match io.sfmt {
            Err(e) => UpdateCaptureError::SFmt(SFmtError(e)),
            Ok(_) => match io.reqbufs {
                Err(e) => UpdateCaptureError::RequestBuffers(e),
                Ok(_) => match io.streamon {
                    Err(e) => UpdateCaptureError::StreamOn(StreamOnError(e)),
                    Ok(_) => UpdateCaptureError::GFmt(0),
                },
            },
        },
    }
}

/// What a resolution change demands of its replies: sound slot records and
/// one successful enqueue answer per allocated buffer.
pub open spec fn spec_io_valid(io: ResolutionChangeIo) -> bool {
    io.reqbufs matches Ok(features) ==> {
        &&& forall|i: int|
            0 <= i < features@.len() ==> (#[trigger] features@[i]).index == i
                && features@[i].num_planes >= 1
        &&& io.qbuf@.len() >= features@.len()
        &&& forall|k: int| 0 <= k < io.qbuf@.len() ==> (#[trigger] io.qbuf@[k]) is Ok
    }
}

/// Whether the teardown replies of a resolution change succeeded; needed
/// whenever the change finds the CAPTURE side already decoding.
pub open spec fn spec_io_teardown_ok(io: ResolutionChangeIo) -> bool {
    io.streamoff == Ok::<(), i32>(()) && io.free == Ok::<(), i32>(())
}

/// The CAPTURE side of the worker: waiting for the stream's resolution, or
/// decoding with buffers allocated and streaming.
pub enum CaptureQueue {
    AwaitingResolution(Queue<QueueInit>),
    Decoding(Queue<BuffersAllocated>),
}

/// The state machine the decoder worker runs: the CAPTURE queue in one of
/// its two sub-states, and the poller that multiplexes the three signal
/// sources.
pub struct DecoderThread {
    capture_queue: CaptureQueue,
    poller: Poller,
}

impl DecoderThread {
    /// Whether the CAPTURE side is decoding.
    pub closed spec fn spec_is_decoding(&self) -> bool {
        self.capture_queue is Decoding
    }

    /// The CAPTURE queue while decoding.
    pub closed spec fn spec_decoding_queue(&self) -> Queue<BuffersAllocated>
        recommends
            self.spec_is_decoding(),
    {
        self.capture_queue->Decoding_0
    }

    /// The CAPTURE queue while awaiting the resolution.
    pub closed spec fn spec_awaiting_queue(&self) -> Queue<QueueInit>
        recommends
            !self.spec_is_decoding(),
    {
        self.capture_queue->AwaitingResolution_0
    }

    /// The poller state.
    pub closed spec fn spec_poller(&self) -> Poller {
        self.poller
    }

    /// The CAPTURE queue's type, in either sub-state.
    pub closed spec fn spec_capture_type(&self) -> QueueType {
        match self.capture_queue {
            CaptureQueue::AwaitingResolution(q) => q.spec_type(),
            CaptureQueue::Decoding(q) => q.spec_type(),
        }
    }

    /// The CAPTURE queue's capability bits, in either sub-state.
    pub closed spec fn spec_capture_capabilities(&self) -> crate::device::BufferCapabilities {
        match self.capture_queue {
            CaptureQueue::AwaitingResolution(q) => q.spec_capabilities(),
            CaptureQueue::Decoding(q) => q.spec_capabilities(),
        }
    }

    /// The CAPTURE queue's supported formats, in either sub-state.
    pub closed spec fn spec_capture_formats(&self) -> Seq<crate::format::FormatDesc> {
        match self.capture_queue {
            CaptureQueue::AwaitingResolution(q) => q.spec_formats(),
            CaptureQueue::Decoding(q) => q.spec_formats(),
        }
    }

    /// The CAPTURE queue's allocation number, in either sub-state.
    pub closed spec fn spec_capture_generation(&self) -> u64 {
        match self.capture_queue {
            CaptureQueue::AwaitingResolution(q) => q.spec_generation(),
            CaptureQueue::Decoding(q) => q.spec_generation(),
        }
    }

    /// Worker well-formedness: the CAPTURE side is the multi-planar CAPTURE
    /// queue and, while decoding, its buffer table is well-formed and
    /// MMAP-backed.
    pub closed spec fn wf(&self) -> bool {
        &&& self.spec_capture_type() == QueueType::VideoCaptureMplane
        &&& self.spec_is_decoding() ==> self.spec_decoding_queue().wf()
            && self.spec_decoding_queue().spec_memory_type() == MemoryType::Mmap
    }

    /// Build the worker state around the CAPTURE queue. It starts by
    /// listening to driver events only, in order to catch the initial
    /// resolution change.
    pub fn new(capture_queue: Queue<QueueInit>) -> (w: DecoderThread)
        ensures
            !w.spec_is_decoding(),
            w.spec_awaiting_queue() == capture_queue,
            w.spec_capture_type() == capture_queue.spec_type(),
            w.spec_capture_generation() == capture_queue.spec_generation(),
            w.spec_poller().spec_enabled(DeviceEvent::V4L2Event),
            !w.spec_poller().spec_enabled(DeviceEvent::CaptureReady),
            !w.spec_poller().spec_enabled(DeviceEvent::OutputReady),
            !w.spec_poller().spec_waker_pending(),
            w.spec_poller().spec_wakeups() is None,
            capture_queue.spec_type() == QueueType::VideoCaptureMplane ==> w.wf(),
    {
        let mut poller = Poller::new();
        poller.enable_event(DeviceEvent::V4L2Event);
        DecoderThread { capture_queue: CaptureQueue::AwaitingResolution(capture_queue), poller }
    }

    /// Inject a wakeup counter for observability.
    pub fn set_poll_counter(&mut self, poll_wakeups_counter: u64)
        ensures
            final(self).spec_poller().spec_wakeups() == Some(poll_wakeups_counter),
            final(self).spec_poller().spec_waker_pending() == old(
                self,
            ).spec_poller().spec_waker_pending(),
            forall|e: DeviceEvent|
                final(self).spec_poller().spec_enabled(e) == old(self).spec_poller().spec_enabled(
                    e,
                ),
            final(self).spec_capture_unchanged(*old(self)),
            old(self).wf() ==> final(self).wf(),
    {
        self.poller.set_poll_counter(poll_wakeups_counter);
    }

    /// Whether the CAPTURE side of two worker states is the same.
    pub open spec fn spec_capture_unchanged(&self, other: DecoderThread) -> bool {
        &&& self.spec_is_decoding() == other.spec_is_decoding()
        &&& (self.spec_is_decoding() ==> self.spec_decoding_queue() == other.spec_decoding_queue())
        &&& (!self.spec_is_decoding() ==> self.spec_awaiting_queue()
            == other.spec_awaiting_queue())
    }

    /// The current value of the wakeup counter, if one was injected.
    pub fn poll_wakeups(&self) -> (r: Option<u64>)
        ensures
            r == self.spec_poller().spec_wakeups(),
    {
        self.poller.poll_wakeups()
    }

    /// Count one poll wakeup on the worker's poller.
    pub fn record_poll_wakeup(&mut self)
        ensures
            final(self).spec_poller().spec_wakeups() == crate::poller::spec_counted(
                old(self).spec_poller().spec_wakeups(),
            ),
            final(self).spec_poller().spec_waker_pending() == old(
                self,
            ).spec_poller().spec_waker_pending(),
            forall|e: DeviceEvent|
                final(self).spec_poller().spec_enabled(e) == old(self).spec_poller().spec_enabled(
                    e,
                ),
            final(self).spec_capture_unchanged(*old(self)),
            old(self).wf() ==> final(self).wf(),
    {
        self.poller.record_wakeup();
    }

    /// Read and clear the worker poller's waker, as a returning poll call
    /// does.
    pub fn take_waker(&mut self) -> (r: bool)
        ensures
            r == old(self).spec_poller().spec_waker_pending(),
            !final(self).spec_poller().spec_waker_pending(),
            final(self).spec_poller().spec_wakeups() == old(self).spec_poller().spec_wakeups(),
            forall|e: DeviceEvent|
                final(self).spec_poller().spec_enabled(e) == old(self).spec_poller().spec_enabled(
                    e,
                ),
            final(self).spec_capture_unchanged(*old(self)),
            old(self).wf() ==> final(self).wf(),
    {
        self.poller.take_waker()
    }

    /// Whether `event` is subscribed on the worker's poller.
    pub fn is_event_enabled(&self, event: DeviceEvent) -> (r: bool)
        ensures
            r == self.spec_poller().spec_enabled(event),
    {
        self.poller.is_enabled(event)
    }

    /// The number of buffers allocated on the CAPTURE side.
    pub fn num_capture_buffers(&self) -> (r: usize)
        requires
            self.spec_is_decoding(),
        ensures
            r == self.spec_decoding_queue().spec_infos().len(),
    {
        match &self.capture_queue {
            CaptureQueue::Decoding(q) => q.num_buffers(),
            CaptureQueue::AwaitingResolution(_) => vstd::pervasive::unreached(),
        }
    }

    /// The number of buffers currently queued on the CAPTURE side.
    pub fn num_queued_capture_buffers(&self) -> (r: usize)
        requires
            self.spec_is_decoding(),
        ensures
            r == self.spec_decoding_queue().spec_num_queued(),
    {
        match &self.capture_queue {
            CaptureQueue::Decoding(q) => q.num_queued_buffers(),
            CaptureQueue::AwaitingResolution(_) => vstd::pervasive::unreached(),
        }
    }

    /// Adjust the poller before blocking: while decoding with no queued
    /// CAPTURE buffer, waiting for a CAPTURE completion would return an
    /// error immediately and spin, so that subscription is dropped until a
    /// buffer is queued again.
    pub fn prepare_poll(&mut self)
        requires
            old(self).wf(),
        ensures
            final(self).wf(),
            final(self).spec_capture_unchanged(*old(self)),
            final(self).spec_poller().spec_wakeups() == old(self).spec_poller().spec_wakeups(),
            final(self).spec_poller().spec_waker_pending() == old(
                self,
            ).spec_poller().spec_waker_pending(),
            final(self).spec_poller().spec_enabled(DeviceEvent::V4L2Event) == old(
                self,
            ).spec_poller().spec_enabled(DeviceEvent::V4L2Event),
            final(self).spec_poller().spec_enabled(DeviceEvent::OutputReady) == old(
                self,
            ).spec_poller().spec_enabled(DeviceEvent::OutputReady),
            old(self).spec_is_decoding() ==> final(self).spec_poller().spec_enabled(
                DeviceEvent::CaptureReady,
            ) == (old(self).spec_decoding_queue().spec_num_queued() > 0),
            !old(self).spec_is_decoding() ==> final(self).spec_poller().spec_enabled(
                DeviceEvent::CaptureReady,
            ) == old(self).spec_poller().spec_enabled(DeviceEvent::CaptureReady),
    {
        let num_queued = match &self.capture_queue {
            CaptureQueue::Decoding(q) => Some(q.num_queued_buffers()),
            CaptureQueue::AwaitingResolution(_) => None,
        };
        match num_queued {
            Some(0) => {
                // Polling an empty CAPTURE queue would report an error
                // immediately; disable it until a buffer is queued again.
                self.poller.disable_event(DeviceEvent::CaptureReady);
            },
            Some(_) => {
                self.poller.enable_event(DeviceEvent::CaptureReady);
            },
            None => (),
        }
    }
}

impl DecoderThread {
    /// Re-queue every free CAPTURE buffer with placeholder handles, lowest
    /// index first; `replies` holds the driver's answer to each submission.
    /// A no-op outside the decoding sub-state or with no free buffer, so a
    /// spurious wakeup is harmless.
    pub fn enqueue_capture_buffers(&mut self, replies: Vec<Result<(), i32>>)
        requires
            old(self).wf(),
            old(self).spec_is_decoding() ==> replies@.len() >= count_free(
                old(self).spec_decoding_queue().spec_infos(),
            ),
            forall|k: int| 0 <= k < replies@.len() ==> (#[trigger] replies@[k]) is Ok,
        ensures
            final(self).wf(),
            final(self).spec_poller() == old(self).spec_poller(),
            !old(self).spec_is_decoding() ==> final(self).spec_capture_unchanged(*old(self)),
            old(self).spec_is_decoding() ==> {
                &&& final(self).spec_is_decoding()
                &&& final(self).spec_decoding_queue().spec_base() == old(
                    self,
                ).spec_decoding_queue().spec_base()
                &&& final(self).spec_decoding_queue().spec_streaming() == old(
                    self,
                ).spec_decoding_queue().spec_streaming()
                &&& final(self).spec_decoding_queue().spec_memory_type() == old(
                    self,
                ).spec_decoding_queue().spec_memory_type()
                &&& final(self).spec_decoding_queue().spec_infos().len() == old(
                    self,
                ).spec_decoding_queue().spec_infos().len()
                &&& forall|i: int|
                    0 <= i < old(self).spec_decoding_queue().spec_infos().len() ==> #[trigger] spec_requeued(
                        old(self).spec_decoding_queue().spec_infos()[i],
                        final(self).spec_decoding_queue().spec_infos()[i],
                    )
                &&& final(self).spec_decoding_queue().spec_num_queued() == old(
                    self,
                ).spec_decoding_queue().spec_num_queued() + count_free(
                    old(self).spec_decoding_queue().spec_infos(),
                )
            },
    {
        match &mut self.capture_queue {
            CaptureQueue::Decoding(capture_queue) => {
                let ghost q0 = *capture_queue;
                let mut used: usize = 0;
                proof {
                    lemma_count_free_le_len(q0.spec_infos());
                }
                loop
                    invariant
                        q0.wf(),
                        capture_queue.wf(),
                        capture_queue.spec_base() == q0.spec_base(),
                        capture_queue.spec_streaming() == q0.spec_streaming(),
                        capture_queue.spec_memory_type() == q0.spec_memory_type(),
                        capture_queue.spec_infos().len() == q0.spec_infos().len(),
                        forall|i: int|
                            0 <= i < q0.spec_infos().len() ==> #[trigger] spec_requeued(
                                q0.spec_infos()[i],
                                capture_queue.spec_infos()[i],
                            ) || capture_queue.spec_infos()[i] == q0.spec_infos()[i],
                        used == count_free(q0.spec_infos()) - count_free(
                            capture_queue.spec_infos(),
                        ),
                        capture_queue.spec_num_queued() == q0.spec_num_queued() + used,
                        0 <= count_free(capture_queue.spec_infos()),
                        replies@.len() >= count_free(q0.spec_infos()),
                        forall|k: int| 0 <= k < replies@.len() ==> (#[trigger] replies@[k]) is Ok,
                    ensures
                        capture_queue.wf(),
                        capture_queue.spec_base() == q0.spec_base(),
                        capture_queue.spec_streaming() == q0.spec_streaming(),
                        capture_queue.spec_memory_type() == q0.spec_memory_type(),
                        capture_queue.spec_infos().len() == q0.spec_infos().len(),
                        forall|i: int|
                            0 <= i < q0.spec_infos().len() ==> #[trigger] spec_requeued(
                                q0.spec_infos()[i],
                                capture_queue.spec_infos()[i],
                            ) || capture_queue.spec_infos()[i] == q0.spec_infos()[i],
                        forall|i: int|
                            0 <= i < q0.spec_infos().len() ==> !((
                            #[trigger] capture_queue.spec_infos()[i]).state is Free),
                        capture_queue.spec_num_queued() == q0.spec_num_queued() + count_free(
                            q0.spec_infos(),
                        ) - count_free(capture_queue.spec_infos()),
                    decreases count_free(capture_queue.spec_infos()),
                {
                    let ghost head = *capture_queue;
                    let buffer = match capture_queue.try_get_free_buffer() {
                        Ok(b) => b,
                        Err(GetFreeBufferError::NoFreeBuffer) => {
                            break ;
                        },
                    };
                    proof {
                        lemma_count_free_lower_bound(head.spec_infos(), buffer.spec_index() as int);
                        lemma_count_free_update(
                            head.spec_infos(),
                            buffer.spec_index() as int,
                            capture_queue.spec_infos()[buffer.spec_index() as int],
                        );
                        lemma_count_free_le_len(capture_queue.spec_infos());
                    }
                    let handles = make_default_handles(buffer.num_planes());
                    let num_replies = replies.len();
                    proof {
                        assert(used < num_replies);
                    }
                    let reply = replies[used];
                    let ghost mid = *capture_queue;
                    let ghost bi = buffer.spec_index() as int;
                    match buffer.queue_with_handles(capture_queue, handles, reply) {
                        Ok(()) => (),
                        Err(_) => {
                            proof {
                                assert(false);
                            }
                        },
                    }
                    used = used + 1;
                    proof {
                        lemma_count_free_update(
                            mid.spec_infos(),
                            bi,
                            capture_queue.spec_infos()[bi],
                        );
                        assert(head.spec_infos()[bi].state is Free);
                        assert(spec_requeued(q0.spec_infos()[bi], head.spec_infos()[bi])
                            || head.spec_infos()[bi] == q0.spec_infos()[bi]);
                        assert(q0.spec_infos()[bi] == head.spec_infos()[bi]);
                        assert(spec_requeued(
                            q0.spec_infos()[bi],
                            capture_queue.spec_infos()[bi],
                        ));
                    }
                }
                proof {
                    lemma_count_free_none(capture_queue.spec_infos());
                    assert forall|i: int| 0 <= i < q0.spec_infos().len() implies #[trigger] spec_requeued(
                        q0.spec_infos()[i],
                        capture_queue.spec_infos()[i],
                    ) by {
                        if capture_queue.spec_infos()[i] == q0.spec_infos()[i] {
                            assert(!(q0.spec_infos()[i].state is Free));
                        }
                    }
                }
            },
            CaptureQueue::AwaitingResolution(_) => (),
        }
    }
}

/// What re-queueing does to one buffer record: a free record becomes queued
/// with one placeholder handle per plane; every other record is untouched.
pub open spec fn spec_requeued(b0: crate::buffer::BufferInfo, b1: crate::buffer::BufferInfo) -> bool {
    if b0.state is Free {
        &&& b1.features == b0.features
        &&& (b1.state matches BufferState::Queued(h) && h@ == spec_default_handles(
            b0.features.num_planes as int,
        ))
    } else {
        b1 == b0
    }
}

/// What `n` chained resolution changes, the last one driven by `io`, turn
/// the worker `w0` into: the CAPTURE side is decoding on a fresh,
/// fully-queued, streaming buffer allocation in the client's adjusted
/// format, and the poller now waits for CAPTURE completions instead of
/// driver events.
pub open spec fn spec_resolution_applied_n(
    w0: DecoderThread,
    io: ResolutionChangeIo,
    n: int,
    w1: DecoderThread,
) -> bool {
    &&& w1.spec_is_decoding()
    &&& w1.spec_decoding_queue().wf()
    &&& w1.spec_capture_type() == w0.spec_capture_type()
    &&& w1.spec_capture_capabilities() == w0.spec_capture_capabilities()
    &&& w1.spec_capture_formats() == w0.spec_capture_formats()
    &&& w1.spec_capture_generation() == w0.spec_capture_generation() + n
    &&& (io.sfmt matches Ok(applied) && w1.spec_decoding_queue().spec_format() == applied)
    &&& w1.spec_decoding_queue().spec_memory_type() == MemoryType::Mmap
    &&& w1.spec_decoding_queue().spec_streaming()
    &&& (io.reqbufs matches Ok(features) && {
        &&& w1.spec_decoding_queue().spec_infos().len() == features@.len()
        &&& forall|i: int|
            0 <= i < features@.len() ==> {
                &&& (#[trigger] w1.spec_decoding_queue().spec_infos()[i]).features == features@[i]
                &&& (w1.spec_decoding_queue().spec_infos()[i].state matches BufferState::Queued(h)
                    && h@ == spec_default_handles(features@[i].num_planes as int))
            }
        &&& w1.spec_decoding_queue().spec_num_queued() == features@.len()
    })
    &&& w1.spec_poller().spec_enabled(DeviceEvent::CaptureReady)
    &&& !w1.spec_poller().spec_enabled(DeviceEvent::V4L2Event)
    &&& w1.spec_poller().spec_enabled(DeviceEvent::OutputReady) == w0.spec_poller().spec_enabled(
        DeviceEvent::OutputReady,
    )
    &&& w1.spec_poller().spec_wakeups() == w0.spec_poller().spec_wakeups()
    &&& w1.spec_poller().spec_waker_pending() == w0.spec_poller().spec_waker_pending()
}

impl DecoderThread {
    /// Apply a resolution change: tear the CAPTURE side down if it was
    /// decoding, let the client pick a format for the new resolution,
    /// allocate and queue fresh buffers, move the poller from driver events
    /// to CAPTURE completions, and start streaming. `io` carries every
    /// driver and client answer the steps need.
    pub fn update_capture_resolution(self, io: ResolutionChangeIo) -> (r: Result<
        DecoderThread,
        UpdateCaptureError,
    >)
        requires
            self.wf(),
            self.spec_is_decoding() ==> spec_io_teardown_ok(io),
            spec_io_valid(io),
            self.spec_capture_generation() < u64::MAX,
        ensures
            !spec_io_ok(io) ==> r == Err::<DecoderThread, UpdateCaptureError>(spec_io_err(io)),
            spec_io_ok(io) ==> {
                &&& r matches Ok(w)
                &&& w.wf()
                &&& spec_resolution_applied_n(self, io, 1, w)
            },
    {
        let DecoderThread { capture_queue, mut poller } = self;
        let mut queue_init: Queue<QueueInit> = match capture_queue {
            // Initial resolution.
            CaptureQueue::AwaitingResolution(q) => q,
            // Dynamic resolution change: stop the old stream and return its
            // buffers before reconfiguring.
            CaptureQueue::Decoding(q) => {
                let mut q = q;
                let _canceled = match q.stream_off(io.streamoff) {
                    Ok(c) => c,
                    Err(_) => vstd::pervasive::unreached(),
                };
                match q.free_buffers(io.free) {
                    Ok(qi) => qi,
                    Err(_) => vstd::pervasive::unreached(),
                }
            },
        };

        // The client's format callback ran on a builder seeded with the
        // driver's proposed format; `io.chosen` is what it built.
        let _proposed = match io.gfmt {
            Ok(f) => f,
            Err(e) => {
                return Err(UpdateCaptureError::GFmt(e));
            },
        };
        let _applied = match queue_init.set_format(io.chosen, io.sfmt) {
            Ok(f) => f,
            Err(e) => {
                return Err(UpdateCaptureError::SFmt(e));
            },
        };

        let mut capture_queue = match queue_init.request_buffers(MemoryType::Mmap, 4, io.reqbufs) {
            Ok(q) => q,
            Err(e) => {
                return Err(UpdateCaptureError::RequestBuffers(e));
            },
        };

        // Wait for CAPTURE completions from now on instead of driver events.
        poller.enable_event(DeviceEvent::CaptureReady);
        poller.disable_event(DeviceEvent::V4L2Event);

        match capture_queue.stream_on(io.streamon) {
            Ok(()) => (),
            Err(e) => {
                return Err(UpdateCaptureError::StreamOn(e));
            },
        }

        proof {
            lemma_count_free_all_free(capture_queue.spec_infos());
        }
        let ghost fresh = capture_queue;
        let mut new_self = DecoderThread {
            capture_queue: CaptureQueue::Decoding(capture_queue),
            poller,
        };
        new_self.enqueue_capture_buffers(io.qbuf);
        proof {
            assert forall|i: int| 0 <= i < fresh.spec_infos().len() implies {
                &&& (#[trigger] new_self.spec_decoding_queue().spec_infos()[i]).features
                    == fresh.spec_infos()[i].features
                &&& (new_self.spec_decoding_queue().spec_infos()[i].state matches
                    BufferState::Queued(h) && h@ == spec_default_handles(
                    fresh.spec_infos()[i].features.num_planes as int,
                ))
            } by {
                assert(spec_requeued(
                    fresh.spec_infos()[i],
                    new_self.spec_decoding_queue().spec_infos()[i],
                ));
            }
        }
        Ok(new_self)
    }
}

/// What processing the CAPTURE completion `d` does: the slot leaves the
/// driver's hands; an empty frame goes straight back to the free pool and
/// fires the waker, every other frame is handed out for delivery; and the
/// end-of-stream marker is reported either way.
pub open spec fn spec_capture_processed(
    w0: DecoderThread,
    d: crate::buffer::DqBufData,
    r: (Option<DQBuffer>, bool),
    w1: DecoderThread,
) -> bool {
    let q0 = w0.spec_decoding_queue();
    let q1 = w1.spec_decoding_queue();
    let empty = d.planes@[0].bytesused == 0;
    &&& w1.spec_is_decoding()
    &&& q1.spec_base() == q0.spec_base()
    &&& q1.spec_streaming() == q0.spec_streaming()
    &&& q1.spec_memory_type() == q0.spec_memory_type()
    &&& q1.spec_num_queued() == q0.spec_num_queued() - 1
    &&& r.1 == d.flags.spec_contains(BUFFER_FLAG_LAST)
    &&& (if empty {
        &&& q1.spec_infos() == q0.spec_infos().update(
            d.index as int,
            crate::buffer::BufferInfo {
                state: BufferState::Free,
                features: q0.spec_infos()[d.index as int].features,
            },
        )
        &&& r.0 is None
        &&& w1.spec_poller().spec_waker_pending()
    } else {
        &&& q1.spec_infos() == q0.spec_infos().update(
            d.index as int,
            crate::buffer::BufferInfo {
                state: BufferState::Dequeued,
                features: q0.spec_infos()[d.index as int].features,
            },
        )
        &&& (r.0 matches Some(b) && {
            &&& b.spec_data() == d
            &&& (match q0.spec_infos()[d.index as int].state {
                BufferState::Queued(h) => b.spec_handles() == Some(h),
                _ => false,
            })
            &&& b.spec_fuse().spec_armed()
            &&& b.spec_fuse().spec_index() == d.index
            &&& b.spec_fuse().spec_generation() == q0.spec_generation()
        })
        &&& w1.spec_poller().spec_waker_pending() == w0.spec_poller().spec_waker_pending()
    })
    &&& w1.spec_poller().spec_wakeups() == w0.spec_poller().spec_wakeups()
    &&& forall|e: DeviceEvent|
        w1.spec_poller().spec_enabled(e) == w0.spec_poller().spec_enabled(e)
}

impl DecoderThread {
    /// Process one CAPTURE completion the poll reported; `reply` is the
    /// driver's answer to the dequeue, which must have produced a buffer —
    /// possibly a corrupted one, which is delivered all the same with the
    /// driver's flags preserved. Returns the frame to deliver to the
    /// client, if any, and whether this was the last buffer of the stream,
    /// upon which the worker's loop must end.
    pub fn process_capture_buffer(&mut self, reply: DqBufReply) -> (r: (Option<DQBuffer>, bool))
        requires
            old(self).wf(),
            old(self).spec_is_decoding(),
            reply matches DqBufReply::Dequeued(d) ==> d.index < old(
                self,
            ).spec_decoding_queue().spec_infos().len() && old(
                self,
            ).spec_decoding_queue().spec_infos()[d.index as int].state is Queued && d.planes@.len()
                == old(self).spec_decoding_queue().spec_infos()[d.index as int].features.num_planes,
            reply matches DqBufReply::CorruptedBuffer(d) ==> d.index < old(
                self,
            ).spec_decoding_queue().spec_infos().len() && old(
                self,
            ).spec_decoding_queue().spec_infos()[d.index as int].state is Queued && d.planes@.len()
                == old(self).spec_decoding_queue().spec_infos()[d.index as int].features.num_planes,
            reply is Dequeued || reply is CorruptedBuffer,
        ensures
            final(self).wf(),
            final(self).spec_is_decoding(),
            match reply {
                DqBufReply::Dequeued(d) => spec_capture_processed(*old(self), d, r, *final(self)),
                DqBufReply::CorruptedBuffer(d) => spec_capture_processed(
                    *old(self),
                    d,
                    r,
                    *final(self),
                ),
                _ => false,
            },
    {
        match &mut self.capture_queue {
            CaptureQueue::Decoding(capture_queue) => {
                let ghost q0 = *capture_queue;
                let ghost dq_reply = reply;
                let mut cap_buf = match capture_queue.try_dequeue(reply) {
                    Ok(b) => b,
                    Err(DQBufError::CorruptedBuffer(b)) => b,
                    Err(_) => vstd::pervasive::unreached(),
                };
                proof {
                    q0.lemma_queue_invariant();
                    match dq_reply {
                        DqBufReply::Dequeued(d) => {
                            assert(q0.spec_infos()[d.index as int].features.num_planes >= 1);
                            assert(cap_buf.spec_data() == d);
                        },
                        DqBufReply::CorruptedBuffer(d) => {
                            assert(q0.spec_infos()[d.index as int].features.num_planes >= 1);
                            assert(cap_buf.spec_data() == d);
                        },
                        _ => {
                            assert(false);
                        },
                    }
                }
                let is_last = cap_buf.data().flags.contains(BUFFER_FLAG_LAST);
                let is_empty = cap_buf.data().planes[0].bytesused == 0;
                if is_empty {
                    // Empty buffers are not passed to the client: put the
                    // slot back and wake the loop so it re-queues it.
                    let ghost mid = *capture_queue;
                    let ghost idx = cap_buf.spec_fuse().spec_index() as int;
                    cap_buf.release(capture_queue);
                    proof {
                        assert(capture_queue.spec_infos() =~= q0.spec_infos().update(
                            idx,
                            crate::buffer::BufferInfo {
                                state: BufferState::Free,
                                features: q0.spec_infos()[idx].features,
                            },
                        ));
                    }
                    self.poller.wake();
                    (None, is_last)
                } else {
                    (Some(cap_buf), is_last)
                }
            },
            CaptureQueue::AwaitingResolution(_) => vstd::pervasive::unreached(),
        }
    }

    /// Give a delivered frame back: its slot returns to the free pool —
    /// unless the CAPTURE side has been reconfigured since, in which case
    /// the stale handle is inert — and the waker fires so the worker's loop
    /// re-queues free buffers.
    pub fn release_capture_buffer(&mut self, buf: DQBuffer)
        requires
            old(self).wf(),
            old(self).spec_is_decoding() && buf.spec_fuse().spec_armed()
                && buf.spec_fuse().spec_generation() == old(
                self,
            ).spec_decoding_queue().spec_generation() && buf.spec_fuse().spec_index() < old(
                self,
            ).spec_decoding_queue().spec_infos().len() ==> !(old(
                self,
            ).spec_decoding_queue().spec_infos()[buf.spec_fuse().spec_index() as int].state
                is Queued),
        ensures
            final(self).wf(),
            final(self).spec_poller().spec_waker_pending(),
            final(self).spec_poller().spec_wakeups() == old(self).spec_poller().spec_wakeups(),
            forall|e: DeviceEvent|
                final(self).spec_poller().spec_enabled(e) == old(self).spec_poller().spec_enabled(
                    e,
                ),
            final(self).spec_is_decoding() == old(self).spec_is_decoding(),
            old(self).spec_is_decoding() ==> crate::queue::spec_triggered(
                buf.spec_fuse(),
                old(self).spec_decoding_queue(),
                final(self).spec_decoding_queue(),
            ),
            !old(self).spec_is_decoding() ==> final(self).spec_capture_unchanged(*old(self)),
    {
        match &mut self.capture_queue {
            CaptureQueue::Decoding(capture_queue) => {
                buf.release(capture_queue);
            },
            CaptureQueue::AwaitingResolution(_) => (),
        }
        self.poller.wake();
    }

    /// Whether the CAPTURE side has reached the decoding sub-state.
    pub fn is_decoding(&self) -> (r: bool)
        ensures
            r == self.spec_is_decoding(),
    {
        match &self.capture_queue {
            CaptureQueue::Decoding(_) => true,
            CaptureQueue::AwaitingResolution(_) => false,
        }
    }

    /// The format the CAPTURE side is decoding into.
    pub fn capture_format(&self) -> (r: Format)
        requires
            self.spec_is_decoding(),
        ensures
            r == self.spec_decoding_queue().spec_format(),
    {
        match &self.capture_queue {
            CaptureQueue::Decoding(q) => q.get_format(),
            CaptureQueue::AwaitingResolution(_) => vstd::pervasive::unreached(),
        }
    }

    /// The worker invariant, stated for callers: while decoding, the
    /// CAPTURE queue is the well-formed multi-planar CAPTURE queue with
    /// MMAP-backed buffers.
    pub proof fn lemma_worker_invariant(&self)
        requires
            self.wf(),
        ensures
            self.spec_capture_type() == QueueType::VideoCaptureMplane,
            self.spec_is_decoding() ==> self.spec_decoding_queue().wf(),
            self.spec_is_decoding() ==> self.spec_decoding_queue().spec_memory_type()
                == MemoryType::Mmap,
    {
    }

    /// Hand the CAPTURE queue out of a worker that has reached the
    /// decoding sub-state, as stopping the session does after the worker's
    /// loop has ended.
    pub fn into_decoding_queue(self) -> (q: Queue<BuffersAllocated>)
        requires
            self.spec_is_decoding(),
        ensures
            q == self.spec_decoding_queue(),
    {
        match self.capture_queue {
            CaptureQueue::Decoding(q) => q,
            CaptureQueue::AwaitingResolution(_) => vstd::pervasive::unreached(),
        }
    }
}

/// Whether a dequeued event signals that the resolution has changed.
pub open spec fn spec_is_resolution_event(entry: Result<Event, i32>) -> bool {
    match entry {
        Ok(Event::SrcChangeEvent(changes)) => changes.spec_contains(SRC_CHANGE_RESOLUTION),
        Err(_) => false,
    }
}

/// How many entries of `events` signal a resolution change.
pub open spec fn spec_resolution_count(events: Seq<Result<Event, i32>>) -> int
    decreases events.len(),
{
    if events.len() == 0 {
        0
    } else {
        (if spec_is_resolution_event(events.first()) {
            1int
        } else {
            0int
        }) + spec_resolution_count(events.drop_first())
    }
}

/// Where processing a batch of dequeued events ends: all processed, after
/// this many resolution changes; or stopped by a failed event dequeue or a
/// failed resolution change, after this many resolution changes.
pub enum EventsOutcome {
    Completed(int),
    DqEventFailed(i32, int),
    UpdateFailed(UpdateCaptureError, int),
}

/// The outcome of processing `events` in order, starting with `k`
/// resolution changes already applied: an event that arrived with an error
/// stops the batch, a resolution-change event applies the next entry of
/// `ios`, and a failing application stops the batch with its error.
pub open spec fn spec_events_outcome(
    events: Seq<Result<Event, i32>>,
    ios: Seq<ResolutionChangeIo>,
    k: int,
) -> EventsOutcome
    decreases events.len(),
{
    if events.len() == 0 {
        EventsOutcome::Completed(k)
    } else {
        match events.first() {
            Err(e) => EventsOutcome::DqEventFailed(e, k),
            Ok(_) => {
                if spec_is_resolution_event(events.first()) {
                    if 0 <= k < ios.len() && spec_io_ok(ios[k]) {
                        spec_events_outcome(events.drop_first(), ios, k + 1)
                    } else if 0 <= k < ios.len() {
                        EventsOutcome::UpdateFailed(spec_io_err(ios[k]), k)
                    } else {
                        EventsOutcome::Completed(k)
                    }
                } else {
                    spec_events_outcome(events.drop_first(), ios, k)
                }
            },
        }
    }
}

impl DecoderThread {
    /// Process a batch of driver events, in the order they were dequeued;
    /// each entry of `events` is one dequeued event or the error its
    /// dequeue returned. Every source-change event with the resolution bit
    /// applies a resolution change, consuming the next entry of `ios`. The
    /// worker state that comes out is the one the last resolution change
    /// configured; an event error or a failing change aborts the batch and
    /// consumes the worker, ending its loop.
    #[verifier::loop_isolation(false)]
    pub fn process_events(self, events: &Vec<Result<Event, i32>>, ios: Vec<ResolutionChangeIo>)
        -> (r: Result<DecoderThread, ProcessEventsError>)
        requires
            self.wf(),
            ios@.len() >= spec_resolution_count(events@),
            forall|k: int| 0 <= k < ios@.len() ==> spec_io_valid(#[trigger] ios@[k]),
            forall|k: int| 1 <= k < ios@.len() ==> spec_io_teardown_ok(#[trigger] ios@[k]),
            self.spec_is_decoding() && ios@.len() > 0 ==> spec_io_teardown_ok(ios@[0]),
            self.spec_capture_generation() + spec_resolution_count(events@) <= u64::MAX,
        ensures
            match spec_events_outcome(events@, ios@, 0) {
                EventsOutcome::Completed(k) => {
                    &&& r matches Ok(w)
                    &&& w.wf()
                    &&& (k == 0 ==> w == self)
                    &&& (k > 0 ==> spec_resolution_applied_n(self, ios@[k - 1], k, w))
                },
                EventsOutcome::DqEventFailed(e, _) => r == Err::<DecoderThread, ProcessEventsError>(
                    ProcessEventsError::DQEvent(e),
                ),
                EventsOutcome::UpdateFailed(ue, _) => r == Err::<
                    DecoderThread,
                    ProcessEventsError,
                >(ProcessEventsError::UpdateCapture(ue)),
            },
    {
        let ghost orig = self;
        let ghost ios0 = ios@;
        let mut ios_pending = ios;
        let mut w = self;
        let n = events.len();
        let mut i: usize = 0;
        let mut k: usize = 0;
        proof {
            assert(events@.skip(0) =~= events@);
        }
        while i < n
            invariant
                orig.wf(),
                w.wf(),
                n == events@.len(),
                0 <= i <= n,
                0 <= k,
                ios_pending@.len() == ios0.len(),
                forall|j: int| k <= j < ios0.len() ==> ios_pending@[j] == ios0[j],
                forall|j: int| 0 <= j < ios0.len() ==> spec_io_valid(#[trigger] ios0[j]),
                forall|j: int| 1 <= j < ios0.len() ==> spec_io_teardown_ok(#[trigger] ios0[j]),
                orig.spec_is_decoding() && ios0.len() > 0 ==> spec_io_teardown_ok(ios0[0]),
                k + spec_resolution_count(events@.skip(i as int)) == spec_resolution_count(
                    events@,
                ),
                ios0.len() >= spec_resolution_count(events@),
                orig.spec_capture_generation() + spec_resolution_count(events@) <= u64::MAX,
                spec_events_outcome(events@, ios0, 0) == spec_events_outcome(
                    events@.skip(i as int),
                    ios0,
                    k as int,
                ),
                k == 0 ==> w == orig,
                k > 0 ==> k - 1 < ios0.len() && spec_resolution_applied_n(
                    orig,
                    ios0[k - 1],
                    k as int,
                    w,
                ),
            decreases n - i,
        {
            proof {
                assert(events@.skip(i as int).first() == events@[i as int]);
                assert(events@.skip(i as int).drop_first() =~= events@.skip(i + 1));
                lemma_resolution_count_nonneg(events@.skip(i + 1));
            }
            let entry = events[i];
            match entry {
                Err(e) => {
                    proof {
                        assert(spec_events_outcome(events@.skip(i as int), ios0, k as int)
                            == EventsOutcome::DqEventFailed(e, k as int));
                    }
                    return Err(ProcessEventsError::DQEvent(e));
                },
                Ok(Event::SrcChangeEvent(changes)) => {
                    if changes.contains(SRC_CHANGE_RESOLUTION) {
                        let mut io_taken = ResolutionChangeIo {
                            streamoff: Ok(()),
                            free: Ok(()),
                            gfmt: Err(0),
                            chosen: Format {
                                width: 0,
                                height: 0,
                                pixelformat: crate::format::PixelFormat(0),
                            },
                            sfmt: Err(0),
                            reqbufs: Err(RequestBuffersError::ReqbufsError(0)),
                            streamon: Ok(()),
                            qbuf: Vec::new(),
                        };
                        ios_pending.set_and_swap(k, &mut io_taken);
                        let ghost w_before = w;
                        proof {
                            assert(io_taken == ios0[k as int]);
                            assert(0 <= k < ios0.len());
                        }
                        w = match w.update_capture_resolution(io_taken) {
                            Ok(next) => next,
                            Err(e) => {
                                proof {
                                    assert(!spec_io_ok(ios0[k as int]));
                                    assert(spec_events_outcome(
                                        events@.skip(i as int),
                                        ios0,
                                        k as int,
                                    ) == EventsOutcome::UpdateFailed(
                                        spec_io_err(ios0[k as int]),
                                        k as int,
                                    ));
                                }
                                return Err(ProcessEventsError::UpdateCapture(e));
                            },
                        };
                        let num_ios = ios_pending.len();
                        proof {
                            assert(spec_resolution_applied_n(w_before, ios0[k as int], 1, w));
                            assert(spec_resolution_applied_n(orig, ios0[k as int], k + 1, w));
                            assert(k < num_ios);
                        }
                        k = k + 1;
                    }
                },
            }
            i += 1;
        }
        proof {
            assert(events@.skip(n as int) =~= Seq::<Result<Event, i32>>::empty());
        }
        Ok(w)
    }
}

/// The resolution count of a batch is never negative.
proof fn lemma_resolution_count_nonneg(events: Seq<Result<Event, i32>>)
    ensures
        spec_resolution_count(events) >= 0,
    decreases events.len(),
{
    if events.len() > 0 {
        lemma_resolution_count_nonneg(events.drop_first());
    }
}

/// A table with no free record counts zero free records.
proof fn lemma_count_free_none(s: Seq<crate::buffer::BufferInfo>)
    requires
        forall|i: int| 0 <= i < s.len() ==> !((#[trigger] s[i]).state is Free),
    ensures
        count_free(s) == 0,
    decreases s.len(),
{
    if s.len() > 0 {
        lemma_count_free_none(s.drop_last());
    }
}

} // verus!
