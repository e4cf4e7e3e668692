//! The decoder session: a typestate machine that carries the client from an
//! opened device to a running decode and back.

use vstd::prelude::*;
use vstd::pervasive::VecAdditionalExecFns;

use crate::buffer::{BufferInfo, BufferState, MemoryType, PlaneHandle, QueryBuffer};
use crate::device::{
    Device, QueueDescription, QueueType, BUFFER_CAP_SUPPORTS_REQUESTS,
};
use crate::format::{Format, FormatDesc, FORMAT_FLAG_COMPRESSED};
use crate::poller::{DeviceEvent, PollEvents, Poller};
use crate::worker::DecoderThread;
use crate::queue::{
    BuffersAllocated, DQBufError, DqBufReply, QBuffer, Queue, QueueInit, RequestBuffersError,
    SFmtError,
};

verus! {

/// Trait implemented by all states of the decoder.
pub trait DecoderState {

}

/// The decoder session. The state parameter fixes which operations are
/// available, so that each phase transition is a one-shot, ownership
/// consuming operation.
pub struct Decoder<S: DecoderState> {
    pub(crate) device: Device,
    pub(crate) state: S,
}

/// Freshly opened: the OUTPUT format has not been chosen yet.
pub struct AwaitingOutputFormat {
    pub(crate) output_queue: Queue<QueueInit>,
    pub(crate) capture_queue: Queue<QueueInit>,
}

impl DecoderState for AwaitingOutputFormat {

}

/// The OUTPUT format is set; buffers have not been allocated.
pub struct AwaitingOutputBuffers {
    pub(crate) output_queue: Queue<QueueInit>,
    pub(crate) capture_queue: Queue<QueueInit>,
}

impl DecoderState for AwaitingOutputBuffers {

}

/// OUTPUT buffers are allocated; decoding has not started.
pub struct OutputBuffersAllocated {
    pub(crate) output_queue: Queue<BuffersAllocated>,
    pub(crate) capture_queue: Queue<QueueInit>,
    pub(crate) poll_wakeups_counter: Option<u64>,
}

impl DecoderState for OutputBuffersAllocated {

}

/// Decoding is running: the worker owns the CAPTURE side and the client
/// feeds OUTPUT buffers through this session.
pub struct Decoding {
    pub(crate) output_queue: Queue<BuffersAllocated>,
    pub(crate) output_poller: Poller,
}

impl DecoderState for Decoding {

}

/// Error returned when a decoder cannot be opened.
#[derive(Clone, Copy, Debug, PartialEq, Eq, Structural)]
pub enum DecoderOpenError {
    /// Opening the device node failed with this code.
    DeviceOpenError(i32),
    /// One of the two queues could not be created.
    CreateQueueError(crate::queue::CreateQueueError),
    /// The device is not a stateful decoder.
    NotAStatefulDecoder,
}

/// Error returned when starting the decoder fails.
#[derive(Clone, Copy, Debug, PartialEq, Eq, Structural)]
pub enum StartDecoderError {
    /// Subscribing to the source-change event failed with this code.
    SubscribeEventError(i32),
    /// Starting the OUTPUT stream failed.
    StreamOnError(crate::queue::StreamOnError),
}

/// Error code from the decoder stop command.
#[derive(Clone, Copy, Debug, PartialEq, Eq, Structural)]
pub struct DecoderCmdError(pub i32);

/// Whether some listed format carries compressed data.
pub open spec fn spec_has_compressed(formats: Seq<FormatDesc>) -> bool {
    exists|i: int|
        0 <= i < formats.len() && (#[trigger] formats[i]).flags.spec_contains(
            FORMAT_FLAG_COMPRESSED,
        )
}

/// Whether some listed format carries uncompressed data.
pub open spec fn spec_has_uncompressed(formats: Seq<FormatDesc>) -> bool {
    exists|i: int|
        0 <= i < formats.len() && !(#[trigger] formats[i]).flags.spec_contains(
            FORMAT_FLAG_COMPRESSED,
        )
}

/// The stateful-decoder validation: the OUTPUT queue offers at least one
/// compressed format, the CAPTURE queue at least one uncompressed format,
/// and the OUTPUT queue does not accept request-based submission.
pub open spec fn spec_is_stateful_decoder(
    output_description: QueueDescription,
    capture_description: QueueDescription,
) -> bool {
    &&& spec_has_compressed(output_description.formats@)
    &&& spec_has_uncompressed(capture_description.formats@)
    &&& !output_description.capabilities.spec_contains(BUFFER_CAP_SUPPORTS_REQUESTS)
}

/// Whether some format of `formats` has (or lacks, per `want`) the
/// compressed flag.
fn scan_compressed(formats: &Vec<FormatDesc>, want: bool) -> (r: bool)
    ensures
        want ==> r == spec_has_compressed(formats@),
        !want ==> r == spec_has_uncompressed(formats@),
{
    let mut i: usize = 0;
    while i < formats.len()
        invariant
            i <= formats@.len(),
            forall|j: int|
                0 <= j < i ==> (#[trigger] formats@[j]).flags.spec_contains(
                    FORMAT_FLAG_COMPRESSED,
                ) != want,
        decreases formats@.len() - i,
    {
        if formats[i].flags.contains(FORMAT_FLAG_COMPRESSED) == want {
            return true;
        }
        i += 1;
    }
    false
}

impl Decoder<AwaitingOutputFormat> {
    /// Session well-formedness: a sound device registry holding the two
    /// multi-planar queue types this session owns.
    pub closed spec fn wf(&self) -> bool {
        &&& self.device.wf()
        &&& self.state.output_queue.spec_type() == QueueType::VideoOutputMplane
        &&& self.state.capture_queue.spec_type() == QueueType::VideoCaptureMplane
    }

    /// The OUTPUT queue of the session.
    pub closed spec fn spec_output_queue(&self) -> Queue<QueueInit> {
        self.state.output_queue
    }

    /// The CAPTURE queue of the session.
    pub closed spec fn spec_capture_queue(&self) -> Queue<QueueInit> {
        self.state.capture_queue
    }

    /// Open a decoder session. `device_open` is the outcome of opening the
    /// device node in non-blocking mode; the two descriptions carry what
    /// the driver reported when each multi-planar queue was probed. The
    /// device must be a stateful decoder: its OUTPUT queue takes compressed
    /// input without the request interface, and its CAPTURE queue produces
    /// raw frames.
    pub fn open(
        device_open: Result<(), i32>,
        output_description: Result<QueueDescription, i32>,
        capture_description: Result<QueueDescription, i32>,
    ) -> (r: Result<Decoder<AwaitingOutputFormat>, DecoderOpenError>)
        ensures
            match (device_open, output_description, capture_description) {
                (Err(e), _, _) => r == Err::<Decoder<AwaitingOutputFormat>, DecoderOpenError>(
                    DecoderOpenError::DeviceOpenError(e),
                ),
                (Ok(()), _, Err(e)) => r == Err::<Decoder<AwaitingOutputFormat>, DecoderOpenError>(
                    DecoderOpenError::CreateQueueError(
                        crate::queue::CreateQueueError::ReqbufsError(e),
                    ),
                ),
                (Ok(()), Err(e), Ok(_)) => r == Err::<
                    Decoder<AwaitingOutputFormat>,
                    DecoderOpenError,
                >(
                    DecoderOpenError::CreateQueueError(
                        crate::queue::CreateQueueError::ReqbufsError(e),
                    ),
                ),
                (Ok(()), Ok(output_desc), Ok(capture_desc)) => {
                    if spec_is_stateful_decoder(output_desc, capture_desc) {
                        &&& r matches Ok(d)
                        &&& d.wf()
                        &&& d.spec_output_queue().spec_capabilities() == output_desc.capabilities
                        &&& d.spec_output_queue().spec_formats() == output_desc.formats@
                        &&& d.spec_output_queue().spec_format() == output_desc.current_format
                        &&& d.spec_capture_queue().spec_capabilities() == capture_desc.capabilities
                        &&& d.spec_capture_queue().spec_formats() == capture_desc.formats@
                        &&& d.spec_capture_queue().spec_format() == capture_desc.current_format
                    } else {
                        r == Err::<Decoder<AwaitingOutputFormat>, DecoderOpenError>(
                            DecoderOpenError::NotAStatefulDecoder,
                        )
                    }
                },
            },
    {
        if let Err(e) = device_open {
            return Err(DecoderOpenError::DeviceOpenError(e));
        }
        let mut device = Device::new();

        // Check that the device is indeed a stateful decoder.
        let capture_queue = match Queue::get_capture_mplane_queue(&mut device, capture_description)
        {
            Ok(q) => q,
            Err(crate::queue::CreateQueueError::ReqbufsError(e)) => {
                return Err(
                    DecoderOpenError::CreateQueueError(
                        crate::queue::CreateQueueError::ReqbufsError(e),
                    ),
                );
            },
            Err(crate::queue::CreateQueueError::AlreadyBorrowed) => {
                proof {
                    assert(false);
                }
                return Err(
                    DecoderOpenError::CreateQueueError(
                        crate::queue::CreateQueueError::AlreadyBorrowed,
                    ),
                );
            },
        };
        let output_queue = match Queue::get_output_mplane_queue(&mut device, output_description) {
            Ok(q) => q,
            Err(crate::queue::CreateQueueError::ReqbufsError(e)) => {
                return Err(
                    DecoderOpenError::CreateQueueError(
                        crate::queue::CreateQueueError::ReqbufsError(e),
                    ),
                );
            },
            Err(crate::queue::CreateQueueError::AlreadyBorrowed) => {
                proof {
                    assert(false);
                }
                return Err(
                    DecoderOpenError::CreateQueueError(
                        crate::queue::CreateQueueError::AlreadyBorrowed,
                    ),
                );
            },
        };

        // On a decoder, the OUTPUT formats are compressed, but the CAPTURE
        // ones are not.
        if !scan_compressed(output_queue.format_iter(), true) {
            return Err(DecoderOpenError::NotAStatefulDecoder);
        }
        if !scan_compressed(capture_queue.format_iter(), false) {
            return Err(DecoderOpenError::NotAStatefulDecoder);
        }

        // A stateful decoder does not expose the requests capability on the
        // OUTPUT queue; a stateless one does.
        if output_queue.get_capabilities().contains(BUFFER_CAP_SUPPORTS_REQUESTS) {
            return Err(DecoderOpenError::NotAStatefulDecoder);
        }

        Ok(Decoder { device, state: AwaitingOutputFormat { output_queue, capture_queue } })
    }

    /// Apply the client's chosen OUTPUT format; `reply` carries the format
    /// the driver actually applied. On success the session is ready for
    /// buffer allocation.
    pub fn set_output_format(self, format: Format, reply: Result<Format, i32>) -> (r: Result<
        Decoder<AwaitingOutputBuffers>,
        SFmtError,
    >)
        requires
            self.wf(),
        ensures
            match reply {
                Ok(adjusted) => {
                    &&& r matches Ok(d)
                    &&& d.wf()
                    &&& d.spec_output_queue().spec_format() == adjusted
                    &&& d.spec_output_queue().spec_capabilities()
                        == self.spec_output_queue().spec_capabilities()
                    &&& d.spec_output_queue().spec_formats()
                        == self.spec_output_queue().spec_formats()
                    &&& d.spec_output_queue().spec_generation()
                        == self.spec_output_queue().spec_generation()
                    &&& d.spec_capture_queue() == self.spec_capture_queue()
                },
                Err(e) => r == Err::<Decoder<AwaitingOutputBuffers>, SFmtError>(SFmtError(e)),
            },
    {
        let mut output_queue = self.state.output_queue;
        match output_queue.set_format(format, reply) {
            Ok(_adjusted) => Ok(
                Decoder {
                    device: self.device,
                    state: AwaitingOutputBuffers {
                        output_queue,
                        capture_queue: self.state.capture_queue,
                    },
                },
            ),
            Err(e) => Err(e),
        }
    }
}

impl Decoder<AwaitingOutputBuffers> {
    /// Session well-formedness: a sound device registry holding the two
    /// multi-planar queue types this session owns.
    pub closed spec fn wf(&self) -> bool {
        &&& self.device.wf()
        &&& self.state.output_queue.spec_type() == QueueType::VideoOutputMplane
        &&& self.state.capture_queue.spec_type() == QueueType::VideoCaptureMplane
    }

    /// The OUTPUT queue of the session.
    pub closed spec fn spec_output_queue(&self) -> Queue<QueueInit> {
        self.state.output_queue
    }

    /// The CAPTURE queue of the session.
    pub closed spec fn spec_capture_queue(&self) -> Queue<QueueInit> {
        self.state.capture_queue
    }

    /// Allocate `num_buffers` userptr buffers on the OUTPUT queue; `reply`
    /// carries one record per slot the driver actually allocated, or the
    /// allocation error.
    pub fn allocate_output_buffers(
        self,
        num_buffers: usize,
        reply: Result<Vec<QueryBuffer>, RequestBuffersError>,
    ) -> (r: Result<Decoder<OutputBuffersAllocated>, RequestBuffersError>)
        requires
            self.wf(),
            self.spec_output_queue().spec_generation() < u64::MAX,
            reply matches Ok(features) ==> forall|i: int|
                0 <= i < features@.len() ==> (#[trigger] features@[i]).index == i
                    && features@[i].num_planes >= 1,
        ensures
            match reply {
                Ok(features) => {
                    &&& r matches Ok(d)
                    &&& d.wf()
                    &&& d.spec_output_queue().wf()
                    &&& d.spec_output_queue().spec_formats()
                        == self.spec_output_queue().spec_formats()
                    &&& d.spec_output_queue().spec_capabilities()
                        == self.spec_output_queue().spec_capabilities()
                    &&& d.spec_output_queue().spec_format()
                        == self.spec_output_queue().spec_format()
                    &&& d.spec_output_queue().spec_memory_type() == MemoryType::UserPtr
                    &&& !d.spec_output_queue().spec_streaming()
                    &&& d.spec_output_queue().spec_num_queued() == 0
                    &&& d.spec_output_queue().spec_infos().len() == features@.len()
                    &&& forall|i: int|
                        0 <= i < features@.len() ==> #[trigger] d.spec_output_queue().spec_infos()[i]
                            == (BufferInfo { state: BufferState::Free, features: features@[i] })
                    &&& d.spec_capture_queue() == self.spec_capture_queue()
                    &&& d.spec_poll_wakeups_counter() is None
                },
                Err(e) => r == Err::<Decoder<OutputBuffersAllocated>, RequestBuffersError>(e),
            },
    {
        #[verifier::truncate]
        let count = num_buffers as u32;
        let output_queue = match self.state.output_queue.request_buffers(
            MemoryType::UserPtr,
            count,
            reply,
        ) {
            Ok(q) => q,
            Err(e) => {
                return Err(e);
            },
        };
        Ok(
            Decoder {
                device: self.device,
                state: OutputBuffersAllocated {
                    output_queue,
                    capture_queue: self.state.capture_queue,
                    poll_wakeups_counter: None,
                },
            },
        )
    }
}

impl Decoder<OutputBuffersAllocated> {
    /// Session well-formedness: a sound device registry, the two
    /// multi-planar queue types, and a well-formed OUTPUT buffer table.
    pub closed spec fn wf(&self) -> bool {
        &&& self.device.wf()
        &&& self.state.output_queue.spec_type() == QueueType::VideoOutputMplane
        &&& self.state.capture_queue.spec_type() == QueueType::VideoCaptureMplane
        &&& self.state.output_queue.wf()
    }

    /// The OUTPUT queue of the session.
    pub closed spec fn spec_output_queue(&self) -> Queue<BuffersAllocated> {
        self.state.output_queue
    }

    /// The CAPTURE queue of the session.
    pub closed spec fn spec_capture_queue(&self) -> Queue<QueueInit> {
        self.state.capture_queue
    }

    /// The injected wakeup counter, if any.
    pub closed spec fn spec_poll_wakeups_counter(&self) -> Option<u64> {
        self.state.poll_wakeups_counter
    }

    /// Inject a wakeup counter that both pollers of the session will count
    /// their poll wakeups on, for observability.
    pub fn set_poll_counter(self, poll_wakeups_counter: u64) -> (d: Decoder<
        OutputBuffersAllocated,
    >)
        ensures
            d.spec_poll_wakeups_counter() == Some(poll_wakeups_counter),
            d.spec_output_queue() == self.spec_output_queue(),
            d.spec_capture_queue() == self.spec_capture_queue(),
            self.wf() ==> d.wf(),
    {
        Decoder {
            device: self.device,
            state: OutputBuffersAllocated {
                poll_wakeups_counter: Some(poll_wakeups_counter),
                ..self.state
            },
        }
    }
}

impl Decoder<OutputBuffersAllocated> {
    /// Start decoding: subscribe to the source-change event, build the
    /// worker state that owns the CAPTURE side, and stream the OUTPUT queue
    /// on. `subscribe_reply` and `streamon_reply` carry the driver's
    /// answers. Returns the running session and the worker state the
    /// caller's decoder loop drives.
    pub fn start(self, subscribe_reply: Result<(), i32>, streamon_reply: Result<(), i32>) -> (r:
        Result<(Decoder<Decoding>, DecoderThread), StartDecoderError>)
        requires
            self.wf(),
        ensures
            match (subscribe_reply, streamon_reply) {
                (Err(e), _) => r matches Err(se) && se == StartDecoderError::SubscribeEventError(
                    e,
                ),
                (Ok(()), Err(e)) => r matches Err(se) && se == StartDecoderError::StreamOnError(
                    crate::queue::StreamOnError(e),
                ),
                (Ok(()), Ok(())) => {
                    &&& r matches Ok(pair)
                    &&& pair.0.wf()
                    &&& pair.0.spec_output_queue().spec_streaming()
                    &&& pair.0.spec_output_queue().spec_infos() == self.spec_output_queue().spec_infos()
                    &&& pair.0.spec_output_queue().spec_num_queued()
                        == self.spec_output_queue().spec_num_queued()
                    &&& pair.0.spec_output_queue().spec_base()
                        == self.spec_output_queue().spec_base()
                    &&& pair.0.spec_output_poller().spec_enabled(DeviceEvent::OutputReady)
                    &&& !pair.0.spec_output_poller().spec_enabled(DeviceEvent::CaptureReady)
                    &&& !pair.0.spec_output_poller().spec_enabled(DeviceEvent::V4L2Event)
                    &&& pair.0.spec_output_poller().spec_wakeups()
                        == self.spec_poll_wakeups_counter()
                    &&& pair.1.wf()
                    &&& !pair.1.spec_is_decoding()
                    &&& pair.1.spec_awaiting_queue() == self.spec_capture_queue()
                    &&& pair.1.spec_poller().spec_enabled(DeviceEvent::V4L2Event)
                    &&& !pair.1.spec_poller().spec_enabled(DeviceEvent::CaptureReady)
                    &&& pair.1.spec_poller().spec_wakeups() == self.spec_poll_wakeups_counter()
                },
            },
    {
        // We are interested in all resolution change events.
        if let Err(e) = subscribe_reply {
            return Err(StartDecoderError::SubscribeEventError(e));
        }
        let mut output_poller = Poller::new();
        output_poller.enable_event(DeviceEvent::OutputReady);

        let mut decoder_thread = DecoderThread::new(self.state.capture_queue);

        if let Some(counter) = self.state.poll_wakeups_counter {
            output_poller.set_poll_counter(counter);
            decoder_thread.set_poll_counter(counter);
        }

        let mut output_queue = self.state.output_queue;
        match output_queue.stream_on(streamon_reply) {
            Ok(()) => (),
            Err(e) => {
                return Err(StartDecoderError::StreamOnError(e));
            },
        }

        Ok(
            (
                Decoder { device: self.device, state: Decoding { output_queue, output_poller } },
                decoder_thread,
            ),
        )
    }
}

/// What one drain of completed OUTPUT buffers does: the buffers the driver
/// reports done return to the free pool and their plane handles are
/// collected in dequeue order, until the queue is empty, the driver reports
/// nothing more, or an error stops the drain.
pub struct OutputDrain {
    /// The buffer table after the drain.
    pub infos: Seq<BufferInfo>,
    /// The queued counter after the drain.
    pub num_queued: int,
    /// The reclaimed plane handles, in dequeue order.
    pub completed: Seq<Vec<PlaneHandle>>,
    /// What stopped the drain.
    pub stop: DrainStop,
    /// Whether every processed reply was consistent with the table.
    pub ok: bool,
}

/// What stopped a drain of completed OUTPUT buffers.
pub enum DrainStop {
    /// No buffer is queued any more.
    Drained,
    /// The driver reported nothing more to dequeue.
    NotReady,
    /// The driver reported the end of the stream.
    Eos,
    /// A dequeue failed with this code.
    Ioctl(i32),
    /// A dequeue returned this corrupted buffer, whose slot holds these
    /// handles; the drain stops and the buffer travels inside the error.
    Corrupted(crate::buffer::DqBufData, Vec<PlaneHandle>),
}

/// The drain fold: process `replies` in order while buffers remain queued.
pub open spec fn spec_drain(
    infos: Seq<BufferInfo>,
    num_queued: int,
    replies: Seq<DqBufReply>,
) -> OutputDrain
    decreases replies.len(),
{
    if num_queued <= 0 {
        OutputDrain {
            infos,
            num_queued,
            completed: Seq::empty(),
            stop: DrainStop::Drained,
            ok: true,
        }
    } else if replies.len() == 0 {
        OutputDrain {
            infos,
            num_queued,
            completed: Seq::empty(),
            stop: DrainStop::NotReady,
            ok: true,
        }
    } else {
        match replies.first() {
            DqBufReply::NotReady => OutputDrain {
                infos,
                num_queued,
                completed: Seq::empty(),
                stop: DrainStop::NotReady,
                ok: true,
            },
            DqBufReply::Eos => OutputDrain {
                infos,
                num_queued,
                completed: Seq::empty(),
                stop: DrainStop::Eos,
                ok: true,
            },
            DqBufReply::IoctlError(code) => OutputDrain {
                infos,
                num_queued,
                completed: Seq::empty(),
                stop: DrainStop::Ioctl(code),
                ok: true,
            },
            DqBufReply::Dequeued(d) => {
                if spec_reply_fits(infos, d) {
                    let handles = match infos[d.index as int].state {
                        BufferState::Queued(h) => h,
                        _ => vstd::pervasive::arbitrary(),
                    };
                    let rest = spec_drain(
                        infos.update(
                            d.index as int,
                            BufferInfo {
                                state: BufferState::Free,
                                features: infos[d.index as int].features,
                            },
                        ),
                        num_queued - 1,
                        replies.drop_first(),
                    );
                    OutputDrain {
                        infos: rest.infos,
                        num_queued: rest.num_queued,
                        completed: seq![handles] + rest.completed,
                        stop: rest.stop,
                        ok: rest.ok,
                    }
                } else {
                    OutputDrain {
                        infos,
                        num_queued,
                        completed: Seq::empty(),
                        stop: DrainStop::NotReady,
                        ok: false,
                    }
                }
            },
            DqBufReply::CorruptedBuffer(d) => {
                if spec_reply_fits(infos, d) {
                    let handles = match infos[d.index as int].state {
                        BufferState::Queued(h) => h,
                        _ => vstd::pervasive::arbitrary(),
                    };
                    OutputDrain {
                        infos: infos.update(
                            d.index as int,
                            BufferInfo {
                                state: BufferState::Dequeued,
                                features: infos[d.index as int].features,
                            },
                        ),
                        num_queued: num_queued - 1,
                        completed: Seq::empty(),
                        stop: DrainStop::Corrupted(d, handles),
                        ok: true,
                    }
                } else {
                    OutputDrain {
                        infos,
                        num_queued,
                        completed: Seq::empty(),
                        stop: DrainStop::NotReady,
                        ok: false,
                    }
                }
            },
        }
    }
}

/// Once every OUTPUT buffer is queued, a single completion reported by the
/// waking poll unblocks the acquisition: the drain returns that buffer to
/// the free pool, so a free slot exists for the reservation that follows.
pub proof fn lemma_completion_unblocks_acquisition(
    infos: Seq<BufferInfo>,
    num_queued: int,
    d: crate::buffer::DqBufData,
)
    requires
        num_queued > 0,
        spec_reply_fits(infos, d),
    ensures
        ({
            let dr = spec_drain(
                infos,
                num_queued,
                seq![DqBufReply::Dequeued(d), DqBufReply::NotReady],
            );
            &&& dr.ok
            &&& dr.infos[d.index as int].state is Free
            &&& exists|i: int|
                0 <= i < dr.infos.len() && (#[trigger] dr.infos[i]).state is Free
        }),
{
    let replies = seq![DqBufReply::Dequeued(d), DqBufReply::NotReady];
    let freed = infos.update(
        d.index as int,
        BufferInfo { state: BufferState::Free, features: infos[d.index as int].features },
    );
    assert(replies.first() == DqBufReply::Dequeued(d));
    assert(replies.drop_first() =~= seq![DqBufReply::NotReady]);
    let inner = spec_drain(freed, num_queued - 1, seq![DqBufReply::NotReady]);
    assert(seq![DqBufReply::NotReady].first() == DqBufReply::NotReady);
    assert(inner.infos == freed);
    let dr = spec_drain(infos, num_queued, replies);
    assert(dr.infos == freed);
    assert(dr.infos[d.index as int].state is Free);
}

/// Whether a dequeue report is consistent with the buffer table: it names a
/// queued slot and one payload entry per plane.
pub open spec fn spec_reply_fits(infos: Seq<BufferInfo>, d: crate::buffer::DqBufData) -> bool {
    &&& d.index < infos.len()
    &&& infos[d.index as int].state is Queued
    &&& d.planes@.len() == infos[d.index as int].features.num_planes
}

impl Decoder<Decoding> {
    /// Session well-formedness while decoding.
    pub closed spec fn wf(&self) -> bool {
        &&& self.device.wf()
        &&& self.state.output_queue.spec_type() == QueueType::VideoOutputMplane
        &&& self.state.output_queue.wf()
    }

    /// The OUTPUT queue of the session.
    pub closed spec fn spec_output_queue(&self) -> Queue<BuffersAllocated> {
        self.state.output_queue
    }

    /// The poller the session blocks on while waiting for an OUTPUT buffer.
    pub closed spec fn spec_output_poller(&self) -> Poller {
        self.state.output_poller
    }

    /// The number of OUTPUT buffers allocated on this session.
    pub fn num_output_buffers(&self) -> (r: usize)
        ensures
            r == self.spec_output_queue().spec_infos().len(),
    {
        self.state.output_queue.num_buffers()
    }

    /// The OUTPUT format in use.
    pub fn get_output_format(&self) -> (r: Format)
        ensures
            r == self.spec_output_queue().spec_format(),
    {
        self.state.output_queue.get_format()
    }

    /// Stop the session: issue the decoder stop command, take the worker
    /// state back after its loop has ended on the last buffer, and stream
    /// its CAPTURE queue off. `cmd_reply` and `streamoff_reply` carry the
    /// driver's answers.
    pub fn stop(
        self,
        worker: DecoderThread,
        cmd_reply: Result<(), i32>,
        streamoff_reply: Result<(), i32>,
    ) -> (r: Result<(), DecoderCmdError>)
        requires
            worker.wf(),
            worker.spec_is_decoding(),
            cmd_reply is Ok ==> streamoff_reply is Ok,
        ensures
            match cmd_reply {
                Ok(()) => r == Ok::<(), DecoderCmdError>(()),
                Err(e) => r == Err::<(), DecoderCmdError>(DecoderCmdError(e)),
            },
    {
        if let Err(e) = cmd_reply {
            return Err(DecoderCmdError(e));
        }
        proof {
            worker.lemma_worker_invariant();
        }
        let mut capture_queue = worker.into_decoding_queue();
        match capture_queue.stream_off(streamoff_reply) {
            Ok(_canceled) => (),
            Err(_) => vstd::pervasive::unreached(),
        }
        Ok(())
    }

    /// Dequeue and release the OUTPUT buffers the driver is done with,
    /// collecting their reclaimed plane handles in dequeue order; `replies`
    /// holds the driver's successive dequeue answers. The drain stops once
    /// no buffer is queued or the driver reports nothing more; an error
    /// stops it and is returned, a corrupted buffer travelling inside it.
    #[verifier::loop_isolation(false)]
    pub fn dequeue_output_buffers(
        &mut self,
        replies: Vec<DqBufReply>,
        completed: &mut Vec<Vec<PlaneHandle>>,
    ) -> (r: Result<(), DQBufError>)
        requires
            old(self).wf(),
            spec_drain(
                old(self).spec_output_queue().spec_infos(),
                old(self).spec_output_queue().spec_num_queued(),
                replies@,
            ).ok,
        ensures
            final(self).wf(),
            final(self).spec_output_poller() == old(self).spec_output_poller(),
            final(self).spec_output_queue().spec_base() == old(
                self,
            ).spec_output_queue().spec_base(),
            final(self).spec_output_queue().spec_streaming() == old(
                self,
            ).spec_output_queue().spec_streaming(),
            final(self).spec_output_queue().spec_memory_type() == old(
                self,
            ).spec_output_queue().spec_memory_type(),
            ({
                let d = spec_drain(
                    old(self).spec_output_queue().spec_infos(),
                    old(self).spec_output_queue().spec_num_queued(),
                    replies@,
                );
                &&& final(self).spec_output_queue().spec_infos() == d.infos
                &&& final(self).spec_output_queue().spec_num_queued() == d.num_queued
                &&& final(completed)@ == old(completed)@ + d.completed
                &&& match d.stop {
                    DrainStop::Drained => r == Ok::<(), DQBufError>(()),
                    DrainStop::NotReady => r == Ok::<(), DQBufError>(()),
                    DrainStop::Eos => r matches Err(e) && e is Eos,
                    DrainStop::Ioctl(code) => r matches Err(e) && (e matches
                        DQBufError::IoctlError(c2) && c2 == code),
                    DrainStop::Corrupted(dd, h) => r matches Err(e) && (e matches
                        DQBufError::CorruptedBuffer(b) && {
                        &&& b.spec_data() == dd
                        &&& b.spec_handles() == Some(h)
                        &&& b.spec_fuse().spec_armed()
                        &&& b.spec_fuse().spec_index() == dd.index
                        &&& b.spec_fuse().spec_generation() == old(
                            self,
                        ).spec_output_queue().spec_generation()
                    }),
                }
            }),
    {
        let ghost infos0 = self.state.output_queue.spec_infos();
        let ghost nq0 = self.state.output_queue.spec_num_queued();
        let ghost replies0 = replies@;
        let ghost d0 = spec_drain(infos0, nq0, replies0);
        let ghost completed0 = completed@;
        let mut replies_pending = replies;
        let n = replies_pending.len();
        let mut i: usize = 0;
        proof {
            assert(replies0.skip(0) =~= replies0);
            assert(completed0 + d0.completed =~= completed@ + d0.completed);
        }
        loop
            invariant
                self.device == old(self).device,
                self.state.output_queue.wf(),
                self.state.output_poller == old(self).state.output_poller,
                self.state.output_queue.spec_base() == old(self).spec_output_queue().spec_base(),
                self.state.output_queue.spec_streaming() == old(
                    self,
                ).spec_output_queue().spec_streaming(),
                self.state.output_queue.spec_memory_type() == old(
                    self,
                ).spec_output_queue().spec_memory_type(),
                0 <= i <= n,
                replies_pending@.len() == n,
                forall|j: int| i <= j < n ==> replies_pending@[j] == replies0[j],
                ({
                    let di = spec_drain(
                        self.state.output_queue.spec_infos(),
                        self.state.output_queue.spec_num_queued(),
                        replies0.skip(i as int),
                    );
                    &&& d0.infos == di.infos
                    &&& d0.num_queued == di.num_queued
                    &&& d0.stop == di.stop
                    &&& d0.ok == di.ok
                    &&& completed0 + d0.completed == completed@ + di.completed
                }),
            decreases n - i,
        {
            let ghost di = spec_drain(
                self.state.output_queue.spec_infos(),
                self.state.output_queue.spec_num_queued(),
                replies0.skip(i as int),
            );
            let num_queued = self.state.output_queue.num_queued_buffers();
            if num_queued == 0 {
                proof {
                    assert(completed0 + d0.completed =~= completed@);
                }
                return Ok(());
            }
            if i >= n {
                proof {
                    assert(replies0.skip(i as int) =~= Seq::<DqBufReply>::empty());
                    assert(completed0 + d0.completed =~= completed@);
                }
                return Ok(());
            }
            proof {
                assert(replies0.skip(i as int).first() == replies0[i as int]);
                assert(replies0.skip(i as int).drop_first() =~= replies0.skip(i + 1));
            }
            let mut taken = DqBufReply::NotReady;
            replies_pending.set_and_swap(i, &mut taken);
            let ghost head = self.state.output_queue;
            match self.state.output_queue.try_dequeue(taken) {
                Ok(mut buf) => {
                    let handles = match buf.take_handles() {
                        Some(h) => h,
                        None => vstd::pervasive::unreached(),
                    };
                    completed.push(handles);
                    buf.release(&mut self.state.output_queue);
                    i += 1;
                    proof {
                        let idx = buf.spec_fuse().spec_index() as int;
                        assert(self.state.output_queue.spec_infos() =~= head.spec_infos().update(
                            idx,
                            BufferInfo {
                                state: BufferState::Free,
                                features: head.spec_infos()[idx].features,
                            },
                        ));
                        assert(completed0 + d0.completed =~= completed@ + spec_drain(
                            self.state.output_queue.spec_infos(),
                            self.state.output_queue.spec_num_queued(),
                            replies0.skip(i as int),
                        ).completed);
                    }
                },
                Err(DQBufError::NotReady) => {
                    proof {
                        assert(completed0 + d0.completed =~= completed@);
                    }
                    return Ok(());
                },
                Err(e) => {
                    proof {
                        assert(completed0 + d0.completed =~= completed@ + di.completed);
                    }
                    return Err(e);
                },
            }
        }
    }
}

/// Error returned when no OUTPUT buffer can be handed out.
#[derive(Debug)]
pub enum GetBufferError {
    /// Draining completed OUTPUT buffers failed.
    DequeueError(DQBufError),
    /// The blocking poll failed with this code.
    PollError(i32),
    /// No buffer is free even after draining.
    GetFreeBufferError(crate::queue::GetFreeBufferError),
}

/// What the opportunistic drain before acquiring a buffer does: completed
/// buffers return to the free pool, their handles discarded; the first
/// reply that is not a completion ends the drain, a corrupted completion
/// freeing its buffer on the way out.
pub struct DiscardDrain {
    pub infos: Seq<BufferInfo>,
    pub num_queued: int,
    pub ok: bool,
}

/// The discard-drain fold over the driver's successive dequeue answers.
pub open spec fn spec_discard(
    infos: Seq<BufferInfo>,
    num_queued: int,
    replies: Seq<DqBufReply>,
) -> DiscardDrain
    decreases replies.len(),
{
    if replies.len() == 0 {
        DiscardDrain { infos, num_queued, ok: true }
    } else {
        match replies.first() {
            DqBufReply::Dequeued(d) => {
                if spec_reply_fits(infos, d) {
                    spec_discard(
                        infos.update(
                            d.index as int,
                            BufferInfo {
                                state: BufferState::Free,
                                features: infos[d.index as int].features,
                            },
                        ),
                        num_queued - 1,
                        replies.drop_first(),
                    )
                } else {
                    DiscardDrain { infos, num_queued, ok: false }
                }
            },
            DqBufReply::CorruptedBuffer(d) => {
                if spec_reply_fits(infos, d) {
                    DiscardDrain {
                        infos: infos.update(
                            d.index as int,
                            BufferInfo {
                                state: BufferState::Free,
                                features: infos[d.index as int].features,
                            },
                        ),
                        num_queued: num_queued - 1,
                        ok: true,
                    }
                } else {
                    DiscardDrain { infos, num_queued, ok: false }
                }
            },
            _ => DiscardDrain { infos, num_queued, ok: true },
        }
    }
}

/// What acquiring a free OUTPUT buffer after the discard drain over
/// `drain_replies` yields: the free slot with the lowest index is reserved
/// and handed out, or no slot is free and the caller learns so.
pub open spec fn spec_acquired(
    infos1: Seq<BufferInfo>,
    nq1: int,
    drain_replies: Seq<DqBufReply>,
    generation: u64,
    r: Result<QBuffer, GetBufferError>,
    q1: Queue<BuffersAllocated>,
) -> bool {
    let dd = spec_discard(infos1, nq1, drain_replies);
    &&& q1.spec_num_queued() == dd.num_queued
    &&& if exists|i: int| 0 <= i < dd.infos.len() && (#[trigger] dd.infos[i]).state is Free {
        &&& r matches Ok(b)
        &&& b.spec_index() < dd.infos.len()
        &&& dd.infos[b.spec_index() as int].state is Free
        &&& forall|j: int| 0 <= j < b.spec_index() ==> !((#[trigger] dd.infos[j]).state is Free)
        &&& b.spec_generation() == generation
        &&& b.valid_for(q1)
        &&& q1.spec_infos() == dd.infos.update(
            b.spec_index() as int,
            BufferInfo {
                state: BufferState::PreQueue,
                features: dd.infos[b.spec_index() as int].features,
            },
        )
    } else {
        &&& r matches Err(e)
        &&& e == GetBufferError::GetFreeBufferError(
            crate::queue::GetFreeBufferError::NoFreeBuffer,
        )
        &&& q1.spec_infos() == dd.infos
    }
}

impl Decoder<Decoding> {
    /// Opportunistically drain any ready OUTPUT completions, discarding
    /// their handles, then reserve the free OUTPUT buffer with the lowest
    /// index; `replies` holds the driver's successive dequeue answers.
    #[verifier::loop_isolation(false)]
    pub fn try_get_free_buffer(&mut self, replies: Vec<DqBufReply>) -> (r: Result<
        QBuffer,
        GetBufferError,
    >)
        requires
            old(self).wf(),
            spec_discard(
                old(self).spec_output_queue().spec_infos(),
                old(self).spec_output_queue().spec_num_queued(),
                replies@,
            ).ok,
        ensures
            final(self).wf(),
            final(self).spec_output_poller() == old(self).spec_output_poller(),
            final(self).spec_output_queue().spec_base() == old(
                self,
            ).spec_output_queue().spec_base(),
            final(self).spec_output_queue().spec_streaming() == old(
                self,
            ).spec_output_queue().spec_streaming(),
            final(self).spec_output_queue().spec_memory_type() == old(
                self,
            ).spec_output_queue().spec_memory_type(),
            spec_acquired(
                old(self).spec_output_queue().spec_infos(),
                old(self).spec_output_queue().spec_num_queued(),
                replies@,
                old(self).spec_output_queue().spec_generation(),
                r,
                final(self).spec_output_queue(),
            ),
    {
        let ghost infos0 = self.state.output_queue.spec_infos();
        let ghost nq0 = self.state.output_queue.spec_num_queued();
        let ghost replies0 = replies@;
        let ghost dd0 = spec_discard(infos0, nq0, replies0);
        let mut replies_pending = replies;
        let n = replies_pending.len();
        let mut i: usize = 0;
        proof {
            assert(replies0.skip(0) =~= replies0);
        }
        loop
            invariant
                self.device == old(self).device,
                self.state.output_queue.wf(),
                self.state.output_poller == old(self).state.output_poller,
                self.state.output_queue.spec_base() == old(self).spec_output_queue().spec_base(),
                self.state.output_queue.spec_streaming() == old(
                    self,
                ).spec_output_queue().spec_streaming(),
                self.state.output_queue.spec_memory_type() == old(
                    self,
                ).spec_output_queue().spec_memory_type(),
                0 <= i <= n,
                replies_pending@.len() == n,
                forall|j: int| i <= j < n ==> replies_pending@[j] == replies0[j],
                ({
                    let di = spec_discard(
                        self.state.output_queue.spec_infos(),
                        self.state.output_queue.spec_num_queued(),
                        replies0.skip(i as int),
                    );
                    &&& dd0.infos == di.infos
                    &&& dd0.num_queued == di.num_queued
                    &&& dd0.ok == di.ok
                }),
            decreases n - i,
        {
            if i >= n {
                proof {
                    assert(replies0.skip(i as int) =~= Seq::<DqBufReply>::empty());
                }
                return self.acquire_free();
            }
            proof {
                assert(replies0.skip(i as int).first() == replies0[i as int]);
                assert(replies0.skip(i as int).drop_first() =~= replies0.skip(i + 1));
            }
            let mut taken = DqBufReply::NotReady;
            replies_pending.set_and_swap(i, &mut taken);
            let ghost head = self.state.output_queue;
            match self.state.output_queue.try_dequeue(taken) {
                Ok(buf) => {
                    let ghost idx = buf.spec_fuse().spec_index() as int;
                    buf.release(&mut self.state.output_queue);
                    i += 1;
                    proof {
                        assert(self.state.output_queue.spec_infos() =~= head.spec_infos().update(
                            idx,
                            BufferInfo {
                                state: BufferState::Free,
                                features: head.spec_infos()[idx].features,
                            },
                        ));
                    }
                },
                Err(DQBufError::CorruptedBuffer(buf)) => {
                    let ghost idx = buf.spec_fuse().spec_index() as int;
                    buf.release(&mut self.state.output_queue);
                    proof {
                        assert(self.state.output_queue.spec_infos() =~= head.spec_infos().update(
                            idx,
                            BufferInfo {
                                state: BufferState::Free,
                                features: head.spec_infos()[idx].features,
                            },
                        ));
                    }
                    return self.acquire_free();
                },
                Err(_) => {
                    return self.acquire_free();
                },
            }
        }
    }

    /// The current value of the injected wakeup counter, if any.
    pub fn poll_wakeups(&self) -> (r: Option<u64>)
        ensures
            r == self.spec_output_poller().spec_wakeups(),
    {
        self.state.output_poller.poll_wakeups()
    }

    /// Submit a reserved OUTPUT buffer with `handles`, one per plane;
    /// `reply` is the driver's answer. On success the buffer belongs to
    /// the driver until it is drained back; on failure it returns to the
    /// free pool and the handles come back inside the error.
    pub fn queue_buffer(
        &mut self,
        buffer: QBuffer,
        handles: Vec<PlaneHandle>,
        reply: Result<(), i32>,
    ) -> (r: Result<(), crate::queue::QueueBufferError>)
        requires
            old(self).wf(),
            buffer.valid_for(old(self).spec_output_queue()),
            handles@.len() == buffer.spec_num_planes(),
        ensures
            final(self).wf(),
            final(self).spec_output_poller() == old(self).spec_output_poller(),
            final(self).spec_output_queue().spec_base() == old(
                self,
            ).spec_output_queue().spec_base(),
            final(self).spec_output_queue().spec_streaming() == old(
                self,
            ).spec_output_queue().spec_streaming(),
            final(self).spec_output_queue().spec_memory_type() == old(
                self,
            ).spec_output_queue().spec_memory_type(),
            match reply {
                Ok(()) => {
                    &&& r == Ok::<(), crate::queue::QueueBufferError>(())
                    &&& final(self).spec_output_queue().spec_infos() == old(
                        self,
                    ).spec_output_queue().spec_infos().update(
                        buffer.spec_index() as int,
                        BufferInfo {
                            state: BufferState::Queued(handles),
                            features: old(self).spec_output_queue().spec_infos()[buffer.spec_index() as int].features,
                        },
                    )
                    &&& final(self).spec_output_queue().spec_num_queued() == old(
                        self,
                    ).spec_output_queue().spec_num_queued() + 1
                },
                Err(e) => {
                    &&& r matches Err(qe)
                    &&& qe.errno == e
                    &&& qe.plane_handles == handles
                    &&& final(self).spec_output_queue().spec_infos() == old(
                        self,
                    ).spec_output_queue().spec_infos().update(
                        buffer.spec_index() as int,
                        BufferInfo {
                            state: BufferState::Free,
                            features: old(self).spec_output_queue().spec_infos()[buffer.spec_index() as int].features,
                        },
                    )
                    &&& final(self).spec_output_queue().spec_num_queued() == old(
                        self,
                    ).spec_output_queue().spec_num_queued()
                },
            },
    {
        buffer.queue_with_handles(&mut self.state.output_queue, handles, reply)
    }

    /// Give a dequeued OUTPUT buffer back: its slot returns to the free
    /// pool, unless the queue has reallocated its buffers since.
    pub fn release_output_buffer(&mut self, buffer: crate::queue::DQBuffer)
        requires
            old(self).wf(),
            buffer.spec_fuse().spec_armed() && buffer.spec_fuse().spec_generation() == old(
                self,
            ).spec_output_queue().spec_generation() && buffer.spec_fuse().spec_index() < old(
                self,
            ).spec_output_queue().spec_infos().len() ==> !(old(
                self,
            ).spec_output_queue().spec_infos()[buffer.spec_fuse().spec_index() as int].state
                is Queued),
        ensures
            final(self).wf(),
            final(self).spec_output_poller() == old(self).spec_output_poller(),
            crate::queue::spec_triggered(
                buffer.spec_fuse(),
                old(self).spec_output_queue(),
                final(self).spec_output_queue(),
            ),
    {
        buffer.release(&mut self.state.output_queue);
    }

    /// Reserve the free OUTPUT buffer with the lowest index, mapping the
    /// absence of one into the buffer-acquisition error.
    fn acquire_free(&mut self) -> (r: Result<QBuffer, GetBufferError>)
        requires
            old(self).wf(),
        ensures
            final(self).wf(),
            final(self).spec_output_poller() == old(self).spec_output_poller(),
            final(self).spec_output_queue().spec_base() == old(
                self,
            ).spec_output_queue().spec_base(),
            final(self).spec_output_queue().spec_streaming() == old(
                self,
            ).spec_output_queue().spec_streaming(),
            final(self).spec_output_queue().spec_memory_type() == old(
                self,
            ).spec_output_queue().spec_memory_type(),
            final(self).spec_output_queue().spec_num_queued() == old(
                self,
            ).spec_output_queue().spec_num_queued(),
            if exists|i: int|
                0 <= i < old(self).spec_output_queue().spec_infos().len() && (#[trigger] old(
                    self,
                ).spec_output_queue().spec_infos()[i]).state is Free {
                &&& r matches Ok(b)
                &&& b.spec_index() < old(self).spec_output_queue().spec_infos().len()
                &&& old(self).spec_output_queue().spec_infos()[b.spec_index() as int].state
                    is Free
                &&& forall|j: int|
                    0 <= j < b.spec_index() ==> !((#[trigger] old(
                        self,
                    ).spec_output_queue().spec_infos()[j]).state is Free)
                &&& b.spec_generation() == old(self).spec_output_queue().spec_generation()
                &&& b.valid_for(final(self).spec_output_queue())
                &&& final(self).spec_output_queue().spec_infos() == old(
                    self,
                ).spec_output_queue().spec_infos().update(
                    b.spec_index() as int,
                    BufferInfo {
                        state: BufferState::PreQueue,
                        features: old(self).spec_output_queue().spec_infos()[b.spec_index() as int].features,
                    },
                )
            } else {
                &&& r matches Err(e)
                &&& e == GetBufferError::GetFreeBufferError(
                    crate::queue::GetFreeBufferError::NoFreeBuffer,
                )
                &&& final(self).spec_output_queue().spec_infos() == old(
                    self,
                ).spec_output_queue().spec_infos()
            },
    {
        match self.state.output_queue.try_get_free_buffer() {
            Ok(b) => Ok(b),
            Err(crate::queue::GetFreeBufferError::NoFreeBuffer) => Err(
                GetBufferError::GetFreeBufferError(
                    crate::queue::GetFreeBufferError::NoFreeBuffer,
                ),
            ),
        }
    }

    /// Sleep until at least one OUTPUT buffer is ready to be reclaimed,
    /// then drain every completed buffer, appending the reclaimed plane
    /// handles to `completed` in dequeue order. `poll` is the outcome of
    /// the blocking poll on the OUTPUT poller, which waits for OUTPUT
    /// readiness alone; `replies` holds the driver's dequeue answers.
    pub fn wait_for_output_buffer(
        &mut self,
        poll: Result<PollEvents, i32>,
        replies: Vec<DqBufReply>,
        completed: &mut Vec<Vec<PlaneHandle>>,
    ) -> (r: Result<(), GetBufferError>)
        requires
            old(self).wf(),
            poll matches Ok(events) ==> !events.device_event && !events.device_capture
                && !events.waker,
            poll matches Ok(events) && events.device_output ==> spec_drain(
                old(self).spec_output_queue().spec_infos(),
                old(self).spec_output_queue().spec_num_queued(),
                replies@,
            ).ok,
        ensures
            final(self).wf(),
            final(self).spec_output_queue().spec_base() == old(
                self,
            ).spec_output_queue().spec_base(),
            final(self).spec_output_queue().spec_streaming() == old(
                self,
            ).spec_output_queue().spec_streaming(),
            final(self).spec_output_queue().spec_memory_type() == old(
                self,
            ).spec_output_queue().spec_memory_type(),
            match poll {
                Err(e) => {
                    &&& r matches Err(ge) && ge == GetBufferError::PollError(e)
                    &&& *final(self) == *old(self)
                    &&& final(completed)@ == old(completed)@
                },
                Ok(events) => {
                    &&& spec_recorded(
                        old(self).spec_output_poller(),
                        final(self).spec_output_poller(),
                    )
                    &&& if events.device_output {
                        let d = spec_drain(
                            old(self).spec_output_queue().spec_infos(),
                            old(self).spec_output_queue().spec_num_queued(),
                            replies@,
                        );
                        &&& final(self).spec_output_queue().spec_infos() == d.infos
                        &&& final(self).spec_output_queue().spec_num_queued() == d.num_queued
                        &&& final(completed)@ == old(completed)@ + d.completed
                        &&& match d.stop {
                            DrainStop::Drained => r == Ok::<(), GetBufferError>(()),
                            DrainStop::NotReady => r == Ok::<(), GetBufferError>(()),
                            DrainStop::Eos => r matches Err(GetBufferError::DequeueError(e)) && e
                                is Eos,
                            DrainStop::Ioctl(code) => r matches Err(
                                GetBufferError::DequeueError(e),
                            ) && (e matches DQBufError::IoctlError(c2) && c2 == code),
                            DrainStop::Corrupted(dd, h) => r matches Err(
                                GetBufferError::DequeueError(e),
                            ) && (e matches DQBufError::CorruptedBuffer(b) && {
                                &&& b.spec_data() == dd
                                &&& b.spec_handles() == Some(h)
                                &&& b.spec_fuse().spec_armed()
                                &&& b.spec_fuse().spec_index() == dd.index
                                &&& b.spec_fuse().spec_generation() == old(
                                    self,
                                ).spec_output_queue().spec_generation()
                            }),
                        }
                    } else {
                        &&& r == Ok::<(), GetBufferError>(())
                        &&& final(self).spec_output_queue() == old(self).spec_output_queue()
                        &&& final(completed)@ == old(completed)@
                    }
                },
            },
    {
        let events = match poll {
            Ok(events) => events,
            Err(e) => {
                return Err(GetBufferError::PollError(e));
            },
        };
        self.state.output_poller.record_wakeup();
        if events.device_output {
            match self.dequeue_output_buffers(replies, completed) {
                Ok(()) => Ok(()),
                Err(e) => Err(GetBufferError::DequeueError(e)),
            }
        } else {
            Ok(())
        }
    }

    /// Reserve an OUTPUT buffer to be filled with a frame to decode,
    /// waiting for one to be reclaimable if every buffer is currently
    /// queued. In that case `poll` must carry the outcome of the blocking
    /// poll, `wait_replies` the dequeue answers of the draining that
    /// follows it, and the handles the drain reclaims are appended to
    /// `completed`. `drain_replies` then feeds the opportunistic drain of
    /// the acquisition itself, whose handles are discarded.
    pub fn get_buffer(
        &mut self,
        poll: Option<Result<PollEvents, i32>>,
        wait_replies: Vec<DqBufReply>,
        drain_replies: Vec<DqBufReply>,
        completed: &mut Vec<Vec<PlaneHandle>>,
    ) -> (r: Result<QBuffer, GetBufferError>)
        requires
            old(self).wf(),
            spec_get_buffer_inputs_ok(
                old(self).spec_output_queue().spec_infos(),
                old(self).spec_output_queue().spec_num_queued(),
                poll,
                wait_replies@,
                drain_replies@,
            ),
        ensures
            final(self).wf(),
            final(self).spec_output_queue().spec_base() == old(
                self,
            ).spec_output_queue().spec_base(),
            final(self).spec_output_queue().spec_streaming() == old(
                self,
            ).spec_output_queue().spec_streaming(),
            final(self).spec_output_queue().spec_memory_type() == old(
                self,
            ).spec_output_queue().spec_memory_type(),
            ({
                let q0 = old(self).spec_output_queue();
                let full = q0.spec_num_queued() == q0.spec_infos().len();
                if full {
                    match poll {
                        Some(Err(e)) => {
                            &&& r matches Err(ge) && ge == GetBufferError::PollError(e)
                            &&& *final(self) == *old(self)
                            &&& final(completed)@ == old(completed)@
                        },
                        Some(Ok(events)) => {
                            let d = spec_wait_drain(
                                q0.spec_infos(),
                                q0.spec_num_queued(),
                                events,
                                wait_replies@,
                            );
                            &&& spec_recorded(
                                old(self).spec_output_poller(),
                                final(self).spec_output_poller(),
                            )
                            &&& final(completed)@ == old(completed)@ + d.completed
                            &&& match d.stop {
                                DrainStop::Drained | DrainStop::NotReady => spec_acquired(
                                    d.infos,
                                    d.num_queued,
                                    drain_replies@,
                                    q0.spec_generation(),
                                    r,
                                    final(self).spec_output_queue(),
                                ),
                                DrainStop::Eos => r matches Err(GetBufferError::DequeueError(e))
                                    && e is Eos && final(self).spec_output_queue().spec_infos()
                                    == d.infos,
                                DrainStop::Ioctl(code) => r matches Err(
                                    GetBufferError::DequeueError(e),
                                ) && (e matches DQBufError::IoctlError(c2) && c2 == code) && final(self).spec_output_queue().spec_infos() == d.infos,
                                DrainStop::Corrupted(dd, h) => r matches Err(
                                    GetBufferError::DequeueError(e),
                                ) && (e matches DQBufError::CorruptedBuffer(b) && b.spec_data()
                                    == dd && b.spec_handles() == Some(h)) && final(self).spec_output_queue().spec_infos() == d.infos,
                            }
                        },
                        None => false,
                    }
                } else {
                    &&& final(self).spec_output_poller() == old(self).spec_output_poller()
                    &&& final(completed)@ == old(completed)@
                    &&& spec_acquired(
                        q0.spec_infos(),
                        q0.spec_num_queued(),
                        drain_replies@,
                        q0.spec_generation(),
                        r,
                        final(self).spec_output_queue(),
                    )
                }
            }),
    {
        let num_queued = self.state.output_queue.num_queued_buffers();
        let num_buffers = self.state.output_queue.num_buffers();
        // If all our buffers are queued, wait until we can dequeue some.
        if num_queued == num_buffers {
            let poll_outcome = match poll {
                Some(p) => p,
                None => vstd::pervasive::unreached(),
            };
            match self.wait_for_output_buffer(poll_outcome, wait_replies, completed) {
                Ok(()) => (),
                Err(e) => {
                    return Err(e);
                },
            }
        }
        self.try_get_free_buffer(drain_replies)
    }
}

/// The drain a poll wakeup triggers: the completed-buffer drain when the
/// poll reported OUTPUT readiness, nothing otherwise.
pub open spec fn spec_wait_drain(
    infos: Seq<BufferInfo>,
    nq: int,
    events: PollEvents,
    replies: Seq<DqBufReply>,
) -> OutputDrain {
    if events.device_output {
        spec_drain(infos, nq, replies)
    } else {
        OutputDrain { infos, num_queued: nq, completed: Seq::empty(), stop: DrainStop::NotReady, ok: true }
    }
}

/// Whether `p1` is `p0` after one recorded poll wakeup: the counter
/// advanced, all else as it was.
pub open spec fn spec_recorded(p0: Poller, p1: Poller) -> bool {
    &&& p1.spec_wakeups() == crate::poller::spec_counted(p0.spec_wakeups())
    &&& p1.spec_waker_pending() == p0.spec_waker_pending()
    &&& forall|e: DeviceEvent| p1.spec_enabled(e) == p0.spec_enabled(e)
}

/// What reserving an OUTPUT buffer demands of its inputs: a poll outcome
/// is supplied exactly when every buffer is queued, it reports OUTPUT
/// readiness alone, and the drains' replies are consistent with the table.
pub open spec fn spec_get_buffer_inputs_ok(
    infos: Seq<BufferInfo>,
    nq: int,
    poll: Option<Result<PollEvents, i32>>,
    wait_replies: Seq<DqBufReply>,
    drain_replies: Seq<DqBufReply>,
) -> bool {
    let full = nq == infos.len();
    &&& (full ==> poll is Some)
    &&& (full ==> (poll matches Some(Ok(events)) ==> !events.device_event
        && !events.device_capture && !events.waker))
    &&& (full ==> (poll matches Some(Ok(events)) ==> {
        let d = spec_wait_drain(infos, nq, events, wait_replies);
        &&& d.ok
        &&& (d.stop is Drained || d.stop is NotReady ==> spec_discard(
            d.infos,
            d.num_queued,
            drain_replies,
        ).ok)
    }))
    &&& (!full ==> spec_discard(infos, nq, drain_replies).ok)
}

} // verus!
