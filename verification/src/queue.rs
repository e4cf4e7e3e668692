//! The queue abstraction: a typed queue of the device, its configuration
//! state machine and the table of per-buffer lifecycle states.

use vstd::prelude::*;
use vstd::pervasive::VecAdditionalExecFns;

use crate::buffer::{
    count_queued, lemma_count_queued_le_len, lemma_count_queued_lower_bound,
    lemma_count_queued_update, lemma_count_queued_upper_bound, BufferInfo, BufferState, DqBufData,
    MemoryType, PlaneHandle, QueryBuffer,
};
use crate::device::{BufferCapabilities, Device, QueueDescription, QueueType};
use crate::format::{Format, FormatDesc};

verus! {

/// Error returned when a queue cannot be obtained from the device.
#[derive(Clone, Copy, Debug, PartialEq, Eq, Structural)]
pub enum CreateQueueError {
    /// A queue of this type is already borrowed.
    AlreadyBorrowed,
    /// The probing buffer request failed with this code.
    ReqbufsError(i32),
}

/// Error returned when buffer allocation fails.
#[derive(Clone, Copy, Debug, PartialEq, Eq, Structural)]
pub enum RequestBuffersError {
    /// The buffer request itself failed with this code.
    ReqbufsError(i32),
    /// Querying one allocated slot failed with this code.
    QueryBufferError(i32),
}

/// Error code from releasing the buffers of a queue.
#[derive(Clone, Copy, Debug, PartialEq, Eq, Structural)]
pub struct ReqbufsError(pub i32);

/// Error code from applying a format.
#[derive(Clone, Copy, Debug, PartialEq, Eq, Structural)]
pub struct SFmtError(pub i32);

/// Error code from probing a format.
#[derive(Clone, Copy, Debug, PartialEq, Eq, Structural)]
pub struct TryFmtError(pub i32);

/// Error code from starting the stream.
#[derive(Clone, Copy, Debug, PartialEq, Eq, Structural)]
pub struct StreamOnError(pub i32);

/// Error code from stopping the stream.
#[derive(Clone, Copy, Debug, PartialEq, Eq, Structural)]
pub struct StreamOffError(pub i32);

/// Base values of a queue that hold no matter the state the queue is in.
pub struct QueueBase {
    pub(crate) queue_type: QueueType,
    pub(crate) capabilities: BufferCapabilities,
    pub(crate) formats: Vec<FormatDesc>,
    pub(crate) current_format: Format,
    pub(crate) alloc_generation: u64,
}

/// Trait for the different states a queue can be in. It limits the
/// available queue methods to the ones that make sense at a given point of
/// the queue's lifecycle.
pub trait QueueState {

}

/// Initial state of the queue when created. Streaming and queuing are not
/// supported since buffers have not been allocated yet.
pub struct QueueInit;

impl QueueState for QueueInit {

}

/// Allocated state for a queue. A queue with its buffers allocated can be
/// streamed on and off, and buffers can be queued and dequeued.
pub struct BuffersAllocated {
    pub(crate) num_queued_buffers: usize,
    pub(crate) buffer_info: Vec<BufferInfo>,
    pub(crate) memory_type: MemoryType,
    pub(crate) streaming: bool,
}

impl QueueState for BuffersAllocated {

}

/// A queue of the device, specialized according to its configuration state
/// so that only valid methods can be called at a given point.
pub struct Queue<S: QueueState> {
    pub(crate) inner: QueueBase,
    pub(crate) state: S,
}

impl<S: QueueState> Queue<S> {
    /// The queue type this queue was created for.
    pub closed spec fn spec_type(&self) -> QueueType {
        self.inner.queue_type
    }

    /// The capability bits read when the queue was created.
    pub closed spec fn spec_capabilities(&self) -> BufferCapabilities {
        self.inner.capabilities
    }

    /// The formats the driver reported as supported.
    pub closed spec fn spec_formats(&self) -> Seq<FormatDesc> {
        self.inner.formats@
    }

    /// The format most recently applied or reported by the driver.
    pub closed spec fn spec_format(&self) -> Format {
        self.inner.current_format
    }

    /// How many buffer allocations this queue has performed; a dequeued
    /// buffer handle stays bound to the allocation it came from.
    pub closed spec fn spec_generation(&self) -> u64 {
        self.inner.alloc_generation
    }

    /// The base values as one tuple, for stating that they are unchanged.
    pub open spec fn spec_base(&self) -> (QueueType, BufferCapabilities, Seq<FormatDesc>, Format, u64) {
        (
            self.spec_type(),
            self.spec_capabilities(),
            self.spec_formats(),
            self.spec_format(),
            self.spec_generation(),
        )
    }

    pub fn get_capabilities(&self) -> (r: BufferCapabilities)
        ensures
            r == self.spec_capabilities(),
    {
        self.inner.capabilities
    }

    pub fn get_type(&self) -> (r: QueueType)
        ensures
            r == self.spec_type(),
    {
        self.inner.queue_type
    }

    /// The format currently applied on this queue.
    pub fn get_format(&self) -> (r: Format)
        ensures
            r == self.spec_format(),
    {
        self.inner.current_format
    }

    /// The formats currently supported by this queue.
    pub fn format_iter(&self) -> (r: &Vec<FormatDesc>)
        ensures
            r@ == self.spec_formats(),
    {
        &self.inner.formats
    }

    /// Hand the queue back to the device, making its type available again.
    ///
    /// Relinquishing a queue without calling this leaves its type marked as
    /// borrowed for the life of the device handle.
    pub fn release(self, device: &mut Device)
        requires
            old(device).wf(),
            old(device).spec_borrowed().contains(self.spec_type()),
        ensures
            final(device).wf(),
            final(device).spec_borrowed() == old(device).spec_borrowed().remove(
                self.spec_type(),
            ),
    {
        device.release_queue_type(self.inner.queue_type);
    }
}

impl Queue<QueueInit> {
    /// Create a queue for `queue_type` on `device`. A queue of a specific
    /// type can be borrowed only once at a time; `description` carries what
    /// the driver reported when the queue was probed with a dummy buffer
    /// request, or the probe's error code.
    fn create(
        device: &mut Device,
        queue_type: QueueType,
        description: Result<QueueDescription, i32>,
    ) -> (r: Result<Queue<QueueInit>, CreateQueueError>)
        requires
            old(device).wf(),
        ensures
            final(device).wf(),
            old(device).spec_borrowed().contains(queue_type) ==> r
                == Err::<Queue<QueueInit>, CreateQueueError>(CreateQueueError::AlreadyBorrowed)
                && *final(device) == *old(device),
            !old(device).spec_borrowed().contains(queue_type) ==> match description {
                Ok(desc) => {
                    &&& r matches Ok(q)
                    &&& q.spec_type() == queue_type
                    &&& q.spec_capabilities() == desc.capabilities
                    &&& q.spec_formats() == desc.formats@
                    &&& q.spec_format() == desc.current_format
                    &&& q.spec_generation() == 0u64
                    &&& final(device).spec_borrowed() == old(device).spec_borrowed().insert(
                        queue_type,
                    )
                },
                Err(e) => r == Err::<Queue<QueueInit>, CreateQueueError>(
                    CreateQueueError::ReqbufsError(e),
                ) && *final(device) == *old(device),
            },
    {
        if device.is_borrowed(queue_type) {
            return Err(CreateQueueError::AlreadyBorrowed);
        }
        match description {
            Ok(desc) => {
                device.mark_borrowed(queue_type);
                Ok(
                    Queue {
                        inner: QueueBase {
                            queue_type,
                            capabilities: desc.capabilities,
                            formats: desc.formats,
                            current_format: desc.current_format,
                            alloc_generation: 0,
                        },
                        state: QueueInit,
                    },
                )
            },
            Err(e) => Err(CreateQueueError::ReqbufsError(e)),
        }
    }

    /// Acquires the OUTPUT queue from `device`.
    pub fn get_output_queue(device: &mut Device, description: Result<QueueDescription, i32>) -> (r:
        Result<Queue<QueueInit>, CreateQueueError>)
        requires
            old(device).wf(),
        ensures
            final(device).wf(),
            spec_create_outcome(
                *old(device),
                *final(device),
                QueueType::VideoOutput,
                description,
                r,
            ),
    {
        Queue::create(device, QueueType::VideoOutput, description)
    }

    /// Acquires the OUTPUT_MPLANE queue from `device`.
    pub fn get_output_mplane_queue(
        device: &mut Device,
        description: Result<QueueDescription, i32>,
    ) -> (r: Result<Queue<QueueInit>, CreateQueueError>)
        requires
            old(device).wf(),
        ensures
            final(device).wf(),
            spec_create_outcome(
                *old(device),
                *final(device),
                QueueType::VideoOutputMplane,
                description,
                r,
            ),
    {
        Queue::create(device, QueueType::VideoOutputMplane, description)
    }

    /// Acquires the CAPTURE queue from `device`.
    pub fn get_capture_queue(device: &mut Device, description: Result<QueueDescription, i32>) -> (r:
        Result<Queue<QueueInit>, CreateQueueError>)
        requires
            old(device).wf(),
        ensures
            final(device).wf(),
            spec_create_outcome(
                *old(device),
                *final(device),
                QueueType::VideoCapture,
                description,
                r,
            ),
    {
        Queue::create(device, QueueType::VideoCapture, description)
    }

    /// Acquires the CAPTURE_MPLANE queue from `device`.
    pub fn get_capture_mplane_queue(
        device: &mut Device,
        description: Result<QueueDescription, i32>,
    ) -> (r: Result<Queue<QueueInit>, CreateQueueError>)
        requires
            old(device).wf(),
        ensures
            final(device).wf(),
            spec_create_outcome(
                *old(device),
                *final(device),
                QueueType::VideoCaptureMplane,
                description,
                r,
            ),
    {
        Queue::create(device, QueueType::VideoCaptureMplane, description)
    }

    /// Ask the driver to apply `format` on this queue; `reply` carries the
    /// adjusted format the driver chose, or the error code. The adjusted
    /// format becomes the queue's current format.
    pub fn set_format(&mut self, format: Format, reply: Result<Format, i32>) -> (r: Result<
        Format,
        SFmtError,
    >)
        ensures
            match reply {
                Ok(adjusted) => {
                    &&& r == Ok::<Format, SFmtError>(adjusted)
                    &&& final(self).spec_format() == adjusted
                    &&& final(self).spec_type() == old(self).spec_type()
                    &&& final(self).spec_capabilities() == old(self).spec_capabilities()
                    &&& final(self).spec_formats() == old(self).spec_formats()
                    &&& final(self).spec_generation() == old(self).spec_generation()
                },
                Err(e) => r == Err::<Format, SFmtError>(SFmtError(e)) && *final(self) == *old(self),
            },
    {
        // The requested format travelled to the driver with the call that
        // produced `reply`; the driver's adjusted answer is authoritative.
        let _ = format;
        match reply {
            Ok(adjusted) => {
                self.inner.current_format = adjusted;
                Ok(adjusted)
            },
            Err(e) => Err(SFmtError(e)),
        }
    }

    /// Performs exactly as `set_format`, but does not apply the adjusted
    /// format; useful to check what the driver would change.
    pub fn try_format(&self, format: Format, reply: Result<Format, i32>) -> (r: Result<
        Format,
        TryFmtError,
    >)
        ensures
            match reply {
                Ok(adjusted) => r == Ok::<Format, TryFmtError>(adjusted),
                Err(e) => r == Err::<Format, TryFmtError>(TryFmtError(e)),
            },
    {
        // As with applying: the driver's answer to probing the requested
        // format is what the caller needs.
        let _ = format;
        match reply {
            Ok(adjusted) => Ok(adjusted),
            Err(e) => Err(TryFmtError(e)),
        }
    }

    /// Returns a `FormatBuilder` seeded with the queue's current format.
    pub fn change_format(&self) -> (b: FormatBuilder)
        ensures
            b.spec_format() == self.spec_format(),
    {
        FormatBuilder { format: self.inner.current_format }
    }

    /// Allocate buffers for this queue and make it transition to the
    /// `BuffersAllocated` state. `reply` carries one record per slot the
    /// driver actually allocated (the driver may adjust `count`), or the
    /// error of the allocation or of querying a slot.
    pub fn request_buffers(
        self,
        memory: MemoryType,
        count: u32,
        reply: Result<Vec<QueryBuffer>, RequestBuffersError>,
    ) -> (r: Result<Queue<BuffersAllocated>, RequestBuffersError>)
        requires
            self.spec_generation() < u64::MAX,
            reply matches Ok(features) ==> forall|i: int|
                0 <= i < features@.len() ==> (#[trigger] features@[i]).index == i
                    && features@[i].num_planes >= 1,
        ensures
            match reply {
                Ok(features) => {
                    &&& r matches Ok(q)
                    &&& q.wf()
                    &&& q.spec_type() == self.spec_type()
                    &&& q.spec_capabilities() == self.spec_capabilities()
                    &&& q.spec_formats() == self.spec_formats()
                    &&& q.spec_format() == self.spec_format()
                    &&& q.spec_generation() == self.spec_generation() + 1
                    &&& q.spec_memory_type() == memory
                    &&& !q.spec_streaming()
                    &&& q.spec_num_queued() == 0
                    &&& q.spec_infos().len() == features@.len()
                    &&& forall|i: int|
                        0 <= i < features@.len() ==> #[trigger] q.spec_infos()[i] == (BufferInfo {
                            state: BufferState::Free,
                            features: features@[i],
                        })
                },
                Err(e) => r == Err::<Queue<BuffersAllocated>, RequestBuffersError>(e),
            },
    {
        let _ = count;
        let features = match reply {
            Ok(features) => features,
            Err(e) => {
                return Err(e);
            },
        };
        let mut buffer_info: Vec<BufferInfo> = Vec::new();
        let mut i: usize = 0;
        while i < features.len()
            invariant
                i <= features@.len(),
                buffer_info@.len() == i,
                forall|j: int|
                    0 <= j < i ==> #[trigger] buffer_info@[j] == (BufferInfo {
                        state: BufferState::Free,
                        features: features@[j],
                    }),
            decreases features@.len() - i,
        {
            buffer_info.push(BufferInfo { state: BufferState::Free, features: features[i] });
            i += 1;
        }
        let q = Queue {
            inner: QueueBase { alloc_generation: self.inner.alloc_generation + 1, ..self.inner },
            state: BuffersAllocated {
                num_queued_buffers: 0,
                buffer_info,
                memory_type: memory,
                streaming: false,
            },
        };
        proof {
            lemma_all_free_count(q.spec_infos());
        }
        Ok(q)
    }
}

/// What queue creation leaves behind: either the borrowed queue seeded from
/// the driver's description, or the error, with the device registry updated
/// exactly when the queue was handed out.
pub open spec fn spec_create_outcome(
    dev0: Device,
    dev1: Device,
    queue_type: QueueType,
    description: Result<QueueDescription, i32>,
    r: Result<Queue<QueueInit>, CreateQueueError>,
) -> bool {
    if dev0.spec_borrowed().contains(queue_type) {
        r == Err::<Queue<QueueInit>, CreateQueueError>(CreateQueueError::AlreadyBorrowed) && dev1
            == dev0
    } else {
        match description {
            Ok(desc) => {
                &&& r matches Ok(q)
                &&& q.spec_type() == queue_type
                &&& q.spec_capabilities() == desc.capabilities
                &&& q.spec_formats() == desc.formats@
                &&& q.spec_format() == desc.current_format
                &&& q.spec_generation() == 0u64
                &&& dev1.spec_borrowed() == dev0.spec_borrowed().insert(queue_type)
            },
            Err(e) => r == Err::<Queue<QueueInit>, CreateQueueError>(
                CreateQueueError::ReqbufsError(e),
            ) && dev1 == dev0,
        }
    }
}

/// A queued sequence of all-free records counts no queued buffers.
proof fn lemma_all_free_count(s: Seq<BufferInfo>)
    requires
        forall|i: int| 0 <= i < s.len() ==> !((#[trigger] s[i]).state is Queued),
    ensures
        count_queued(s) == 0,
    decreases s.len(),
{
    if s.len() > 0 {
        lemma_all_free_count(s.drop_last());
    }
}

/// Builder for a format. Get one from a queue, adjust it, and apply it.
pub struct FormatBuilder {
    pub(crate) format: Format,
}

impl FormatBuilder {
    /// The format built so far.
    pub closed spec fn spec_format(&self) -> Format {
        self.format
    }

    /// Get a reference to the format built so far.
    pub fn format(&self) -> (r: &Format)
        ensures
            *r == self.spec_format(),
    {
        &self.format
    }

    pub fn set_size(self, width: usize, height: usize) -> (b: FormatBuilder)
        ensures
            b.spec_format() == (Format {
                width: width as u32,
                height: height as u32,
                ..self.spec_format()
            }),
    {
        FormatBuilder {
            format: Format {
                #[verifier::truncate]
                width: width as u32,
                #[verifier::truncate]
                height: height as u32,
                ..self.format
            },
        }
    }

    pub fn set_pixelformat(self, pixel_format: crate::format::PixelFormat) -> (b: FormatBuilder)
        ensures
            b.spec_format() == (Format { pixelformat: pixel_format, ..self.spec_format() }),
    {
        FormatBuilder { format: Format { pixelformat: pixel_format, ..self.format } }
    }

    /// Apply the format built so far on `queue`. The driver adjusts the
    /// format to its capabilities; `reply` carries the format it actually
    /// applied, or the error code.
    pub fn apply(self, queue: &mut Queue<QueueInit>, reply: Result<Format, i32>) -> (r: Result<
        Format,
        SFmtError,
    >)
        ensures
            match reply {
                Ok(adjusted) => {
                    &&& r == Ok::<Format, SFmtError>(adjusted)
                    &&& final(queue).spec_format() == adjusted
                    &&& final(queue).spec_type() == old(queue).spec_type()
                    &&& final(queue).spec_capabilities() == old(queue).spec_capabilities()
                    &&& final(queue).spec_formats() == old(queue).spec_formats()
                    &&& final(queue).spec_generation() == old(queue).spec_generation()
                },
                Err(e) => r == Err::<Format, SFmtError>(SFmtError(e)) && *final(queue) == *old(queue),
            },
    {
        queue.set_format(self.format, reply)
    }

    /// Probe the format built so far without applying it; on success the
    /// builder takes over the adjusted format the driver reported, so a
    /// subsequent `apply` goes through unchanged.
    pub fn try_apply(&mut self, reply: Result<Format, i32>) -> (r: Result<(), TryFmtError>)
        ensures
            match reply {
                Ok(adjusted) => r == Ok::<(), TryFmtError>(()) && final(self).spec_format()
                    == adjusted,
                Err(e) => r == Err::<(), TryFmtError>(TryFmtError(e)) && *final(self) == *old(self),
            },
    {
        match reply {
            Ok(adjusted) => {
                self.format = adjusted;
                Ok(())
            },
            Err(e) => Err(TryFmtError(e)),
        }
    }
}

/// Represents a queued buffer which has not been processed due to the
/// stream being stopped on its queue.
#[derive(Debug)]
pub struct CanceledBuffer {
    /// Index of the buffer.
    pub index: u32,
    /// Plane handles that were passed when the buffer was queued.
    pub plane_handles: Vec<PlaneHandle>,
}

impl Queue<BuffersAllocated> {
    /// The buffer table: one record per allocated slot.
    pub closed spec fn spec_infos(&self) -> Seq<BufferInfo> {
        self.state.buffer_info@
    }

    /// The queued-buffer counter.
    pub closed spec fn spec_num_queued(&self) -> int {
        self.state.num_queued_buffers as int
    }

    /// Whether the queue is streaming.
    pub closed spec fn spec_streaming(&self) -> bool {
        self.state.streaming
    }

    /// The memory backend the buffers were allocated with.
    pub closed spec fn spec_memory_type(&self) -> MemoryType {
        self.state.memory_type
    }

    /// The well-formedness invariant of an allocated queue: the queued
    /// counter counts exactly the records in `Queued` state, each record
    /// carries its own slot index and at least one plane, and plane handles
    /// parked in `Queued` match the slot's plane count.
    pub closed spec fn wf(&self) -> bool {
        &&& self.spec_num_queued() == count_queued(self.spec_infos())
        &&& forall|i: int|
            0 <= i < self.spec_infos().len() ==> (#[trigger] self.spec_infos()[i]).features.index
                == i
        &&& forall|i: int|
            0 <= i < self.spec_infos().len() ==> (#[trigger] self.spec_infos()[i]).features.num_planes
                >= 1
        &&& forall|i: int|
            0 <= i < self.spec_infos().len() ==> ((#[trigger] self.spec_infos()[i]).state matches
                BufferState::Queued(h) ==> h@.len() == self.spec_infos()[i].features.num_planes)
    }

    /// The queue invariant, stated for callers: the queued-buffer counter
    /// counts exactly the records in the queued state, each record carries
    /// its own slot index and at least one plane, and the handles parked on
    /// a queued buffer match its plane count exactly.
    pub proof fn lemma_queue_invariant(&self)
        requires
            self.wf(),
        ensures
            self.spec_num_queued() == count_queued(self.spec_infos()),
            0 <= self.spec_num_queued() <= self.spec_infos().len(),
            forall|i: int|
                0 <= i < self.spec_infos().len() ==> (#[trigger] self.spec_infos()[i]).features.index
                    == i,
            forall|i: int|
                0 <= i < self.spec_infos().len() ==> (#[trigger] self.spec_infos()[i]).features.num_planes
                    >= 1,
            forall|i: int|
                0 <= i < self.spec_infos().len() ==> ((#[trigger] self.spec_infos()[i]).state
                    matches BufferState::Queued(h) ==> h@.len()
                    == self.spec_infos()[i].features.num_planes),
    {
        lemma_count_queued_le_len(self.spec_infos());
    }

    /// The number of buffers allocated on this queue.
    pub fn num_buffers(&self) -> (r: usize)
        ensures
            r == self.spec_infos().len(),
    {
        self.state.buffer_info.len()
    }

    /// The number of buffers currently queued to the driver.
    pub fn num_queued_buffers(&self) -> (r: usize)
        ensures
            r == self.spec_num_queued(),
    {
        self.state.num_queued_buffers
    }

    /// The lifecycle state of the buffer in slot `index`.
    pub fn buffer_state(&self, index: usize) -> (r: &BufferState)
        requires
            index < self.spec_infos().len(),
        ensures
            *r == self.spec_infos()[index as int].state,
    {
        &self.state.buffer_info[index].state
    }

    /// Free all buffers of this queue, returning it to the initial state;
    /// `reply` is the driver's answer to the zero-buffer request. The queue
    /// must not be streaming.
    pub fn free_buffers(self, reply: Result<(), i32>) -> (r: Result<Queue<QueueInit>, ReqbufsError>)
        requires
            !self.spec_streaming(),
        ensures
            match reply {
                Ok(()) => {
                    &&& r matches Ok(q)
                    &&& q.spec_base() == self.spec_base()
                },
                Err(e) => r == Err::<Queue<QueueInit>, ReqbufsError>(ReqbufsError(e)),
            },
    {
        match reply {
            Ok(()) => Ok(Queue { inner: self.inner, state: QueueInit }),
            Err(e) => Err(ReqbufsError(e)),
        }
    }

    /// Start streaming; `reply` is the driver's answer. Safe to call when
    /// already streaming: the driver tolerates it.
    pub fn stream_on(&mut self, reply: Result<(), i32>) -> (r: Result<(), StreamOnError>)
        requires
            old(self).wf(),
        ensures
            final(self).wf(),
            match reply {
                Ok(()) => {
                    &&& r == Ok::<(), StreamOnError>(())
                    &&& final(self).spec_streaming()
                    &&& final(self).spec_base() == old(self).spec_base()
                    &&& final(self).spec_infos() == old(self).spec_infos()
                    &&& final(self).spec_num_queued() == old(self).spec_num_queued()
                    &&& final(self).spec_memory_type() == old(self).spec_memory_type()
                },
                Err(e) => r == Err::<(), StreamOnError>(StreamOnError(e)) && *final(self) == *old(self),
            },
    {
        match reply {
            Ok(()) => {
                self.state.streaming = true;
                Ok(())
            },
            Err(e) => Err(StreamOnError(e)),
        }
    }

    /// Stop streaming; `reply` is the driver's answer. On success every
    /// buffer the driver still held returns to the free pool and its parked
    /// plane handles come back in the canceled list, lowest index first.
    /// Buffers reserved or dequeued by the client are left alone.
    pub fn stream_off(&mut self, reply: Result<(), i32>) -> (r: Result<
        Vec<CanceledBuffer>,
        StreamOffError,
    >)
        requires
            old(self).wf(),
        ensures
            final(self).wf(),
            match reply {
                Ok(()) => {
                    &&& r matches Ok(canceled)
                    &&& canceled@ == spec_canceled(old(self).spec_infos())
                    &&& !final(self).spec_streaming()
                    &&& final(self).spec_base() == old(self).spec_base()
                    &&& final(self).spec_memory_type() == old(self).spec_memory_type()
                    &&& final(self).spec_infos().len() == old(self).spec_infos().len()
                    &&& forall|i: int|
                        0 <= i < old(self).spec_infos().len() ==> #[trigger] final(self).spec_infos()[i] == (if old(self).spec_infos()[i].state is Queued {
                            BufferInfo {
                                state: BufferState::Free,
                                features: old(self).spec_infos()[i].features,
                            }
                        } else {
                            old(self).spec_infos()[i]
                        })
                    &&& final(self).spec_num_queued() == old(self).spec_num_queued()
                        - canceled@.len()
                    &&& final(self).spec_num_queued() == 0
                },
                Err(e) => r == Err::<Vec<CanceledBuffer>, StreamOffError>(StreamOffError(e))
                    && *final(self) == *old(self),
            },
    {
        if let Err(e) = reply {
            return Err(StreamOffError(e));
        }
        let mut canceled: Vec<CanceledBuffer> = Vec::new();
        let n = self.state.buffer_info.len();
        let mut i: usize = 0;
        while i < n
            invariant
                i <= n,
                n == self.state.buffer_info@.len(),
                n == old(self).spec_infos().len(),
                self.inner == old(self).inner,
                self.state.memory_type == old(self).state.memory_type,
                self.state.streaming == old(self).state.streaming,
                self.state.num_queued_buffers == old(self).state.num_queued_buffers,
                canceled@ == spec_canceled(old(self).spec_infos().take(i as int)),
                forall|j: int|
                    0 <= j < i ==> #[trigger] self.state.buffer_info@[j] == (if old(
                        self,
                    ).spec_infos()[j].state is Queued {
                        BufferInfo {
                            state: BufferState::Free,
                            features: old(self).spec_infos()[j].features,
                        }
                    } else {
                        old(self).spec_infos()[j]
                    }),
                forall|j: int|
                    i <= j < n ==> #[trigger] self.state.buffer_info@[j] == old(
                        self,
                    ).spec_infos()[j],
            decreases n - i,
        {
            proof {
                assert(old(self).spec_infos().take(i + 1).drop_last() == old(
                    self,
                ).spec_infos().take(i as int));
            }
            let is_queued = match &self.state.buffer_info[i].state {
                BufferState::Queued(_) => true,
                _ => false,
            };
            if is_queued {
                let features = self.state.buffer_info[i].features;
                let mut taken = BufferInfo { state: BufferState::Free, features };
                self.state.buffer_info.set_and_swap(i, &mut taken);
                match taken.state {
                    BufferState::Queued(handles) => {
                        #[verifier::truncate]
                        let index_u32 = features.index as u32;
                        canceled.push(CanceledBuffer { index: index_u32, plane_handles: handles });
                    },
                    _ => {
                        proof {
                            assert(false);
                        }
                    },
                }
            }
            i += 1;
        }
        proof {
            assert(old(self).spec_infos().take(n as int) == old(self).spec_infos());
            lemma_canceled_len(old(self).spec_infos());
            lemma_count_queued_congruent_frees(old(self).spec_infos(), self.state.buffer_info@);
        }
        let count = canceled.len();
        self.state.num_queued_buffers = self.state.num_queued_buffers - count;
        self.state.streaming = false;
        Ok(canceled)
    }
}

/// The canceled list a stream stop produces from a buffer table: one entry
/// per record in `Queued` state, in slot order, carrying the parked plane
/// handles.
pub open spec fn spec_canceled(s: Seq<BufferInfo>) -> Seq<CanceledBuffer>
    decreases s.len(),
{
    if s.len() == 0 {
        Seq::empty()
    } else {
        spec_canceled(s.drop_last()) + match s.last().state {
            BufferState::Queued(h) => seq![
                CanceledBuffer { index: s.last().features.index as u32, plane_handles: h },
            ],
            _ => Seq::empty(),
        }
    }
}

/// The canceled list has exactly one entry per queued record.
pub proof fn lemma_canceled_len(s: Seq<BufferInfo>)
    ensures
        spec_canceled(s).len() == count_queued(s),
    decreases s.len(),
{
    if s.len() > 0 {
        lemma_canceled_len(s.drop_last());
    }
}

/// Freeing exactly the queued records of a table leaves no queued record.
proof fn lemma_count_queued_congruent_frees(s: Seq<BufferInfo>, t: Seq<BufferInfo>)
    requires
        s.len() == t.len(),
        forall|j: int|
            0 <= j < s.len() ==> #[trigger] t[j] == (if s[j].state is Queued {
                BufferInfo { state: BufferState::Free, features: s[j].features }
            } else {
                s[j]
            }),
    ensures
        count_queued(t) == 0,
    decreases s.len(),
{
    if s.len() > 0 {
        assert(t.drop_last() =~= t.take(s.len() - 1));
        assert forall|j: int| 0 <= j < s.len() - 1 implies #[trigger] t.drop_last()[j] == (if s.drop_last()[j].state
            is Queued {
            BufferInfo { state: BufferState::Free, features: s.drop_last()[j].features }
        } else {
            s.drop_last()[j]
        }) by {
            assert(t[j] == t.drop_last()[j]);
        }
        lemma_count_queued_congruent_frees(s.drop_last(), t.drop_last());
        assert(!(t.last().state is Queued));
    }
}


/// Error returned when a buffer cannot be reserved by index.
#[derive(Clone, Copy, Debug, PartialEq, Eq, Structural)]
pub enum TryGetBufferError {
    /// No buffer with this index exists on the queue.
    InvalidIndex(usize),
    /// The buffer is not in the free state.
    AlreadyUsed,
}

/// Error returned when no buffer is free to be reserved.
#[derive(Clone, Copy, Debug, PartialEq, Eq, Structural)]
pub enum GetFreeBufferError {
    NoFreeBuffer,
}

/// The driver's reply to a dequeue attempt.
#[derive(Debug)]
pub enum DqBufReply {
    /// A buffer completed and was dequeued.
    Dequeued(DqBufData),
    /// A buffer was dequeued but the driver flagged it as corrupted.
    CorruptedBuffer(DqBufData),
    /// No buffer is ready for dequeue.
    NotReady,
    /// The stream has ended.
    Eos,
    /// The dequeue failed with this code.
    IoctlError(i32),
}

/// Error returned by a dequeue. A corrupted buffer is still dequeued: it
/// travels inside the error so the client may inspect and discard it.
#[derive(Debug)]
pub enum DQBufError {
    NotReady,
    Eos,
    CorruptedBuffer(DQBuffer),
    IoctlError(i32),
}

/// Error returned when submitting a reserved buffer fails: the buffer went
/// back to the free pool and the handles return to the caller.
#[derive(Debug)]
pub struct QueueBufferError {
    pub errno: i32,
    pub plane_handles: Vec<PlaneHandle>,
}

/// A fuse that returns a buffer to the free state when triggered, unless it
/// has been disarmed.
///
/// The fuse stays bound to the buffer allocation it was armed against: if
/// the queue has reallocated its buffers since, triggering is a no-op, just
/// as an upgrade of a dangling weak reference would yield nothing.
#[derive(Debug)]
pub struct BufferStateFuse {
    armed: bool,
    index: usize,
    generation: u64,
}

impl BufferStateFuse {
    /// Whether the fuse will act when triggered.
    pub closed spec fn spec_armed(&self) -> bool {
        self.armed
    }

    /// The buffer slot the fuse is bound to.
    pub closed spec fn spec_index(&self) -> usize {
        self.index
    }

    /// The buffer allocation the fuse is bound to.
    pub closed spec fn spec_generation(&self) -> u64 {
        self.generation
    }

    /// Create a fuse armed against slot `index` of the buffer allocation
    /// numbered `generation`.
    pub fn new(index: usize, generation: u64) -> (f: BufferStateFuse)
        ensures
            f.spec_armed(),
            f.spec_index() == index,
            f.spec_generation() == generation,
    {
        BufferStateFuse { armed: true, index, generation }
    }

    /// Disarm this fuse: the monitored state will be left untouched when
    /// the fuse is triggered.
    pub fn disarm(&mut self)
        ensures
            !final(self).spec_armed(),
    {
        self.armed = false;
    }

    /// Trigger the fuse: return the buffer to the free state, unless the
    /// fuse has been disarmed or `queue` no longer holds the buffer
    /// allocation the fuse was armed against. The fuse is disarmed after
    /// this call.
    pub fn trigger(&mut self, queue: &mut Queue<BuffersAllocated>)
        requires
            old(queue).wf(),
            old(self).spec_armed() && old(self).spec_generation() == old(queue).spec_generation()
                && old(self).spec_index() < old(queue).spec_infos().len() ==> !(old(
                queue,
            ).spec_infos()[old(self).spec_index() as int].state is Queued),
        ensures
            final(queue).wf(),
            !final(self).spec_armed(),
            spec_triggered(*old(self), *old(queue), *final(queue)),
    {
        if self.armed && self.generation == queue.spec_generation_exec()
            && self.index < queue.num_buffers() {
            let features = queue.state.buffer_info[self.index].features;
            queue.state.buffer_info.set(
                self.index,
                BufferInfo { state: BufferState::Free, features },
            );
            proof {
                lemma_count_queued_update(
                    old(queue).spec_infos(),
                    old(self).spec_index() as int,
                    final(queue).spec_infos()[old(self).spec_index() as int],
                );
            }
        }
        self.armed = false;
    }
}

/// What triggering a fuse does to a queue: when the fuse is armed against a
/// live slot of the queue's current buffer allocation, that slot returns to
/// the free state; in every other case the queue is untouched.
pub open spec fn spec_triggered(
    fuse: BufferStateFuse,
    q0: Queue<BuffersAllocated>,
    q1: Queue<BuffersAllocated>,
) -> bool {
    if fuse.spec_armed() && fuse.spec_generation() == q0.spec_generation() && fuse.spec_index()
        < q0.spec_infos().len() {
        &&& q1.spec_infos() == q0.spec_infos().update(
            fuse.spec_index() as int,
            BufferInfo {
                state: BufferState::Free,
                features: q0.spec_infos()[fuse.spec_index() as int].features,
            },
        )
        &&& q1.spec_num_queued() == q0.spec_num_queued()
        &&& q1.spec_base() == q0.spec_base()
        &&& q1.spec_streaming() == q0.spec_streaming()
        &&& q1.spec_memory_type() == q0.spec_memory_type()
    } else {
        q1 == q0
    }
}

/// A buffer reserved for queueing: it owns its slot, which is in the
/// reserved state until the buffer is submitted or abandoned.
#[derive(Debug)]
pub struct QBuffer {
    index: usize,
    generation: u64,
    num_planes: usize,
}

impl QBuffer {
    /// The slot this reservation owns.
    pub closed spec fn spec_index(&self) -> usize {
        self.index
    }

    /// The buffer allocation this reservation belongs to.
    pub closed spec fn spec_generation(&self) -> u64 {
        self.generation
    }

    /// The number of planes a submission must supply handles for.
    pub closed spec fn spec_num_planes(&self) -> usize {
        self.num_planes
    }

    /// Whether this reservation is valid for `queue`: it belongs to the
    /// queue's current buffer allocation and its slot is reserved.
    pub open spec fn valid_for(&self, queue: Queue<BuffersAllocated>) -> bool {
        &&& self.spec_generation() == queue.spec_generation()
        &&& self.spec_index() < queue.spec_infos().len()
        &&& queue.spec_infos()[self.spec_index() as int].state is PreQueue
        &&& self.spec_num_planes() == queue.spec_infos()[self.spec_index() as int].features.num_planes
    }

    /// The slot index, for filling the buffer.
    pub fn index(&self) -> (r: usize)
        ensures
            r == self.spec_index(),
    {
        self.index
    }

    /// The number of planes to supply handles for.
    pub fn num_planes(&self) -> (r: usize)
        ensures
            r == self.spec_num_planes(),
    {
        self.num_planes
    }

    /// Submit this buffer with `handles`, one per plane; `reply` is the
    /// driver's answer. On success the slot moves to the queued state with
    /// the handles parked on it; on failure the slot returns to the free
    /// pool and the handles come back inside the error.
    pub fn queue_with_handles(
        self,
        queue: &mut Queue<BuffersAllocated>,
        handles: Vec<PlaneHandle>,
        reply: Result<(), i32>,
    ) -> (r: Result<(), QueueBufferError>)
        requires
            old(queue).wf(),
            self.valid_for(*old(queue)),
            handles@.len() == self.spec_num_planes(),
        ensures
            final(queue).wf(),
            final(queue).spec_base() == old(queue).spec_base(),
            final(queue).spec_streaming() == old(queue).spec_streaming(),
            final(queue).spec_memory_type() == old(queue).spec_memory_type(),
            match reply {
                Ok(()) => {
                    &&& r == Ok::<(), QueueBufferError>(())
                    &&& final(queue).spec_infos() == old(queue).spec_infos().update(
                        self.spec_index() as int,
                        BufferInfo {
                            state: BufferState::Queued(handles),
                            features: old(queue).spec_infos()[self.spec_index() as int].features,
                        },
                    )
                    &&& final(queue).spec_num_queued() == old(queue).spec_num_queued() + 1
                },
                Err(e) => {
                    &&& r matches Err(qe)
                    &&& qe.errno == e
                    &&& qe.plane_handles == handles
                    &&& final(queue).spec_infos() == old(queue).spec_infos().update(
                        self.spec_index() as int,
                        BufferInfo {
                            state: BufferState::Free,
                            features: old(queue).spec_infos()[self.spec_index() as int].features,
                        },
                    )
                    &&& final(queue).spec_num_queued() == old(queue).spec_num_queued()
                },
            },
    {
        let features = queue.state.buffer_info[self.index].features;
        let n = queue.state.buffer_info.len();
        proof {
            lemma_count_queued_upper_bound(old(queue).spec_infos(), self.spec_index() as int);
            assert(queue.state.num_queued_buffers < n);
        }
        match reply {
            Ok(()) => {
                queue.state.buffer_info.set(
                    self.index,
                    BufferInfo { state: BufferState::Queued(handles), features },
                );
                queue.state.num_queued_buffers = queue.state.num_queued_buffers + 1;
                proof {
                    lemma_count_queued_update(
                        old(queue).spec_infos(),
                        self.spec_index() as int,
                        final(queue).spec_infos()[self.spec_index() as int],
                    );
                }
                Ok(())
            },
            Err(e) => {
                queue.state.buffer_info.set(
                    self.index,
                    BufferInfo { state: BufferState::Free, features },
                );
                proof {
                    lemma_count_queued_update(
                        old(queue).spec_infos(),
                        self.spec_index() as int,
                        final(queue).spec_infos()[self.spec_index() as int],
                    );
                }
                Err(QueueBufferError { errno: e, plane_handles: handles })
            },
        }
    }

    /// Give the reservation up without submitting: the slot returns to the
    /// free pool, exactly as dropping the handle would.
    pub fn abandon(self, queue: &mut Queue<BuffersAllocated>)
        requires
            old(queue).wf(),
            self.valid_for(*old(queue)),
        ensures
            final(queue).wf(),
            final(queue).spec_base() == old(queue).spec_base(),
            final(queue).spec_streaming() == old(queue).spec_streaming(),
            final(queue).spec_memory_type() == old(queue).spec_memory_type(),
            final(queue).spec_num_queued() == old(queue).spec_num_queued(),
            final(queue).spec_infos() == old(queue).spec_infos().update(
                self.spec_index() as int,
                BufferInfo {
                    state: BufferState::Free,
                    features: old(queue).spec_infos()[self.spec_index() as int].features,
                },
            ),
    {
        let features = queue.state.buffer_info[self.index].features;
        queue.state.buffer_info.set(
            self.index,
            BufferInfo { state: BufferState::Free, features },
        );
        proof {
            lemma_count_queued_update(
                old(queue).spec_infos(),
                self.spec_index() as int,
                final(queue).spec_infos()[self.spec_index() as int],
            );
        }
    }
}

/// A dequeued buffer handle. It owns its slot, which stays in the dequeued
/// state until the handle is released; the plane handles that were parked
/// on the buffer travel with it.
#[derive(Debug)]
pub struct DQBuffer {
    /// What the driver reported about the dequeued buffer.
    pub data: DqBufData,
    plane_handles: Option<Vec<PlaneHandle>>,
    fuse: BufferStateFuse,
}

impl DQBuffer {
    /// What the driver reported about the dequeued buffer.
    pub closed spec fn spec_data(&self) -> DqBufData {
        self.data
    }

    /// The plane handles still held by this buffer.
    pub closed spec fn spec_handles(&self) -> Option<Vec<PlaneHandle>> {
        self.plane_handles
    }

    /// The fuse that will return the slot to the free pool.
    pub closed spec fn spec_fuse(&self) -> BufferStateFuse {
        self.fuse
    }

    /// What the driver reported about the dequeued buffer.
    pub fn data(&self) -> (r: &DqBufData)
        ensures
            *r == self.spec_data(),
    {
        &self.data
    }

    /// Take the plane handles out of the buffer, if still present.
    pub fn take_handles(&mut self) -> (r: Option<Vec<PlaneHandle>>)
        ensures
            r == old(self).spec_handles(),
            final(self).spec_handles() is None,
            final(self).spec_data() == old(self).spec_data(),
            final(self).spec_fuse() == old(self).spec_fuse(),
    {
        self.plane_handles.take()
    }

    /// Release the buffer: its slot returns to the free pool, unless the
    /// queue has reallocated its buffers since the dequeue.
    pub fn release(self, queue: &mut Queue<BuffersAllocated>)
        requires
            old(queue).wf(),
            self.spec_fuse().spec_armed() && self.spec_fuse().spec_generation() == old(
                queue,
            ).spec_generation() && self.spec_fuse().spec_index() < old(queue).spec_infos().len()
                ==> !(old(queue).spec_infos()[self.spec_fuse().spec_index() as int].state
                is Queued),
        ensures
            final(queue).wf(),
            spec_triggered(self.spec_fuse(), *old(queue), *final(queue)),
    {
        let DQBuffer { data: _, plane_handles: _, fuse: mut fuse } = self;
        fuse.trigger(queue);
    }
}

impl Queue<BuffersAllocated> {
    /// The current allocation number, used to bind fuses to allocations.
    pub(crate) fn spec_generation_exec(&self) -> (r: u64)
        ensures
            r == self.spec_generation(),
    {
        self.inner.alloc_generation
    }

    /// Take buffer `index` in order to prepare it for queueing, provided it
    /// is free.
    pub fn try_get_buffer(&mut self, index: usize) -> (r: Result<QBuffer, TryGetBufferError>)
        requires
            old(self).wf(),
        ensures
            final(self).wf(),
            final(self).spec_base() == old(self).spec_base(),
            final(self).spec_streaming() == old(self).spec_streaming(),
            final(self).spec_memory_type() == old(self).spec_memory_type(),
            final(self).spec_num_queued() == old(self).spec_num_queued(),
            index >= old(self).spec_infos().len() ==> r == Err::<QBuffer, TryGetBufferError>(
                TryGetBufferError::InvalidIndex(index),
            ) && *final(self) == *old(self),
            index < old(self).spec_infos().len() && !(old(self).spec_infos()[index as int].state
                is Free) ==> r == Err::<QBuffer, TryGetBufferError>(TryGetBufferError::AlreadyUsed)
                && *final(self) == *old(self),
            index < old(self).spec_infos().len() && old(self).spec_infos()[index as int].state
                is Free ==> {
                &&& r matches Ok(b)
                &&& b.spec_index() == index
                &&& b.spec_generation() == old(self).spec_generation()
                &&& b.spec_num_planes() == old(self).spec_infos()[index as int].features.num_planes
                &&& b.valid_for(*final(self))
                &&& final(self).spec_infos() == old(self).spec_infos().update(
                    index as int,
                    BufferInfo {
                        state: BufferState::PreQueue,
                        features: old(self).spec_infos()[index as int].features,
                    },
                )
            },
    {
        if index >= self.state.buffer_info.len() {
            return Err(TryGetBufferError::InvalidIndex(index));
        }
        let is_free = match &self.state.buffer_info[index].state {
            BufferState::Free => true,
            _ => false,
        };
        if !is_free {
            return Err(TryGetBufferError::AlreadyUsed);
        }
        let features = self.state.buffer_info[index].features;
        self.state.buffer_info.set(
            index,
            BufferInfo { state: BufferState::PreQueue, features },
        );
        proof {
            lemma_count_queued_update(
                old(self).spec_infos(),
                index as int,
                final(self).spec_infos()[index as int],
            );
        }
        Ok(
            QBuffer {
                index,
                generation: self.inner.alloc_generation,
                num_planes: features.num_planes,
            },
        )
    }

    /// Reserve the free buffer with the lowest index, if any.
    pub fn try_get_free_buffer(&mut self) -> (r: Result<QBuffer, GetFreeBufferError>)
        requires
            old(self).wf(),
        ensures
            final(self).wf(),
            final(self).spec_base() == old(self).spec_base(),
            final(self).spec_streaming() == old(self).spec_streaming(),
            final(self).spec_memory_type() == old(self).spec_memory_type(),
            final(self).spec_num_queued() == old(self).spec_num_queued(),
            (forall|i: int|
                0 <= i < old(self).spec_infos().len() ==> !((#[trigger] old(
                    self,
                ).spec_infos()[i]).state is Free)) ==> r == Err::<QBuffer, GetFreeBufferError>(
                GetFreeBufferError::NoFreeBuffer,
            ) && *final(self) == *old(self),
            (exists|i: int|
                0 <= i < old(self).spec_infos().len() && (#[trigger] old(
                    self,
                ).spec_infos()[i]).state is Free) ==> {
                &&& r matches Ok(b)
                &&& b.spec_index() < old(self).spec_infos().len()
                &&& old(self).spec_infos()[b.spec_index() as int].state is Free
                &&& forall|j: int|
                    0 <= j < b.spec_index() ==> !((#[trigger] old(self).spec_infos()[j]).state
                        is Free)
                &&& b.spec_generation() == old(self).spec_generation()
                &&& b.valid_for(*final(self))
                &&& final(self).spec_infos() == old(self).spec_infos().update(
                    b.spec_index() as int,
                    BufferInfo {
                        state: BufferState::PreQueue,
                        features: old(self).spec_infos()[b.spec_index() as int].features,
                    },
                )
            },
    {
        let n = self.state.buffer_info.len();
        let mut i: usize = 0;
        while i < n
            invariant
                *self == *old(self),
                old(self).wf(),
                i <= n,
                n == self.state.buffer_info@.len(),
                forall|j: int|
                    0 <= j < i ==> !((#[trigger] self.state.buffer_info@[j]).state is Free),
            decreases n - i,
        {
            let is_free = match &self.state.buffer_info[i].state {
                BufferState::Free => true,
                _ => false,
            };
            if is_free {
                match self.try_get_buffer(i) {
                    Ok(b) => {
                        return Ok(b);
                    },
                    Err(_) => {
                        proof {
                            assert(false);
                        }
                    },
                }
            }
            i += 1;
        }
        Err(GetFreeBufferError::NoFreeBuffer)
    }

    /// Dequeue one completed buffer; `reply` is the driver's answer. On a
    /// successful or corrupted dequeue the slot moves to the dequeued state
    /// and its parked plane handles travel out with the returned handle,
    /// whose armed fuse will return the slot to the free pool.
    pub fn try_dequeue(&mut self, reply: DqBufReply) -> (r: Result<DQBuffer, DQBufError>)
        requires
            old(self).wf(),
            reply matches DqBufReply::Dequeued(d) ==> d.index < old(self).spec_infos().len()
                && old(self).spec_infos()[d.index as int].state is Queued && d.planes@.len()
                == old(self).spec_infos()[d.index as int].features.num_planes,
            reply matches DqBufReply::CorruptedBuffer(d) ==> d.index < old(
                self,
            ).spec_infos().len() && old(self).spec_infos()[d.index as int].state is Queued
                && d.planes@.len() == old(self).spec_infos()[d.index as int].features.num_planes,
        ensures
            final(self).wf(),
            final(self).spec_base() == old(self).spec_base(),
            final(self).spec_streaming() == old(self).spec_streaming(),
            final(self).spec_memory_type() == old(self).spec_memory_type(),
            match reply {
                DqBufReply::Dequeued(d) => {
                    &&& r matches Ok(b)
                    &&& spec_dequeued(*old(self), *final(self), d, b)
                },
                DqBufReply::CorruptedBuffer(d) => {
                    &&& r matches Err(e)
                    &&& e matches DQBufError::CorruptedBuffer(b)
                    &&& spec_dequeued(*old(self), *final(self), d, b)
                },
                DqBufReply::NotReady => r matches Err(e) && e is NotReady && *final(self) == *old(
                    self,
                ),
                DqBufReply::Eos => r matches Err(e) && e is Eos && *final(self) == *old(self),
                DqBufReply::IoctlError(code) => r matches Err(e) && e matches DQBufError::IoctlError(
                    c,
                ) && c == code && *final(self) == *old(self),
            },
    {
        let data = match reply {
            DqBufReply::Dequeued(d) => d,
            DqBufReply::CorruptedBuffer(d) => {
                let b = self.dequeue_slot(d);
                return Err(DQBufError::CorruptedBuffer(b));
            },
            DqBufReply::NotReady => {
                return Err(DQBufError::NotReady);
            },
            DqBufReply::Eos => {
                return Err(DQBufError::Eos);
            },
            DqBufReply::IoctlError(code) => {
                return Err(DQBufError::IoctlError(code));
            },
        };
        Ok(self.dequeue_slot(data))
    }

    /// Move the slot the driver reported out of the queued state and build
    /// the dequeued handle around its parked plane handles.
    fn dequeue_slot(&mut self, data: DqBufData) -> (b: DQBuffer)
        requires
            old(self).wf(),
            data.index < old(self).spec_infos().len(),
            old(self).spec_infos()[data.index as int].state is Queued,
        ensures
            final(self).wf(),
            final(self).spec_base() == old(self).spec_base(),
            final(self).spec_streaming() == old(self).spec_streaming(),
            final(self).spec_memory_type() == old(self).spec_memory_type(),
            spec_dequeued(*old(self), *final(self), data, b),
    {
        let index = data.index;
        let features = self.state.buffer_info[index].features;
        let mut taken = BufferInfo { state: BufferState::Dequeued, features };
        self.state.buffer_info.set_and_swap(index, &mut taken);
        let handles = match taken.state {
            BufferState::Queued(handles) => handles,
            _ => {
                proof {
                    assert(false);
                }
                Vec::new()
            },
        };
        proof {
            lemma_count_queued_lower_bound(old(self).spec_infos(), index as int);
            lemma_count_queued_update(
                old(self).spec_infos(),
                index as int,
                final(self).spec_infos()[index as int],
            );
        }
        self.state.num_queued_buffers = self.state.num_queued_buffers - 1;
        let fuse = BufferStateFuse::new(index, self.inner.alloc_generation);
        DQBuffer { data, plane_handles: Some(handles), fuse }
    }
}

/// What a successful (or corrupted) dequeue of `d` does: the slot moves to
/// the dequeued state, the queued counter drops by one, and the returned
/// handle carries the driver's data, the parked plane handles and a fuse
/// armed against the slot.
pub open spec fn spec_dequeued(
    q0: Queue<BuffersAllocated>,
    q1: Queue<BuffersAllocated>,
    d: DqBufData,
    b: DQBuffer,
) -> bool {
    &&& q1.spec_infos() == q0.spec_infos().update(
        d.index as int,
        BufferInfo {
            state: BufferState::Dequeued,
            features: q0.spec_infos()[d.index as int].features,
        },
    )
    &&& q1.spec_num_queued() == q0.spec_num_queued() - 1
    &&& b.spec_data() == d
    &&& (match q0.spec_infos()[d.index as int].state {
        BufferState::Queued(h) => b.spec_handles() == Some(h),
        _ => false,
    })
    &&& b.spec_fuse().spec_armed()
    &&& b.spec_fuse().spec_index() == d.index
    &&& b.spec_fuse().spec_generation() == q0.spec_generation()
}

impl Queue<BuffersAllocated> {
    /// A dequeued buffer handle carries exactly one plane handle per plane
    /// of its slot.
    pub proof fn lemma_dequeued_handles_match_planes(
        q0: Queue<BuffersAllocated>,
        q1: Queue<BuffersAllocated>,
        d: DqBufData,
        b: DQBuffer,
    )
        requires
            q0.wf(),
            d.index < q0.spec_infos().len(),
            spec_dequeued(q0, q1, d, b),
        ensures
            b.spec_handles() matches Some(h) && h@.len()
                == q0.spec_infos()[d.index as int].features.num_planes,
    {
    }
}

/// A fuse that is disarmed, or armed against a buffer allocation the queue
/// no longer holds, does nothing when triggered.
pub proof fn lemma_stale_fuse_trigger_is_noop(
    fuse: BufferStateFuse,
    q0: Queue<BuffersAllocated>,
    q1: Queue<BuffersAllocated>,
)
    requires
        spec_triggered(fuse, q0, q1),
        !fuse.spec_armed() || fuse.spec_generation() != q0.spec_generation()
            || fuse.spec_index() >= q0.spec_infos().len(),
    ensures
        q1 == q0,
{
}

/// A queue of a given type is borrowed at most once: handing it out a
/// second time while the first borrow stands can only fail.
pub proof fn lemma_queue_borrowed_at_most_once(
    dev0: Device,
    dev1: Device,
    dev2: Device,
    queue_type: QueueType,
    desc1: Result<QueueDescription, i32>,
    desc2: Result<QueueDescription, i32>,
    r1: Result<Queue<QueueInit>, CreateQueueError>,
    r2: Result<Queue<QueueInit>, CreateQueueError>,
)
    requires
        spec_create_outcome(dev0, dev1, queue_type, desc1, r1),
        r1 is Ok,
        spec_create_outcome(dev1, dev2, queue_type, desc2, r2),
    ensures
        r2 == Err::<Queue<QueueInit>, CreateQueueError>(CreateQueueError::AlreadyBorrowed),
        dev2 == dev1,
{
    assert(dev1.spec_borrowed().contains(queue_type));
}

/// Allocating buffers and freeing them again returns a queue to the
/// initial state with identical capability bits, formats and format: the
/// allocation transition preserves them and the release transition
/// preserves the whole base.
pub proof fn lemma_allocate_then_free_round_trip(
    q0: Queue<QueueInit>,
    q1: Queue<BuffersAllocated>,
    q2: Queue<QueueInit>,
)
    requires
        q1.spec_type() == q0.spec_type(),
        q1.spec_capabilities() == q0.spec_capabilities(),
        q1.spec_formats() == q0.spec_formats(),
        q1.spec_format() == q0.spec_format(),
        q2.spec_base() == q1.spec_base(),
    ensures
        q2.spec_type() == q0.spec_type(),
        q2.spec_capabilities() == q0.spec_capabilities(),
        q2.spec_formats() == q0.spec_formats(),
        q2.spec_format() == q0.spec_format(),
{
}

/// Reserving a free buffer and then abandoning the reservation leaves
/// every per-buffer state as it was.
pub proof fn lemma_reserve_then_abandon_restores(infos: Seq<BufferInfo>, i: int)
    requires
        0 <= i < infos.len(),
        infos[i].state is Free,
    ensures
        infos.update(
            i,
            BufferInfo { state: BufferState::PreQueue, features: infos[i].features },
        ).update(i, BufferInfo { state: BufferState::Free, features: infos[i].features })
            == infos,
{
    assert(infos.update(
        i,
        BufferInfo { state: BufferState::PreQueue, features: infos[i].features },
    ).update(i, BufferInfo { state: BufferState::Free, features: infos[i].features })
        =~= infos);
}

/// Stopping the stream of a queue whose buffers are all free cancels
/// nothing and changes no per-buffer state.
pub proof fn lemma_stream_off_all_free(infos: Seq<BufferInfo>)
    requires
        forall|i: int| 0 <= i < infos.len() ==> (#[trigger] infos[i]).state is Free,
    ensures
        spec_canceled(infos) == Seq::<CanceledBuffer>::empty(),
        forall|i: int|
            0 <= i < infos.len() ==> (if (#[trigger] infos[i]).state is Queued {
                BufferInfo { state: BufferState::Free, features: infos[i].features }
            } else {
                infos[i]
            }) == infos[i],
    decreases infos.len(),
{
    if infos.len() > 0 {
        lemma_stream_off_all_free(infos.drop_last());
        assert(spec_canceled(infos) =~= Seq::<CanceledBuffer>::empty());
    }
}

} // verus!
