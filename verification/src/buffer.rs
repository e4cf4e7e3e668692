//! Per-buffer data: plane handles, the buffer lifecycle state and the
//! counting facts the queue invariant rests on.

use vstd::prelude::*;

verus! {

/// Flag bits the driver attaches to a dequeued buffer.
#[derive(Clone, Copy, Debug, PartialEq, Eq, Structural)]
pub struct BufferFlags(pub u32);

/// Bit marking the last buffer of the stream.
pub const BUFFER_FLAG_LAST: u32 = 0x0010_0000;

/// Bit marking a buffer the driver reported as corrupted.
pub const BUFFER_FLAG_ERROR: u32 = 0x0040;

impl BufferFlags {
    /// Whether any bit of `mask` is set.
    pub open spec fn spec_contains(self, mask: u32) -> bool {
        self.0 & mask != 0
    }

    pub fn contains(self, mask: u32) -> (r: bool)
        ensures
            r == self.spec_contains(mask),
    {
        self.0 & mask != 0
    }
}

/// A memory handle for one plane of a buffer.
///
/// With the userptr backend the client supplies the bytes; with the MMAP
/// backend the driver owns the memory and the handle is a placeholder slot.
#[derive(Debug, PartialEq, Eq)]
pub enum PlaneHandle {
    UserPtr(Vec<u8>),
    Mmap { slot: usize, length: usize },
}

impl PlaneHandle {
    /// The default-constructed MMAP placeholder handle.
    pub open spec fn spec_default_mmap() -> PlaneHandle {
        PlaneHandle::Mmap { slot: 0, length: 0 }
    }

    pub fn default_mmap() -> (h: PlaneHandle)
        ensures
            h == PlaneHandle::spec_default_mmap(),
    {
        PlaneHandle::Mmap { slot: 0, length: 0 }
    }
}

/// The memory backend a queue's buffers were allocated with.
#[derive(Clone, Copy, Debug, PartialEq, Eq, Structural)]
pub enum MemoryType {
    Mmap,
    UserPtr,
}

/// The static features the driver reports for one allocated buffer slot.
#[derive(Clone, Copy, Debug, PartialEq, Eq, Structural)]
pub struct QueryBuffer {
    /// Index of the slot within its queue.
    pub index: usize,
    /// Number of planes each frame in this slot carries.
    pub num_planes: usize,
}

/// Per-plane payload data the driver reports on dequeue.
#[derive(Clone, Copy, Debug, PartialEq, Eq, Structural)]
pub struct PlaneData {
    pub bytesused: u32,
}

/// Everything the driver reports about one dequeued buffer.
#[derive(Debug, PartialEq, Eq)]
pub struct DqBufData {
    pub index: usize,
    pub flags: BufferFlags,
    pub planes: Vec<PlaneData>,
}

/// The lifecycle state of one allocated buffer.
///
/// A buffer is in exactly one of these four states. Plane handles exist
/// only while the driver owns the buffer: they are parked in `Queued` and
/// travel onwards with the dequeued handle.
#[derive(Debug)]
pub enum BufferState {
    /// Owned by nobody; eligible for acquisition.
    Free,
    /// Reserved by a client holder being filled.
    PreQueue,
    /// Owned by the driver; the plane handles are parked here.
    Queued(Vec<PlaneHandle>),
    /// Owned by an outstanding dequeued-buffer handle.
    Dequeued,
}

/// One record of the queue's buffer table.
#[derive(Debug)]
pub struct BufferInfo {
    pub state: BufferState,
    pub features: QueryBuffer,
}

/// How many records of `s` are in the `Queued` state.
pub open spec fn count_queued(s: Seq<BufferInfo>) -> int
    decreases s.len(),
{
    if s.len() == 0 {
        0
    } else {
        count_queued(s.drop_last()) + if s.last().state is Queued {
            1int
        } else {
            0int
        }
    }
}

/// No sequence holds more queued records than records.
pub proof fn lemma_count_queued_le_len(s: Seq<BufferInfo>)
    ensures
        0 <= count_queued(s) <= s.len(),
    decreases s.len(),
{
    if s.len() > 0 {
        lemma_count_queued_le_len(s.drop_last());
    }
}

/// How replacing one record changes the queued count.
pub proof fn lemma_count_queued_update(s: Seq<BufferInfo>, i: int, v: BufferInfo)
    requires
        0 <= i < s.len(),
    ensures
        count_queued(s.update(i, v)) == count_queued(s) + (if v.state is Queued {
            1int
        } else {
            0int
        }) - (if s[i].state is Queued {
            1int
        } else {
            0int
        }),
    decreases s.len(),
{
    let t = s.update(i, v);
    if i == s.len() - 1 {
        assert(t.drop_last() =~= s.drop_last());
    } else {
        assert(t.drop_last() =~= s.drop_last().update(i, v));
        lemma_count_queued_update(s.drop_last(), i, v);
    }
}

/// A record in the `Queued` state bounds the queued count from below.
pub proof fn lemma_count_queued_lower_bound(s: Seq<BufferInfo>, i: int)
    requires
        0 <= i < s.len(),
        s[i].state is Queued,
    ensures
        count_queued(s) >= 1,
    decreases s.len(),
{
    if i == s.len() - 1 {
        lemma_count_queued_le_len(s.drop_last());
    } else {
        lemma_count_queued_lower_bound(s.drop_last(), i);
    }
}

/// A record not in the `Queued` state bounds the queued count from above.
pub proof fn lemma_count_queued_upper_bound(s: Seq<BufferInfo>, i: int)
    requires
        0 <= i < s.len(),
        !(s[i].state is Queued),
    ensures
        count_queued(s) <= s.len() - 1,
    decreases s.len(),
{
    if i == s.len() - 1 {
        lemma_count_queued_le_len(s.drop_last());
    } else {
        lemma_count_queued_upper_bound(s.drop_last(), i);
    }
}

/// How many records of `s` are in the `Free` state.
pub open spec fn count_free(s: Seq<BufferInfo>) -> int
    decreases s.len(),
{
    if s.len() == 0 {
        0
    } else {
        count_free(s.drop_last()) + if s.last().state is Free {
            1int
        } else {
            0int
        }
    }
}

/// No sequence holds more free records than records.
pub proof fn lemma_count_free_le_len(s: Seq<BufferInfo>)
    ensures
        0 <= count_free(s) <= s.len(),
    decreases s.len(),
{
    if s.len() > 0 {
        lemma_count_free_le_len(s.drop_last());
    }
}

/// How replacing one record changes the free count.
pub proof fn lemma_count_free_update(s: Seq<BufferInfo>, i: int, v: BufferInfo)
    requires
        0 <= i < s.len(),
    ensures
        count_free(s.update(i, v)) == count_free(s) + (if v.state is Free {
            1int
        } else {
            0int
        }) - (if s[i].state is Free {
            1int
        } else {
            0int
        }),
    decreases s.len(),
{
    let t = s.update(i, v);
    if i == s.len() - 1 {
        assert(t.drop_last() =~= s.drop_last());
    } else {
        assert(t.drop_last() =~= s.drop_last().update(i, v));
        lemma_count_free_update(s.drop_last(), i, v);
    }
}

/// A table of free records counts every record as free.
pub proof fn lemma_count_free_all_free(s: Seq<BufferInfo>)
    requires
        forall|i: int| 0 <= i < s.len() ==> (#[trigger] s[i]).state is Free,
    ensures
        count_free(s) == s.len(),
    decreases s.len(),
{
    if s.len() > 0 {
        lemma_count_free_all_free(s.drop_last());
    }
}

/// A record in the `Free` state bounds the free count from below.
pub proof fn lemma_count_free_lower_bound(s: Seq<BufferInfo>, i: int)
    requires
        0 <= i < s.len(),
        s[i].state is Free,
    ensures
        count_free(s) >= 1,
    decreases s.len(),
{
    if i == s.len() - 1 {
        lemma_count_free_le_len(s.drop_last());
    } else {
        lemma_count_free_lower_bound(s.drop_last(), i);
    }
}

/// The default-constructed placeholder handles an MMAP buffer is queued
/// with: one per plane.
pub open spec fn spec_default_handles(n: int) -> Seq<PlaneHandle> {
    Seq::new(n as nat, |i: int| PlaneHandle::spec_default_mmap())
}

/// Build the placeholder handles for an MMAP buffer of `n` planes.
pub fn make_default_handles(n: usize) -> (r: Vec<PlaneHandle>)
    ensures
        r@ == spec_default_handles(n as int),
{
    let mut r: Vec<PlaneHandle> = Vec::new();
    let mut i: usize = 0;
    while i < n
        invariant
            i <= n,
            r@.len() == i,
            forall|j: int| 0 <= j < i ==> r@[j] == PlaneHandle::spec_default_mmap(),
        decreases n - i,
    {
        r.push(PlaneHandle::default_mmap());
        i += 1;
    }
    proof {
        assert(r@ =~= spec_default_handles(n as int));
    }
    r
}

/// The plane handles associated with a buffer state: handles exist only
/// while the driver owns the buffer.
pub open spec fn spec_state_handles(s: BufferState) -> Seq<PlaneHandle> {
    match s {
        BufferState::Queued(h) => h@,
        _ => Seq::empty(),
    }
}

/// A buffer outside the queued state has no plane handles associated.
pub proof fn lemma_only_queued_buffers_hold_handles(s: BufferState)
    requires
        !(s is Queued),
    ensures
        spec_state_handles(s) == Seq::<PlaneHandle>::empty(),
{
}

/// Every buffer is in exactly one of the four lifecycle states, and plane
/// handles exist exactly while the buffer is queued.
pub proof fn lemma_buffer_state_exclusive(s: BufferState)
    ensures
        (s is Free || s is PreQueue || s is Queued || s is Dequeued),
        s is Free ==> !(s is PreQueue) && !(s is Queued) && !(s is Dequeued),
        s is PreQueue ==> !(s is Free) && !(s is Queued) && !(s is Dequeued),
        s is Queued ==> !(s is Free) && !(s is PreQueue) && !(s is Dequeued),
        s is Dequeued ==> !(s is Free) && !(s is PreQueue) && !(s is Queued),
{
}

} // verus!
