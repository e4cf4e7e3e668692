//! The opened decoder device: capability bits and the registry that hands
//! each queue type out at most once.

use vstd::prelude::*;

use crate::format::{Format, FormatDesc};

verus! {

/// The four queue types a video device can expose.
#[derive(Clone, Copy, Debug, PartialEq, Eq, Structural)]
pub enum QueueType {
    VideoOutput,
    VideoOutputMplane,
    VideoCapture,
    VideoCaptureMplane,
}

/// Capability bits the driver reports for a queue.
#[derive(Clone, Copy, Debug, PartialEq, Eq, Structural)]
pub struct BufferCapabilities(pub u32);

/// Bit set when the queue accepts request-based (stateless) submission.
pub const BUFFER_CAP_SUPPORTS_REQUESTS: u32 = 0x8;

impl BufferCapabilities {
    /// Whether any bit of `mask` is set.
    pub open spec fn spec_contains(self, mask: u32) -> bool {
        self.0 & mask != 0
    }

    pub fn contains(self, mask: u32) -> (r: bool)
        ensures
            r == self.spec_contains(mask),
    {
        self.0 & mask != 0
    }
}

/// What the driver reports about one queue when it is probed: its
/// capability bits, the formats it supports and its currently set format.
#[derive(Debug)]
pub struct QueueDescription {
    pub capabilities: BufferCapabilities,
    pub formats: Vec<FormatDesc>,
    pub current_format: Format,
}

/// A handle to an opened device node.
///
/// It keeps the process-local registry of which queue types are currently
/// borrowed, so a queue of a given type can be obtained at most once at a
/// time.
pub struct Device {
    used_queues: Vec<QueueType>,
}

impl Device {
    /// The set of queue types currently borrowed from this device.
    pub closed spec fn spec_borrowed(&self) -> Set<QueueType> {
        self.used_queues@.to_set()
    }

    /// The registry lists each borrowed type once.
    pub closed spec fn wf(&self) -> bool {
        self.used_queues@.no_duplicates()
    }

    /// A freshly opened device: no queue is borrowed yet.
    pub fn new() -> (d: Device)
        ensures
            d.wf(),
            d.spec_borrowed() == Set::<QueueType>::empty(),
    {
        let d = Device { used_queues: Vec::new() };
        proof {
            assert(d.spec_borrowed() =~= Set::<QueueType>::empty());
        }
        d
    }

    /// Whether a queue of `queue_type` is currently borrowed.
    pub fn is_borrowed(&self, queue_type: QueueType) -> (r: bool)
        ensures
            r == self.spec_borrowed().contains(queue_type),
    {
        let mut i: usize = 0;
        while i < self.used_queues.len()
            invariant
                i <= self.used_queues@.len(),
                forall|j: int| 0 <= j < i ==> self.used_queues@[j] != queue_type,
            decreases self.used_queues@.len() - i,
        {
            if self.used_queues[i] == queue_type {
                assert(self.spec_borrowed().contains(queue_type));
                return true;
            }
            i += 1;
        }
        assert(!self.used_queues@.contains(queue_type));
        false
    }

    /// Record that a queue of `queue_type` has been handed out.
    pub fn mark_borrowed(&mut self, queue_type: QueueType)
        requires
            old(self).wf(),
            !old(self).spec_borrowed().contains(queue_type),
        ensures
            final(self).wf(),
            final(self).spec_borrowed() == old(self).spec_borrowed().insert(queue_type),
    {
        proof {
            assert(!self.used_queues@.contains(queue_type));
        }
        self.used_queues.push(queue_type);
        proof {
            assert(self.used_queues@.drop_last() == old(self).used_queues@);
            lemma_to_set_push(old(self).used_queues@, queue_type);
        }
    }

    /// Release a borrowed queue type, making it available again.
    pub fn release_queue_type(&mut self, queue_type: QueueType)
        requires
            old(self).wf(),
        ensures
            final(self).wf(),
            final(self).spec_borrowed() == old(self).spec_borrowed().remove(queue_type),
    {
        let mut kept: Vec<QueueType> = Vec::new();
        let mut i: usize = 0;
        while i < self.used_queues.len()
            invariant
                i <= self.used_queues@.len(),
                old(self).used_queues == self.used_queues,
                kept@ == old(self).used_queues@.take(i as int).filter(
                    |t: QueueType| t != queue_type,
                ),
            decreases self.used_queues@.len() - i,
        {
            proof {
                assert(old(self).used_queues@.take(i + 1).drop_last() == old(
                    self,
                ).used_queues@.take(i as int));
                reveal(Seq::filter);
            }
            let t = self.used_queues[i];
            if !(t == queue_type) {
                kept.push(t);
            }
            i += 1;
        }
        proof {
            assert(old(self).used_queues@.take(self.used_queues@.len() as int) == old(
                self,
            ).used_queues@);
        }
        self.used_queues = kept;
        proof {
            lemma_filter_out(old(self).used_queues@, queue_type);
        }
    }
}

/// Filtering one element out of a duplicate-free sequence removes exactly it
/// from the element set and keeps the rest duplicate-free.
proof fn lemma_filter_out(s: Seq<QueueType>, x: QueueType)
    requires
        s.no_duplicates(),
    ensures
        s.filter(|t: QueueType| t != x).to_set() == s.to_set().remove(x),
        s.filter(|t: QueueType| t != x).no_duplicates(),
    decreases s.len(),
{
    lemma_filter_to_set(s, x);
    reveal(Seq::filter);
    if s.len() > 0 {
        lemma_filter_out(s.drop_last(), x);
        lemma_filter_to_set(s.drop_last(), x);
        let kept = s.drop_last().filter(|t: QueueType| t != x);
        if s.last() != x {
            assert(!kept.contains(s.last())) by {
                if kept.contains(s.last()) {
                    assert(kept.to_set().contains(s.last()));
                    assert(s.drop_last().contains(s.last()));
                    let j = choose|j: int|
                        0 <= j < s.drop_last().len() && s.drop_last()[j] == s.last();
                    assert(s[j] == s[s.len() - 1]);
                }
            }
            assert(kept.push(s.last()).no_duplicates());
        }
    }
}

/// Filtering one element out of a sequence removes exactly it from the
/// element set.
proof fn lemma_filter_to_set(s: Seq<QueueType>, x: QueueType)
    ensures
        s.filter(|t: QueueType| t != x).to_set() == s.to_set().remove(x),
    decreases s.len(),
{
    reveal(Seq::filter);
    if s.len() == 0 {
        assert(s.filter(|t: QueueType| t != x).to_set() =~= s.to_set().remove(x));
    } else {
        lemma_filter_to_set(s.drop_last(), x);
        assert(s.drop_last().push(s.last()) == s);
        assert(s.to_set() == s.drop_last().to_set().insert(s.last())) by {
            lemma_to_set_push(s.drop_last(), s.last());
        }
        assert(s.filter(|t: QueueType| t != x).to_set() =~= s.to_set().remove(x)) by {
            if s.last() != x {
                lemma_to_set_push(s.drop_last().filter(|t: QueueType| t != x), s.last());
            }
        }
    }
}

/// Pushing an element onto a sequence inserts it into the element set.
proof fn lemma_to_set_push(s: Seq<QueueType>, x: QueueType)
    ensures
        s.push(x).to_set() == s.to_set().insert(x),
{
    assert forall|y: QueueType| s.push(x).to_set().contains(y) implies s.to_set().insert(
        x,
    ).contains(y) by {
        let i = choose|i: int| 0 <= i < s.push(x).len() && s.push(x)[i] == y;
        if i < s.len() {
            assert(s[i] == y);
        }
    }
    assert forall|y: QueueType| s.to_set().insert(x).contains(y) implies s.push(
        x,
    ).to_set().contains(y) by {
        if s.to_set().contains(y) {
            let i = choose|i: int| 0 <= i < s.len() && s[i] == y;
            assert(s.push(x)[i] == y);
        } else {
            assert(s.push(x)[s.len() as int] == y);
        }
    }
    assert(s.push(x).to_set() =~= s.to_set().insert(x));
}

} // verus!
