//! User-space control plane for a stateful V4L2 memory-to-memory video
//! decoder.
//!
//! The library models the decoder lifecycle as a typestate machine: a
//! [`decoder::Decoder`] owns an OUTPUT and a CAPTURE queue of a
//! [`device::Device`] and moves through its phases one transition at a time.
//! Each queue is itself a small state machine ([`queue::Queue`]) that tracks
//! the ownership state of every allocated buffer, and a drop-guard fuse
//! returns a buffer to the free pool on every exit path.
//!
//! All driver interaction happens through ioctl system calls that the caller
//! performs; their results enter the library as plain reply values. Every
//! state transition taken on such a reply is verified: the twin-queue
//! buffer-ownership discipline, the queued-buffer accounting and the decoder
//! worker's decisions hold for every reply the driver can produce.

use vstd::prelude::*;

pub mod buffer;
pub mod decoder;
pub mod device;
pub mod format;
pub mod poller;
pub mod queue;
pub mod worker;

verus! {

} // verus!
