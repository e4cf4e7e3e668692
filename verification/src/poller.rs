//! The poller model: which event kinds a poll call would wait for, the
//! cross-thread waker, and the optional wakeup counter.
//!
//! The blocking poll itself is a system call the caller performs; its result
//! enters the library as a [`PollEvents`] value.

use vstd::prelude::*;

verus! {

/// One kind of event a poller can subscribe to.
#[derive(Clone, Copy, Debug, PartialEq, Eq, Structural)]
pub enum DeviceEvent {
    /// A V4L2 event (such as a source change) is pending.
    V4L2Event,
    /// A CAPTURE buffer is ready to dequeue.
    CaptureReady,
    /// An OUTPUT buffer is ready to dequeue.
    OutputReady,
}

/// The set of events one poll call reported.
#[derive(Clone, Copy, Debug, PartialEq, Eq, Structural, Default)]
pub struct PollEvents {
    pub device_event: bool,
    pub device_capture: bool,
    pub device_output: bool,
    pub waker: bool,
}

/// A poller over the device: it records which event kinds the next poll
/// call waits for, whether the waker has fired, and how many poll wakeups
/// have been counted.
#[derive(Debug)]
pub struct Poller {
    event_enabled: bool,
    capture_enabled: bool,
    output_enabled: bool,
    waker_pending: bool,
    poll_wakeups_counter: Option<u64>,
}

impl Poller {
    /// Whether `event` is subscribed.
    pub closed spec fn spec_enabled(&self, event: DeviceEvent) -> bool {
        match event {
            DeviceEvent::V4L2Event => self.event_enabled,
            DeviceEvent::CaptureReady => self.capture_enabled,
            DeviceEvent::OutputReady => self.output_enabled,
        }
    }

    /// Whether the waker has fired since it was last read.
    pub closed spec fn spec_waker_pending(&self) -> bool {
        self.waker_pending
    }

    /// The wakeup counter, if one was injected.
    pub closed spec fn spec_wakeups(&self) -> Option<u64> {
        self.poll_wakeups_counter
    }

    /// A fresh poller with no subscription.
    pub fn new() -> (p: Poller)
        ensures
            forall|e: DeviceEvent| !p.spec_enabled(e),
            !p.spec_waker_pending(),
            p.spec_wakeups() is None,
    {
        Poller {
            event_enabled: false,
            capture_enabled: false,
            output_enabled: false,
            waker_pending: false,
            poll_wakeups_counter: None,
        }
    }

    /// Subscribe to `event`.
    pub fn enable_event(&mut self, event: DeviceEvent)
        ensures
            final(self).spec_enabled(event),
            forall|e: DeviceEvent| e != event ==> final(self).spec_enabled(e) == old(
                self,
            ).spec_enabled(e),
            final(self).spec_waker_pending() == old(self).spec_waker_pending(),
            final(self).spec_wakeups() == old(self).spec_wakeups(),
    {
        match event {
            DeviceEvent::V4L2Event => {
                self.event_enabled = true;
            },
            DeviceEvent::CaptureReady => {
                self.capture_enabled = true;
            },
            DeviceEvent::OutputReady => {
                self.output_enabled = true;
            },
        }
    }

    /// Unsubscribe from `event`.
    pub fn disable_event(&mut self, event: DeviceEvent)
        ensures
            !final(self).spec_enabled(event),
            forall|e: DeviceEvent| e != event ==> final(self).spec_enabled(e) == old(
                self,
            ).spec_enabled(e),
            final(self).spec_waker_pending() == old(self).spec_waker_pending(),
            final(self).spec_wakeups() == old(self).spec_wakeups(),
    {
        match event {
            DeviceEvent::V4L2Event => {
                self.event_enabled = false;
            },
            DeviceEvent::CaptureReady => {
                self.capture_enabled = false;
            },
            DeviceEvent::OutputReady => {
                self.output_enabled = false;
            },
        }
    }

    /// Whether `event` is currently subscribed.
    pub fn is_enabled(&self, event: DeviceEvent) -> (r: bool)
        ensures
            r == self.spec_enabled(event),
    {
        match event {
            DeviceEvent::V4L2Event => self.event_enabled,
            DeviceEvent::CaptureReady => self.capture_enabled,
            DeviceEvent::OutputReady => self.output_enabled,
        }
    }

    /// Inject a wakeup counter seeded with `poll_wakeups_counter`.
    pub fn set_poll_counter(&mut self, poll_wakeups_counter: u64)
        ensures
            final(self).spec_wakeups() == Some(poll_wakeups_counter),
            final(self).spec_waker_pending() == old(self).spec_waker_pending(),
            forall|e: DeviceEvent| final(self).spec_enabled(e) == old(self).spec_enabled(e),
    {
        self.poll_wakeups_counter = Some(poll_wakeups_counter);
    }

    /// The current value of the wakeup counter, if one was injected.
    pub fn poll_wakeups(&self) -> (r: Option<u64>)
        ensures
            r == self.spec_wakeups(),
    {
        self.poll_wakeups_counter
    }

    /// Fire the waker. Safe to call from any context; the next poll call
    /// will report it.
    pub fn wake(&mut self)
        ensures
            final(self).spec_waker_pending(),
            final(self).spec_wakeups() == old(self).spec_wakeups(),
            forall|e: DeviceEvent| final(self).spec_enabled(e) == old(self).spec_enabled(e),
    {
        self.waker_pending = true;
    }

    /// Read and clear the waker, as a returning poll call does.
    pub fn take_waker(&mut self) -> (r: bool)
        ensures
            r == old(self).spec_waker_pending(),
            !final(self).spec_waker_pending(),
            final(self).spec_wakeups() == old(self).spec_wakeups(),
            forall|e: DeviceEvent| final(self).spec_enabled(e) == old(self).spec_enabled(e),
    {
        let r = self.waker_pending;
        self.waker_pending = false;
        r
    }

    /// Count one poll wakeup, if a counter was injected. The counter
    /// saturates rather than wrap.
    pub fn record_wakeup(&mut self)
        ensures
            final(self).spec_wakeups() == spec_counted(old(self).spec_wakeups()),
            final(self).spec_waker_pending() == old(self).spec_waker_pending(),
            forall|e: DeviceEvent| final(self).spec_enabled(e) == old(self).spec_enabled(e),
    {
        match self.poll_wakeups_counter {
            Some(count) => {
                if count < u64::MAX {
                    self.poll_wakeups_counter = Some(count + 1);
                }
            },
            None => (),
        }
    }
}

/// One saturating step of the optional wakeup counter.
pub open spec fn spec_counted(c: Option<u64>) -> Option<u64> {
    match c {
        Some(count) => if count < u64::MAX {
            Some((count + 1) as u64)
        } else {
            Some(count)
        },
        None => None,
    }
}

} // verus!
