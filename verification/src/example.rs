//! A sample system: once per tick it waits on the frame barrier, then
//! increments its own counter and the shared number resource.

use crate::resources::{Read, ResourceReference, Write};
use crate::system::System;
use crate::{FramePoller, FrameSync, Poll};
use vstd::prelude::*;

verus! {

/// The next value of a counter, wrapping at the type's largest value.
pub open spec fn inc_u32(v: u32) -> u32 {
    if v == u32::MAX {
        0
    } else {
        (v + 1) as u32
    }
}

/// The next value of a counter, wrapping at the type's largest value.
pub open spec fn inc_u64(v: u64) -> u64 {
    if v == u64::MAX {
        0
    } else {
        (v + 1) as u64
    }
}

/// A sample system: each tick after the first, it reads the frame-tick
/// resource, increments its private counter, and increments the shared
/// number resource it declared write access to.
pub struct Example {
    /// The system's private per-tick counter.
    pub counter: u32,
    /// Read handle for the frame-tick resource.
    pub frame: Read,
    /// Write handle for the shared number resource.
    pub number: Write,
    /// The in-flight frame barrier, once the work has started.
    pub poller: Option<FramePoller>,
}

impl Example {
    /// The tick at which the currently armed barrier was created; a fresh
    /// barrier armed now records the current tick.
    pub open spec fn armed_frame(self, current_frame: u64) -> u64 {
        match self.poller {
            None => current_frame,
            Some(p) => p.frame,
        }
    }

    /// Whether the armed barrier is due: the tick counter has advanced
    /// past the tick recorded when the barrier was created.
    pub open spec fn due(self, current_frame: u64) -> bool {
        match self.poller {
            None => false,
            Some(p) => p.frame < current_frame,
        }
    }

    /// Whether one iteration of the behavior can resolve everything it
    /// declared: the reference is bound and both resources are present.
    pub open spec fn can_access(self, reference: ResourceReference) -> bool {
        &&& reference.is_bound()
        &&& reference.store().contents().contains_key(self.frame.type_id)
        &&& reference.store().contents().contains_key(self.number.type_id)
    }

    /// Advance the behavior one step. While the barrier is not due the
    /// step only (re)arms it and suspends. Once the barrier is due, one
    /// iteration runs: the frame tick is read, the private counter and the
    /// shared number are incremented, and a fresh barrier is armed. If an
    /// access fails, the defect is surfaced by completing (`Ready`), which
    /// retires the system, rather than continuing on corrupt assumptions.
    pub fn step(&mut self, reference: &mut ResourceReference, current_frame: u64) -> (r: Poll)
        ensures
            final(self).frame == old(self).frame,
            final(self).number == old(self).number,
            final(reference).is_bound() == old(reference).is_bound(),
            !old(self).due(current_frame) ==> r == Poll::Pending && final(self).counter == old(
                self,
            ).counter && *final(reference) == *old(reference) && final(self).poller == Some(
                (FramePoller { installed: true, frame: old(self).armed_frame(current_frame) }),
            ),
            old(self).due(current_frame) && old(self).can_access(*old(reference)) ==> r
                == Poll::Pending && final(self).counter == inc_u32(old(self).counter) && final(
                reference
            ).store().contents() == old(reference).store().contents().insert(
                old(self).number.type_id,
                inc_u64(old(reference).store().contents()[old(self).number.type_id]),
            ) && final(self).poller == Some(
                (FramePoller { installed: true, frame: current_frame }),
            ),
            old(self).due(current_frame) && !old(self).can_access(*old(reference)) ==> r
                == Poll::Ready && final(self).counter == old(self).counter && *final(reference)
                == *old(reference) && final(self).poller == Some(
                (FramePoller { installed: true, frame: old(self).armed_frame(current_frame) }),
            ),
    {
        let due = match &mut self.poller {
            None => {
                let sync = FrameSync { current: current_frame };
                let mut p = sync.sync();
                let _ = p.poll(current_frame);
                self.poller = Some(p);
                false
            },
            Some(p) => {
                match p.poll(current_frame) {
                    Poll::Ready => true,
                    Poll::Pending => false,
                }
            },
        };
        if !due {
            return Poll::Pending;
        }
        match self.frame.get(reference) {
            Err(_) => Poll::Ready,
            Ok(_tick) => match self.number.get(reference) {
                Err(_) => Poll::Ready,
                Ok(v) => {
                    let new_v = if v == u64::MAX {
                        0
                    } else {
                        v + 1
                    };
                    match self.number.set(reference, new_v) {
                        Err(_) => Poll::Ready,
                        Ok(_) => {
                            self.counter = if self.counter == u32::MAX {
                                0
                            } else {
                                self.counter + 1
                            };
                            let sync = FrameSync { current: current_frame };
                            let mut p = sync.sync();
                            let _ = p.poll(current_frame);
                            self.poller = Some(p);
                            Poll::Pending
                        },
                    }
                },
            },
        }
    }
}

impl System for Example {
    fn poll_step(&mut self, reference: &mut ResourceReference, current_frame: u64) -> Poll {
        self.step(reference, current_frame)
    }
}

} // verus!
