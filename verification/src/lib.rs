//! A cooperative tick-driven scheduler over a table of shared singleton
//! resources.
//!
//! Independently written units of work ("systems") declare which resources
//! they read and which they write; the dispatcher uses those declarations to
//! partition systems into conflict-free groups and advances the groups one
//! after another within each tick, so that no two conflicting systems are
//! ever mid-access at the same time.

pub mod dispatcher;
pub mod example;
pub mod resources;
pub mod system;

pub use crate::dispatcher::Dispatcher;
pub use crate::resources::{Read, Write, Resources};
pub use crate::system::System;

use vstd::prelude::*;

verus! {

/// The result of advancing a unit of work one step: either it reached its
/// next suspension point, or it finished for good.
#[derive(Clone, Copy, PartialEq, Eq, Structural, Debug)]
pub enum Poll {
    Ready,
    Pending,
}

/// A frame barrier's view of the external tick source at one instant:
/// the tick counter's value when the barrier was requested.
#[derive(Clone, Copy)]
pub struct FrameSync {
    pub current: u64,
}

impl FrameSync {
    /// Synchronize until the next frame: produce a fresh barrier bound to
    /// the tick counter value observed now.
    pub fn sync(&self) -> (r: FramePoller)
        ensures
            r.frame == self.current,
            !r.installed,
    {
        FramePoller { installed: false, frame: self.current }
    }
}

/// A one-shot frame barrier: created at some tick, it reports `Ready` exactly
/// when polled after the tick counter has advanced past that tick.
pub struct FramePoller {
    /// Whether the barrier has registered its resumption with the tick
    /// source (armed) yet.
    pub installed: bool,
    /// The tick counter value recorded when the barrier was created.
    pub frame: u64,
}

impl FramePoller {
    /// Poll the barrier against the tick counter's current value.
    ///
    /// The first poll arms the barrier; every poll resumes (`Ready`) exactly
    /// when the counter has advanced past the recorded creation tick.
    pub fn poll(&mut self, current: u64) -> (r: Poll)
        ensures
            final(self).installed,
            final(self).frame == old(self).frame,
            r == Poll::Ready <==> old(self).frame < current,
    {
        if !self.installed {
            self.installed = true;
        }

        if self.frame < current {
            Poll::Ready
        } else {
            Poll::Pending
        }
    }
}

} // verus!
