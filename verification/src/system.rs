//! The unit-of-work abstraction driven by the dispatcher.

use crate::resources::ResourceReference;
use crate::Poll;
use vstd::prelude::*;

verus! {

/// The system trait is the central abstraction of the scheduler.
///
/// A system is responsible for defining a single behavior that runs across
/// ticks. The dispatcher advances each registered system once per tick by
/// calling `poll_step` with the reference bound to the live store and the
/// tick counter's current value; the system runs until it either reaches
/// its next suspension point (`Pending`, the common case: a frame barrier)
/// or completes for good (`Ready`, after which it is retired).
///
/// Caller obligations the dispatcher cannot check: a system must only
/// touch resource types it declared at registration (an undeclared access
/// silently falsifies the conflict analysis), and it must suspend every
/// tick — a system that never suspends blocks the entire tick.
pub trait System: Sized {
    fn poll_step(&mut self, reference: &mut ResourceReference, current_frame: u64) -> Poll;
}

} // verus!
