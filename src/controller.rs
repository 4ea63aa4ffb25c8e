//! Controllers: each advances part of the machine by the events queued to it.
use vstd::prelude::*;

pub mod cpu;
pub mod spu;
pub mod timer;

verus! {

/// An event queued to a controller.
#[derive(Debug, Clone, Copy, PartialEq, Eq, Structural)]
pub enum ControllerEvent {
    /// A clock tick event, holding the number of whole ticks that occurred.
    Tick(u64),
    /// An input event: a key and whether it is now pressed.
    Input(usize, bool),
}

/// A notification from a controller to the host.
#[derive(Debug, Clone, Copy, PartialEq, Eq, Structural)]
pub enum CoreEvent {
    /// The framebuffer was drawn.
    Video,
    /// The sound counter crossed zero: whether sound is now on.
    Audio(bool),
}

} // verus!
