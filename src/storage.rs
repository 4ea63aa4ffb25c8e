//! Shared storage definitions.
use vstd::prelude::*;

verus! {

/// Describes a bus access context, used to implement custom behaviour.
/// Where the storage is not accessed through a bus, use `Raw`
/// (for example, a register attached directly to a CPU).
#[derive(Debug, Clone, Copy)]
pub enum BusContext {
    Raw,
}

} // verus!
