//! The server's decisions: game time, delayed items and tick intervals,
//! how many messages a tick takes, the bookkeeping of rooms and sessions,
//! and when an empty room shuts down.
use vstd::prelude::*;

pub mod clock;
pub mod delay_queue;
pub mod interval;
pub mod pump;
pub mod room;
pub mod roster;
pub mod session;
pub mod socket;
pub mod system;

verus! {

/// Milliseconds per server tick.
pub const MS_PER_TICK: u64 = 50;

/// Most messages handled per tick.
pub const MSG_LIMIT_PER_TICK: usize = 100;

/// Most actor messages handled per tick.
pub const MSG_PER_TICK: usize = 100;

/// Ids of rooms and sessions.
pub trait ServerId: Eq + Ord + std::hash::Hash + Copy + Send + 'static {}

impl<T: Eq + Ord + std::hash::Hash + Copy + Send + 'static> ServerId for T {}

} // verus!
