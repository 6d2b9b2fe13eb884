//! Which rooms the server system has open: a session joining a room that is
//! not open has the room created first, and a room is closed only when its
//! shutdown request is granted.
use vstd::prelude::*;

use std::collections::HashSet;

use crate::srv::room::{
    decide_shutdown, spec_answered, spec_granted, ShutdownDecision, ShutdownFlags,
};

verus! {

broadcast use vstd::std_specs::hash::group_hash_axioms;

/// How a session gets into the room it joins.
#[derive(Debug, Clone, Copy, PartialEq, Eq)]
pub enum JoinRoute {
    /// The room is open: the session joins it.
    Open,
    /// The room is not open: it is created, then the session joins it.
    Create,
}

/// The answer to a shutdown request for a room with the given flags
/// (`None` for a room the caller holds no flags of), and the flags to
/// store back.
pub open spec fn spec_shutdown_answer(flags: Option<ShutdownFlags>) -> (
    ShutdownDecision,
    Option<ShutdownFlags>,
) {
    match flags {
        None => (ShutdownDecision::Missing, None),
        Some(f) => if spec_granted(f) {
            (ShutdownDecision::Granted, Some(f))
        } else {
            (ShutdownDecision::Kept, Some(spec_answered(f)))
        },
    }
}

/// The ids of the open rooms.
pub struct RoomDirectory {
    rooms: HashSet<u64>,
}

impl View for RoomDirectory {
    type V = Set<u64>;

    closed spec fn view(&self) -> Set<u64> {
        self.rooms@
    }
}

impl RoomDirectory {
    /// No room open.
    pub fn new() -> (r: Self)
        ensures
            r@ == Set::<u64>::empty(),
    {
        RoomDirectory { rooms: HashSet::new() }
    }

    /// Whether the room is open.
    pub fn is_open(&self, room: u64) -> (r: bool)
        ensures
            r == self@.contains(room),
    {
        self.rooms.contains(&room)
    }

    /// How a session gets into `room`: it joins an open room, and has a
    /// closed one created first.
    pub fn route_join(&self, room: u64) -> (r: JoinRoute)
        ensures
            r == (if self@.contains(room) {
                JoinRoute::Open
            } else {
                JoinRoute::Create
            }),
    {
        if self.rooms.contains(&room) {
            JoinRoute::Open
        } else {
            JoinRoute::Create
        }
    }

    /// The room was created and is open now.
    pub fn opened(&mut self, room: u64)
        ensures
            final(self)@ == old(self)@.insert(room),
    {
        self.rooms.insert(room);
    }

    /// Answers the shutdown request of `room`, whose flags the caller holds
    /// as `flags`: a room that is not open is missing whatever the flags;
    /// an open one is closed when the request is granted, and stays, with
    /// its request closed, when a session joined since.
    pub fn answer_shutdown(&mut self, room: u64, flags: Option<ShutdownFlags>) -> (r: (
        ShutdownDecision,
        Option<ShutdownFlags>,
    ))
        ensures
            r == (if old(self)@.contains(room) {
                spec_shutdown_answer(flags)
            } else {
                (ShutdownDecision::Missing, None::<ShutdownFlags>)
            }),
            final(self)@ == (if r.0 == ShutdownDecision::Granted {
                old(self)@.remove(room)
            } else {
                old(self)@
            }),
    {
        if !self.rooms.contains(&room) {
            return (ShutdownDecision::Missing, None);
        }
        let r = decide_shutdown(flags);
        if let ShutdownDecision::Granted = r.0 {
            self.rooms.remove(&room);
        }
        r
    }
}

} // verus!
