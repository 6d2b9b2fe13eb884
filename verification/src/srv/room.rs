//! When an empty room asks to be shut down, and when the server grants it.
use vstd::prelude::*;

verus! {

/// Ticks a room stays empty before it asks to be shut down.
pub const ROOM_SHUTDOWN_EMPTY_TICKS: usize = 50;

/// Ticks an empty room of the plain runtime lingers before it stops.
pub const ROOM_DECAY_EMPTY_TICKS: usize = 100;

/// The shutdown handshake between a room and the server: the room asks
/// (`start_shutdown`), a session joining meanwhile takes the request back
/// (`cancel_shutdown`), and the server shuts the room down only if the
/// request still stands when it gets to it.
#[derive(Debug, Clone, Copy, PartialEq, Eq)]
pub struct ShutdownFlags {
    pub pending_shutdown: bool,
    pub should_shutdown: bool,
}

/// The flags after the room asks to be shut down.
pub open spec fn spec_started(f: ShutdownFlags) -> ShutdownFlags {
    ShutdownFlags { pending_shutdown: true, should_shutdown: true }
}

/// The flags after a session joins.
pub open spec fn spec_joined(f: ShutdownFlags) -> ShutdownFlags {
    ShutdownFlags { should_shutdown: false, ..f }
}

/// The flags after the server answered the request.
pub open spec fn spec_answered(f: ShutdownFlags) -> ShutdownFlags {
    ShutdownFlags { pending_shutdown: false, ..f }
}

/// Whether the server shuts the room down on a request.
pub open spec fn spec_granted(f: ShutdownFlags) -> bool {
    f.pending_shutdown && f.should_shutdown
}

impl ShutdownFlags {
    /// No shutdown asked for.
    pub fn new() -> (r: Self)
        ensures
            !r.pending_shutdown,
            !r.should_shutdown,
    {
        ShutdownFlags { pending_shutdown: false, should_shutdown: false }
    }

    /// Whether a request was made and the server has not answered it.
    pub fn has_pending_shutdown(&self) -> (r: bool)
        ensures
            r == self.pending_shutdown,
    {
        self.pending_shutdown
    }

    /// A session joined: the room should not shut down after all.
    pub fn cancel_shutdown(&mut self)
        ensures
            *final(self) == spec_joined(*old(self)),
    {
        self.should_shutdown = false;
    }

    /// The room asks to be shut down.
    pub fn start_shutdown(&mut self)
        ensures
            *final(self) == spec_started(*old(self)),
    {
        self.should_shutdown = true;
        self.pending_shutdown = true;
    }

    /// The request was answered.
    pub fn reset_pending_shutdown(&mut self)
        ensures
            *final(self) == spec_answered(*old(self)),
    {
        self.pending_shutdown = false;
    }

    /// Whether a request stands that nothing took back.
    pub fn can_shutdown(&self) -> (r: bool)
        ensures
            r == spec_granted(*self),
    {
        self.pending_shutdown && self.should_shutdown
    }

    /// The server's answer to a request: when it no longer stands, the
    /// request is closed and the room stays (`true`); else the room goes.
    pub fn cancelled_shutdown(&mut self) -> (r: bool)
        ensures
            r == !spec_granted(*old(self)),
            r ==> *final(self) == spec_answered(*old(self)),
            !r ==> *final(self) == *old(self),
    {
        if !self.can_shutdown() {
            self.reset_pending_shutdown();
            return true;
        }
        false
    }
}

/// A request is granted when no session joins before the server answers,
/// and refused when one does; a refused request is closed, so the room can
/// ask again, and that request is granted in turn.
pub proof fn lemma_join_cancels_shutdown(f: ShutdownFlags)
    ensures
        spec_granted(spec_started(f)),
        !spec_granted(spec_joined(spec_started(f))),
        !spec_answered(spec_joined(spec_started(f))).pending_shutdown,
        spec_granted(spec_started(spec_answered(spec_joined(spec_started(f))))),
{
}

/// The server's answer to a room's shutdown request.
#[derive(Debug, Clone, Copy, PartialEq, Eq)]
pub enum ShutdownDecision {
    /// No such room is open.
    Missing,
    /// A session joined since the request: the room stays.
    Kept,
    /// The room is removed and shut down.
    Granted,
}

/// Answers a shutdown request for a room whose flags are `room` (`None`
/// when it is not open), with the flags to store back.
pub fn decide_shutdown(room: Option<ShutdownFlags>) -> (r: (ShutdownDecision, Option<
    ShutdownFlags,
>))
    ensures
        match room {
            None => r == (ShutdownDecision::Missing, None::<ShutdownFlags>),
            Some(f) => if spec_granted(f) {
                r == (ShutdownDecision::Granted, Some(f))
            } else {
                r == (ShutdownDecision::Kept, Some(spec_answered(f)))
            },
        },
{
    match room {
        None => (ShutdownDecision::Missing, None),
        Some(f) => {
            let mut f = f;
            if f.cancelled_shutdown() {
                (ShutdownDecision::Kept, Some(f))
            } else {
                (ShutdownDecision::Granted, Some(f))
            }
        },
    }
}

/// What a room does about its emptiness on a tick.
#[derive(Debug, Clone, Copy, PartialEq, Eq)]
pub enum ShutdownCheck {
    /// Nothing to do.
    Keep,
    /// Ask the server to shut the room down.
    RequestShutdown,
}

/// Counts the ticks a room has been empty.
#[derive(Debug, Clone, Copy, PartialEq, Eq)]
pub struct RoomLife {
    pub empty_counter: usize,
}

impl RoomLife {
    /// A room that was never empty.
    pub fn new() -> (r: Self)
        ensures
            r.empty_counter == 0,
    {
        RoomLife { empty_counter: 0 }
    }

    /// Counts this tick: one more empty tick, or back to zero when sessions
    /// are in the room.
    pub fn count_tick(&mut self, is_empty: bool)
        requires
            old(self).empty_counter < usize::MAX,
        ensures
            is_empty ==> final(self).empty_counter == old(self).empty_counter + 1,
            !is_empty ==> final(self).empty_counter == 0,
    {
        if is_empty {
            self.empty_counter = self.empty_counter + 1;
        } else {
            self.empty_counter = 0;
        }
    }

    /// The shutdown check of a tick: counts it, and asks for a shutdown
    /// (marking the request in `flags`) once the room has been empty for more
    /// than `ROOM_SHUTDOWN_EMPTY_TICKS` ticks and no request is pending.
    pub fn check_shutdown(&mut self, is_empty: bool, flags: &mut ShutdownFlags) -> (r:
        ShutdownCheck)
        requires
            old(self).empty_counter < usize::MAX,
        ensures
            is_empty ==> final(self).empty_counter == old(self).empty_counter + 1,
            !is_empty ==> final(self).empty_counter == 0,
            r == (if final(self).empty_counter > ROOM_SHUTDOWN_EMPTY_TICKS
                && !old(flags).pending_shutdown {
                ShutdownCheck::RequestShutdown
            } else {
                ShutdownCheck::Keep
            }),
            r == ShutdownCheck::RequestShutdown ==> *final(flags) == spec_started(*old(flags)),
            r == ShutdownCheck::Keep ==> *final(flags) == *old(flags),
    {
        self.count_tick(is_empty);
        if self.empty_counter > ROOM_SHUTDOWN_EMPTY_TICKS && !flags.has_pending_shutdown() {
            flags.start_shutdown();
            ShutdownCheck::RequestShutdown
        } else {
            ShutdownCheck::Keep
        }
    }

    /// Whether a room of the plain runtime has been empty long enough to
    /// stop.
    pub fn decayed(&self) -> (r: bool)
        ensures
            r == (self.empty_counter > ROOM_DECAY_EMPTY_TICKS),
    {
        self.empty_counter > ROOM_DECAY_EMPTY_TICKS
    }
}

} // verus!
