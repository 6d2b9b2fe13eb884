//! How many queued messages a tick takes, and what a closed queue means.
use vstd::prelude::*;

verus! {

/// What trying to receive from a queue gave.
#[derive(Debug, Clone, Copy, PartialEq, Eq)]
pub enum RecvOutcome {
    /// A message was waiting.
    Item,
    /// Nothing was waiting.
    Empty,
    /// The sending side is gone.
    Closed,
}

/// What a closed queue means to the drain.
#[derive(Debug, Clone, Copy, PartialEq, Eq)]
pub enum OnClosed {
    /// The tick fails: the session's socket is gone.
    Fail,
    /// The drain just stops, as for an empty queue.
    Stop,
}

/// What to do with a receive outcome.
#[derive(Debug, Clone, Copy, PartialEq, Eq)]
pub enum DrainAction {
    /// Handle the message that came, then try again if the drain allows.
    Handle,
    /// Stop draining for this tick.
    Stop,
    /// Stop the tick with an error.
    Fail,
}

/// Takes at most `limit` messages off a queue in one tick, stopping early
/// when the queue runs dry or closes.
#[derive(Debug, Clone, Copy)]
pub struct MsgDrain {
    handled: usize,
    limit: usize,
    on_closed: OnClosed,
    finished: bool,
}

impl MsgDrain {
    #[verifier::type_invariant]
    closed spec fn inv(self) -> bool {
        self.handled <= self.limit
    }

    /// Messages handled so far this tick.
    pub closed spec fn spec_handled(&self) -> nat {
        self.handled as nat
    }

    /// Most messages this tick may take.
    pub closed spec fn spec_limit(&self) -> nat {
        self.limit as nat
    }

    pub closed spec fn spec_on_closed(&self) -> OnClosed {
        self.on_closed
    }

    /// Whether the drain stopped.
    pub closed spec fn spec_finished(&self) -> bool {
        self.finished
    }

    /// Whether another message may be received now.
    pub open spec fn spec_wants_more(&self) -> bool {
        !self.spec_finished() && self.spec_handled() < self.spec_limit()
    }

    /// A drain of at most `limit` messages.
    pub fn new(limit: usize, on_closed: OnClosed) -> (r: Self)
        ensures
            r.spec_handled() == 0,
            r.spec_limit() == limit,
            r.spec_on_closed() == on_closed,
            !r.spec_finished(),
    {
        MsgDrain { handled: 0, limit, on_closed, finished: false }
    }

    /// Whether another message may be received now.
    pub fn wants_more(&self) -> (r: bool)
        ensures
            r == self.spec_wants_more(),
    {
        !self.finished && self.handled < self.limit
    }

    /// Messages handled so far this tick.
    pub fn handled(&self) -> (r: usize)
        ensures
            r == self.spec_handled(),
    {
        self.handled
    }

    /// Decides on what a receive gave: a message is handled and counted, an
    /// empty queue stops the drain, a closed one stops it or fails the tick.
    pub fn on_recv(&mut self, got: RecvOutcome) -> (r: DrainAction)
        requires
            old(self).spec_wants_more(),
        ensures
            final(self).spec_limit() == old(self).spec_limit(),
            final(self).spec_on_closed() == old(self).spec_on_closed(),
            final(self).spec_handled() <= final(self).spec_limit(),
            match got {
                RecvOutcome::Item => {
                    &&& r == DrainAction::Handle
                    &&& final(self).spec_handled() == old(self).spec_handled() + 1
                    &&& !final(self).spec_finished()
                },
                RecvOutcome::Empty => {
                    &&& r == DrainAction::Stop
                    &&& final(self).spec_handled() == old(self).spec_handled()
                    &&& final(self).spec_finished()
                },
                RecvOutcome::Closed => {
                    &&& r == (match old(self).spec_on_closed() {
                        OnClosed::Fail => DrainAction::Fail,
                        OnClosed::Stop => DrainAction::Stop,
                    })
                    &&& final(self).spec_handled() == old(self).spec_handled()
                    &&& final(self).spec_finished()
                },
            },
    {
        proof {
            use_type_invariant(&*self);
        }
        match got {
            RecvOutcome::Item => {
                self.handled = self.handled + 1;
                DrainAction::Handle
            },
            RecvOutcome::Empty => {
                self.finished = true;
                DrainAction::Stop
            },
            RecvOutcome::Closed => {
                self.finished = true;
                match self.on_closed {
                    OnClosed::Fail => DrainAction::Fail,
                    OnClosed::Stop => DrainAction::Stop,
                }
            },
        }
    }
}

/// How many of `actions` handle a message.
pub open spec fn handle_count(actions: Seq<DrainAction>) -> nat
    decreases actions.len(),
{
    if actions.len() == 0 {
        0
    } else {
        handle_count(actions.drop_last()) + if actions.last() == DrainAction::Handle {
            1nat
        } else {
            0nat
        }
    }
}

/// One receive of a drain that has handled `handled` messages: the action,
/// the count after it, and whether the drain stops.
pub open spec fn spec_drain_step(handled: nat, on_closed: OnClosed, got: RecvOutcome) -> (
    DrainAction,
    nat,
    bool,
) {
    match got {
        RecvOutcome::Item => (DrainAction::Handle, handled + 1, false),
        RecvOutcome::Empty => (DrainAction::Stop, handled, true),
        RecvOutcome::Closed => (
            match on_closed {
                OnClosed::Fail => DrainAction::Fail,
                OnClosed::Stop => DrainAction::Stop,
            },
            handled,
            true,
        ),
    }
}

/// A drain that has handled `handled` of at most `limit` messages, run on the
/// receive outcomes `outcomes` in order: the actions taken, the count after
/// them, and whether the drain stopped. It takes outcomes until they run out,
/// the limit is reached, or one stops it.
pub open spec fn spec_drain_run(
    handled: nat,
    limit: nat,
    on_closed: OnClosed,
    outcomes: Seq<RecvOutcome>,
) -> (Seq<DrainAction>, nat, bool)
    decreases outcomes.len(),
{
    if outcomes.len() == 0 || handled >= limit {
        (Seq::empty(), handled, false)
    } else {
        let (a, h, stop) = spec_drain_step(handled, on_closed, outcomes[0]);
        if stop {
            (seq![a], h, true)
        } else {
            let rest = spec_drain_run(h, limit, on_closed, outcomes.drop_first());
            (seq![a] + rest.0, rest.1, rest.2)
        }
    }
}

/// Drains a queue whose receive outcomes, in order, are `outcomes`; gives
/// the actions taken, which end as soon as the drain stops or reaches its
/// limit.
pub fn run_drain(drain: &mut MsgDrain, outcomes: &[RecvOutcome]) -> (r: Vec<DrainAction>)
    requires
        !old(drain).spec_finished(),
        old(drain).spec_handled() == 0,
    ensures
        r@ == spec_drain_run(0, old(drain).spec_limit(), old(drain).spec_on_closed(), outcomes@).0,
        final(drain).spec_handled() == spec_drain_run(
            0,
            old(drain).spec_limit(),
            old(drain).spec_on_closed(),
            outcomes@,
        ).1,
        final(drain).spec_finished() == spec_drain_run(
            0,
            old(drain).spec_limit(),
            old(drain).spec_on_closed(),
            outcomes@,
        ).2,
        r@.len() <= outcomes@.len(),
        final(drain).spec_handled() <= final(drain).spec_limit(),
        final(drain).spec_limit() == old(drain).spec_limit(),
        final(drain).spec_on_closed() == old(drain).spec_on_closed(),
        final(drain).spec_handled() == handle_count(r@),
{
    let ghost limit = old(drain).spec_limit();
    let ghost oc = old(drain).spec_on_closed();
    let ghost total = spec_drain_run(0, limit, oc, outcomes@);
    let mut actions: Vec<DrainAction> = Vec::new();
    let mut i: usize = 0;
    proof {
        assert(outcomes@.skip(0) =~= outcomes@);
    }
    while i < outcomes.len() && drain.wants_more()
        invariant
            0 <= i <= outcomes@.len(),
            actions@.len() == i,
            drain.spec_handled() <= drain.spec_limit(),
            drain.spec_limit() == limit,
            drain.spec_on_closed() == oc,
            total == spec_drain_run(0, limit, oc, outcomes@),
            drain.spec_handled() == handle_count(actions@),
            !drain.spec_finished() ==> {
                let rest = spec_drain_run(drain.spec_handled(), limit, oc, outcomes@.skip(i as int));
                &&& total.0 == actions@ + rest.0
                &&& total.1 == rest.1
                &&& total.2 == rest.2
            },
            drain.spec_finished() ==> {
                &&& total.0 == actions@
                &&& total.1 == drain.spec_handled()
                &&& total.2
            },
        decreases outcomes@.len() - i,
    {
        let ghost h0 = drain.spec_handled();
        let ghost tail = outcomes@.skip(i as int);
        let a = drain.on_recv(outcomes[i]);
        let ghost before = actions@;
        actions.push(a);
        proof {
            assert(actions@.drop_last() =~= before);
            assert(actions@.last() == a);
            assert(tail[0] == outcomes@[i as int]);
            assert(tail.drop_first() =~= outcomes@.skip(i + 1));
            let step = spec_drain_step(h0, oc, tail[0]);
            assert(step.0 == a);
            assert(step.1 == drain.spec_handled());
            assert(step.2 == drain.spec_finished());
            if step.2 {
                assert(actions@ =~= before + seq![a]);
            } else {
                let rest = spec_drain_run(drain.spec_handled(), limit, oc, tail.drop_first());
                assert(before + (seq![a] + rest.0) =~= actions@ + rest.0);
            }
        }
        i = i + 1;
    }
    proof {
        if !drain.spec_finished() {
            let rest = spec_drain_run(drain.spec_handled(), limit, oc, outcomes@.skip(i as int));
            assert(rest.0 =~= Seq::<DrainAction>::empty());
            assert(total.0 =~= actions@);
        }
    }
    actions
}

} // verus!
