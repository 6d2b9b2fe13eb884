//! The bookkeeping of a room's sessions over a tick: which sessions are in
//! the room, which failed their update and leave, and which move to another
//! room once the tick's updates are done.
use vstd::prelude::*;

verus! {

broadcast use vstd::seq_lib::group_seq_properties;

/// Whether `s` holds `x`.
fn vec_contains(s: &Vec<u64>, x: u64) -> (r: bool)
    ensures
        r == s@.contains(x),
{
    let mut i: usize = 0;
    while i < s.len()
        invariant
            0 <= i <= s@.len(),
            forall|j: int| 0 <= j < i ==> s@[j] != x,
        decreases s@.len() - i,
    {
        if s[i] == x {
            return true;
        }
        i = i + 1;
    }
    false
}

/// The entries of `sw` whose session is in `ids`.
pub open spec fn switches_of(sw: Seq<(u64, u64)>, ids: Seq<u64>) -> Seq<(u64, u64)> {
    sw.filter(|e: (u64, u64)| ids.contains(e.0))
}

/// Whether no session has two entries in `sw`.
pub open spec fn unique_sessions(sw: Seq<(u64, u64)>) -> bool {
    forall|i: int, j: int| 0 <= i < j < sw.len() ==> sw[i].0 != sw[j].0
}

/// The sessions of a room by id, those that failed this tick, and the room
/// each session asked to move to.
pub struct SessionRoster {
    ids: Vec<u64>,
    failed: Vec<u64>,
    switches: Vec<(u64, u64)>,
}

impl SessionRoster {
    #[verifier::type_invariant]
    closed spec fn inv(self) -> bool {
        &&& self.ids@.no_duplicates()
        &&& unique_sessions(self.switches@)
    }

    /// The sessions in the room, in the order they joined.
    pub closed spec fn spec_ids(&self) -> Seq<u64> {
        self.ids@
    }

    /// The sessions whose update failed this tick.
    pub closed spec fn spec_failed(&self) -> Seq<u64> {
        self.failed@
    }

    /// The moves asked for, one per session: (session, room).
    pub closed spec fn spec_switches(&self) -> Seq<(u64, u64)> {
        self.switches@
    }

    /// An empty room.
    pub fn new() -> (r: Self)
        ensures
            r.spec_ids() == Seq::<u64>::empty(),
            r.spec_failed() == Seq::<u64>::empty(),
            r.spec_switches() == Seq::<(u64, u64)>::empty(),
    {
        SessionRoster { ids: Vec::new(), failed: Vec::new(), switches: Vec::new() }
    }

    /// Moves the parts out, leaving an empty roster behind.
    fn take_parts(&mut self) -> (r: (Vec<u64>, Vec<u64>, Vec<(u64, u64)>))
        ensures
            r.0@ == old(self).spec_ids(),
            r.1@ == old(self).spec_failed(),
            r.2@ == old(self).spec_switches(),
            r.0@.no_duplicates(),
            unique_sessions(r.2@),
    {
        let mut me = SessionRoster::new();
        std::mem::swap(&mut me, self);
        proof {
            use_type_invariant(&me);
        }
        let SessionRoster { ids, failed, switches } = me;
        (ids, failed, switches)
    }

    /// Number of sessions in the room.
    pub fn len(&self) -> (r: usize)
        ensures
            r == self.spec_ids().len(),
    {
        self.ids.len()
    }

    /// Whether the room has no session.
    pub fn is_empty(&self) -> (r: bool)
        ensures
            r == (self.spec_ids().len() == 0),
    {
        self.ids.len() == 0
    }

    /// Whether session `id` is in the room.
    pub fn contains(&self, id: u64) -> (r: bool)
        ensures
            r == self.spec_ids().contains(id),
    {
        vec_contains(&self.ids, id)
    }

    /// The sessions a broadcast that leaves out `filter` goes to, in order.
    pub fn others(&self, filter: u64) -> (r: Vec<u64>)
        ensures
            r@ == self.spec_ids().filter(|x: u64| x != filter),
    {
        let mut out: Vec<u64> = Vec::new();
        let mut i: usize = 0;
        while i < self.ids.len()
            invariant
                0 <= i <= self.ids@.len(),
                out@ == self.ids@.take(i as int).filter(|x: u64| x != filter),
            decreases self.ids@.len() - i,
        {
            let x = self.ids[i];
            proof {
                assert(self.ids@.take(i + 1).drop_last() =~= self.ids@.take(i as int));
                assert(self.ids@.take(i + 1).last() == x);
                reveal(Seq::filter);
            }
            if x != filter {
                out.push(x);
            }
            i = i + 1;
        }
        proof {
            assert(self.ids@.take(self.ids@.len() as int) =~= self.ids@);
        }
        out
    }

    /// Session `id` enters the room; entering again changes nothing.
    pub fn add(&mut self, id: u64)
        ensures
            old(self).spec_ids().contains(id) ==> final(self).spec_ids() == old(self).spec_ids(),
            !old(self).spec_ids().contains(id) ==> final(self).spec_ids() == old(
                self,
            ).spec_ids().push(id),
            final(self).spec_failed() == old(self).spec_failed(),
            final(self).spec_switches() == old(self).spec_switches(),
    {
        proof {
            use_type_invariant(&*self);
        }
        if !vec_contains(&self.ids, id) {
            let (mut ids, failed, switches) = self.take_parts();
            let ghost i0 = ids@;
            ids.push(id);
            proof {
                assert forall|a: int, b: int|
                    0 <= a < ids@.len() && 0 <= b < ids@.len() && a != b implies ids@[a]
                    != ids@[b] by {
                    if a == i0.len() as int {
                        assert(i0[b] != id);
                    } else if b == i0.len() as int {
                        assert(i0[a] != id);
                    }
                }
            }
            *self = SessionRoster { ids, failed, switches };
        }
    }

    /// Session `id` asks to move to `room` at the end of the tick; a later
    /// request of the same session replaces an earlier one.
    pub fn register_transition(&mut self, id: u64, room: u64)
        ensures
            final(self).spec_ids() == old(self).spec_ids(),
            final(self).spec_failed() == old(self).spec_failed(),
            (exists|k: int|
                0 <= k < old(self).spec_switches().len() && old(self).spec_switches()[k].0 == id)
                ==> exists|k: int|
                0 <= k < old(self).spec_switches().len() && old(self).spec_switches()[k].0 == id
                    && final(self).spec_switches() == old(self).spec_switches().update(
                    k,
                    (id, room),
                ),
            !(exists|k: int|
                0 <= k < old(self).spec_switches().len() && old(self).spec_switches()[k].0 == id)
                ==> final(self).spec_switches() == old(self).spec_switches().push((id, room)),
    {
        proof {
            use_type_invariant(&*self);
        }
        let (ids, failed, mut sw) = self.take_parts();
        let ghost s0 = sw@;
        let mut i: usize = 0;
        while i < sw.len()
            invariant
                0 <= i <= sw@.len(),
                sw@ == s0,
                s0 == old(self).spec_switches(),
                unique_sessions(s0),
                ids@ == old(self).spec_ids(),
                ids@.no_duplicates(),
                failed@ == old(self).spec_failed(),
                forall|j: int| 0 <= j < i ==> s0[j].0 != id,
            decreases sw@.len() - i,
        {
            if sw[i].0 == id {
                sw.set(i, (id, room));
                proof {
                    assert(sw@ == s0.update(i as int, (id, room)));
                    assert(unique_sessions(sw@)) by {
                        assert forall|a: int, b: int| 0 <= a < b < sw@.len() implies sw@[a].0
                            != sw@[b].0 by {
                            if a == i as int {
                                assert(s0[b].0 != s0[a].0);
                            } else if b == i as int {
                                assert(s0[a].0 != s0[b].0);
                            }
                        }
                    }
                }
                *self = SessionRoster { ids, failed, switches: sw };
                return ;
            }
            i = i + 1;
        }
        sw.push((id, room));
        proof {
            assert(unique_sessions(sw@)) by {
                assert forall|a: int, b: int| 0 <= a < b < sw@.len() implies sw@[a].0
                    != sw@[b].0 by {
                    if b == s0.len() as int {
                        assert(s0[a].0 != id);
                    }
                }
            }
        }
        *self = SessionRoster { ids, failed, switches: sw };
    }

    /// The update of session `id` failed this tick.
    pub fn mark_failed(&mut self, id: u64)
        ensures
            final(self).spec_ids() == old(self).spec_ids(),
            final(self).spec_failed() == old(self).spec_failed().push(id),
            final(self).spec_switches() == old(self).spec_switches(),
    {
        let (ids, mut failed, switches) = self.take_parts();
        failed.push(id);
        *self = SessionRoster { ids, failed, switches };
    }

    /// The failed sessions leave the room; the failures are forgotten.
    pub fn remove_error_sessions(&mut self)
        ensures
            final(self).spec_ids() == old(self).spec_ids().filter(
                |x: u64| !old(self).spec_failed().contains(x),
            ),
            final(self).spec_failed() == Seq::<u64>::empty(),
            final(self).spec_switches() == old(self).spec_switches(),
    {
        proof {
            use_type_invariant(&*self);
        }
        let ghost f0 = self.failed@;
        let ghost i0 = self.ids@;
        let mut kept: Vec<u64> = Vec::new();
        let mut i: usize = 0;
        while i < self.ids.len()
            invariant
                0 <= i <= self.ids@.len(),
                self.ids@ == i0,
                self.failed@ == f0,
                i0.no_duplicates(),
                kept@ == i0.take(i as int).filter(|x: u64| !f0.contains(x)),
            decreases self.ids@.len() - i,
        {
            let x = self.ids[i];
            proof {
                assert(i0.take(i + 1).drop_last() =~= i0.take(i as int));
                assert(i0.take(i + 1).last() == x);
                reveal(Seq::filter);
            }
            if !vec_contains(&self.failed, x) {
                kept.push(x);
            }
            i = i + 1;
        }
        proof {
            assert(i0.take(i0.len() as int) =~= i0);
            assert(kept@.no_duplicates()) by {
                lemma_filter_no_dups(i0, |x: u64| !f0.contains(x));
            }
        }
        let (_, _, switches) = self.take_parts();
        *self = SessionRoster { ids: kept, failed: Vec::new(), switches };
    }

    /// The sessions that asked to move and are still in the room leave it,
    /// each with the room it moves to; the requests are forgotten.
    pub fn take_switches(&mut self) -> (r: Vec<(u64, u64)>)
        ensures
            r@ == switches_of(old(self).spec_switches(), old(self).spec_ids()),
            final(self).spec_ids() == old(self).spec_ids().filter(
                |x: u64| !r@.map_values(|e: (u64, u64)| e.0).contains(x),
            ),
            final(self).spec_failed() == old(self).spec_failed(),
            final(self).spec_switches() == Seq::<(u64, u64)>::empty(),
    {
        proof {
            use_type_invariant(&*self);
        }
        let ghost s0 = self.switches@;
        let ghost i0 = self.ids@;
        let mut out: Vec<(u64, u64)> = Vec::new();
        let mut moved: Vec<u64> = Vec::new();
        let mut i: usize = 0;
        while i < self.switches.len()
            invariant
                0 <= i <= self.switches@.len(),
                self.switches@ == s0,
                self.ids@ == i0,
                i0.no_duplicates(),
                out@ == s0.take(i as int).filter(|e: (u64, u64)| i0.contains(e.0)),
                moved@ == out@.map_values(|e: (u64, u64)| e.0),
            decreases self.switches@.len() - i,
        {
            let e = self.switches[i];
            proof {
                assert(s0.take(i + 1).drop_last() =~= s0.take(i as int));
                assert(s0.take(i + 1).last() == e);
                reveal(Seq::filter);
            }
            if vec_contains(&self.ids, e.0) {
                let ghost o0 = out@;
                out.push(e);
                moved.push(e.0);
                proof {
                    assert(moved@ =~= out@.map_values(|e: (u64, u64)| e.0));
                }
            }
            i = i + 1;
        }
        proof {
            assert(s0.take(s0.len() as int) =~= s0);
        }
        let mut kept: Vec<u64> = Vec::new();
        let mut j: usize = 0;
        while j < self.ids.len()
            invariant
                0 <= j <= self.ids@.len(),
                self.ids@ == i0,
                i0.no_duplicates(),
                kept@ == i0.take(j as int).filter(|x: u64| !moved@.contains(x)),
            decreases self.ids@.len() - j,
        {
            let x = self.ids[j];
            proof {
                assert(i0.take(j + 1).drop_last() =~= i0.take(j as int));
                assert(i0.take(j + 1).last() == x);
                reveal(Seq::filter);
            }
            if !vec_contains(&moved, x) {
                kept.push(x);
            }
            j = j + 1;
        }
        proof {
            assert(i0.take(i0.len() as int) =~= i0);
            assert(kept@.no_duplicates()) by {
                lemma_filter_no_dups(i0, |x: u64| !moved@.contains(x));
            }
        }
        let (_, failed, _) = self.take_parts();
        *self = SessionRoster { ids: kept, failed, switches: Vec::new() };
        out
    }
}

/// The sessions of a room that broadcasts go to: a session whose send
/// failed once is skipped from then on.
pub struct BroadcastSet {
    failed: Vec<bool>,
}

impl BroadcastSet {
    /// Whether each session's sends failed, by the order they joined.
    pub closed spec fn spec_failed(&self) -> Seq<bool> {
        self.failed@
    }

    /// No sessions.
    pub fn new() -> (r: Self)
        ensures
            r.spec_failed() == Seq::<bool>::empty(),
    {
        BroadcastSet { failed: Vec::new() }
    }

    /// A session joins, with no failed send; gives its index.
    pub fn add(&mut self) -> (r: usize)
        ensures
            r == old(self).spec_failed().len(),
            final(self).spec_failed() == old(self).spec_failed().push(false),
    {
        let n = self.failed.len();
        self.failed.push(false);
        n
    }

    /// The sessions a broadcast is sent to: those whose sends never failed.
    pub fn targets(&self) -> (r: Vec<usize>)
        ensures
            forall|i: int| 0 <= i < r@.len() ==> r@[i] < self.spec_failed().len() && !self.spec_failed()[r@[i] as int],
            forall|j: int| 0 <= j < self.spec_failed().len() && !self.spec_failed()[j] ==> r@.contains(j as usize),
            forall|a: int, b: int| 0 <= a < b < r@.len() ==> r@[a] < r@[b],
    {
        let mut out: Vec<usize> = Vec::new();
        let mut i: usize = 0;
        while i < self.failed.len()
            invariant
                0 <= i <= self.failed@.len(),
                forall|k: int| 0 <= k < out@.len() ==> out@[k] < i && !self.failed@[out@[k] as int],
                forall|j: int| 0 <= j < i && !self.failed@[j] ==> out@.contains(j as usize),
                forall|a: int, b: int| 0 <= a < b < out@.len() ==> out@[a] < out@[b],
            decreases self.failed@.len() - i,
        {
            if !self.failed[i] {
                let ghost o0 = out@;
                out.push(i);
                proof {
                    assert forall|j: int| 0 <= j < i + 1 && !self.failed@[j] implies out@.contains(j as usize) by {
                        if j < i {
                            assert(o0.contains(j as usize));
                            let k = choose|k: int| 0 <= k < o0.len() && o0[k] == j as usize;
                            assert(out@[k] == j as usize);
                        } else {
                            assert(out@[o0.len() as int] == i);
                        }
                    }
                }
            }
            i = i + 1;
        }
        out
    }

    /// A send to session `i` failed.
    pub fn mark_failed(&mut self, i: usize)
        requires
            i < old(self).spec_failed().len(),
        ensures
            final(self).spec_failed() == old(self).spec_failed().update(i as int, true),
    {
        self.failed.set(i, true);
    }
}

/// Keeping some items of a sequence without duplicates leaves none.
pub proof fn lemma_filter_no_dups(s: Seq<u64>, p: spec_fn(u64) -> bool)
    requires
        s.no_duplicates(),
    ensures
        s.filter(p).no_duplicates(),
    decreases s.len(),
{
    if s.len() > 0 {
        let init = s.drop_last();
        assert(init.no_duplicates());
        lemma_filter_no_dups(init, p);
        reveal(Seq::filter);
        if p(s.last()) {
            assert(!init.contains(s.last()));
            assert forall|a: int, b: int|
                0 <= a < s.filter(p).len() && 0 <= b < s.filter(p).len() && a != b implies s.filter(
                p,
            )[a] != s.filter(p)[b] by {
                let f = init.filter(p);
                if a == f.len() as int {
                    assert(f.contains(f[b]));
                    init.lemma_filter_contains_rev(p, f[b]);
                } else if b == f.len() as int {
                    assert(f.contains(f[a]));
                    init.lemma_filter_contains_rev(p, f[a]);
                }
            }
        }
    }
}

} // verus!
