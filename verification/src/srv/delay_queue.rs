//! Queue of items that become due at a game time.
use vstd::prelude::*;

use super::clock::GameTime;

verus! {

/// Item with the time it becomes due.
#[derive(Debug)]
struct DelayItem<T> {
    data: T,
    timeout: GameTime,
}

impl<T> DelayItem<T> {
    /// Whether the item is due at `t`.
    fn is_before(&self, t: GameTime) -> (r: bool)
        ensures
            r == (self.timeout@ <= t@),
    {
        t.expired(self.timeout)
    }
}

/// Whether the timeouts of `s` never decrease.
pub open spec fn sorted_by_timeout<T>(s: Seq<(T, u64)>) -> bool {
    forall|i: int, j: int| 0 <= i <= j < s.len() ==> s[i].1 <= s[j].1
}

/// How many leading entries of `s` are due at `t`.
pub open spec fn due_count<T>(s: Seq<(T, u64)>, t: u64) -> nat
    decreases s.len(),
{
    if s.len() > 0 && s[0].1 <= t {
        1 + due_count(s.drop_first(), t)
    } else {
        0
    }
}

/// Items that become due at a game time; the item that is due first comes out
/// first, and of items due at the same time the one pushed first.
#[derive(Debug)]
pub struct DelayQueue<T> {
    items: Vec<DelayItem<T>>,
}

impl<T> View for DelayQueue<T> {
    /// The pending items, each with its timeout, in the order they come out.
    type V = Seq<(T, u64)>;

    closed spec fn view(&self) -> Seq<(T, u64)> {
        self.items@.map_values(|it: DelayItem<T>| (it.data, it.timeout@))
    }
}

impl<T> Default for DelayQueue<T> {
    fn default() -> (r: Self)
        ensures
            r@ == Seq::<(T, u64)>::empty(),
    {
        let r = DelayQueue { items: Vec::new() };
        assert(r@ =~= Seq::<(T, u64)>::empty());
        r
    }
}

impl<T> DelayQueue<T> {
    #[verifier::type_invariant]
    closed spec fn inv(self) -> bool {
        sorted_by_timeout(self@)
    }

    /// An empty queue.
    pub fn new() -> (r: Self)
        ensures
            r@ == Seq::<(T, u64)>::empty(),
    {
        Self::default()
    }

    /// Queues `data`, due at `timeout`: after every item due no later, before
    /// every item due later.
    pub fn push(&mut self, data: T, timeout: GameTime)
        ensures
            sorted_by_timeout(old(self)@),
            sorted_by_timeout(final(self)@),
            exists|k: int|
                #![trigger old(self)@.insert(k, (data, timeout@))]
                0 <= k <= old(self)@.len() && final(self)@ == old(self)@.insert(k, (data, timeout@))
                    && (forall|i: int| 0 <= i < k ==> old(self)@[i].1 <= timeout@) && (forall|
                    i: int,
                |
                    k <= i < old(self)@.len() ==> old(self)@[i].1 > timeout@),
    {
        proof {
            use_type_invariant(&*self);
        }
        let ghost s0 = self@;
        let mut items: Vec<DelayItem<T>> = Vec::new();
        std::mem::swap(&mut items, &mut self.items);
        assert(items@.map_values(|it: DelayItem<T>| (it.data, it.timeout@)) == s0);
        let mut k: usize = 0;
        while k < items.len() && items[k].is_before(timeout)
            invariant
                0 <= k <= items.len(),
                items@.map_values(|it: DelayItem<T>| (it.data, it.timeout@)) == s0,
                forall|i: int| 0 <= i < k ==> s0[i].1 <= timeout@,
            decreases items.len() - k,
        {
            k = k + 1;
        }
        proof {
            assert(forall|i: int| 0 <= i < s0.len() ==> s0[i] == (items@[i].data, items@[i].timeout@));
            if k < items.len() {
                assert(s0[k as int].1 > timeout@);
                assert forall|i: int| k <= i < s0.len() implies s0[i].1 > timeout@ by {
                    assert(s0[k as int].1 <= s0[i].1);
                }
            }
        }
        items.insert(k, DelayItem { data, timeout });
        let ghost s1 = s0.insert(k as int, (data, timeout@));
        assert(items@.map_values(|it: DelayItem<T>| (it.data, it.timeout@)) =~= s1);
        assert(sorted_by_timeout(s1)) by {
            assert forall|i: int, j: int| 0 <= i <= j < s1.len() implies s1[i].1 <= s1[j].1 by {
                if i < k && j > k {
                    assert(s1[i] == s0[i]);
                    assert(s1[j] == s0[j - 1]);
                } else if i < k && j < k {
                } else if i > k {
                    assert(s1[i] == s0[i - 1]);
                    assert(s1[j] == s0[j - 1]);
                }
            }
        }
        self.items = items;
        assert(self@ == s1);
        assert(final(self)@[k as int] == (data, timeout@));
    }

    /// The item that comes out first, when it is due at `t`; the queue keeps
    /// the rest.
    pub fn pop(&mut self, t: GameTime) -> (r: Option<T>)
        ensures
            sorted_by_timeout(old(self)@),
            old(self)@.len() > 0 && old(self)@[0].1 <= t@ ==> r == Some(old(self)@[0].0)
                && final(self)@ == old(self)@.drop_first(),
            !(old(self)@.len() > 0 && old(self)@[0].1 <= t@) ==> r is None && final(self)@ == old(
                self,
            )@,
    {
        self.try_pop(t)
    }

    fn try_pop(&mut self, t: GameTime) -> (r: Option<T>)
        ensures
            sorted_by_timeout(old(self)@),
            old(self)@.len() > 0 && old(self)@[0].1 <= t@ ==> r == Some(old(self)@[0].0)
                && final(self)@ == old(self)@.drop_first(),
            !(old(self)@.len() > 0 && old(self)@[0].1 <= t@) ==> r is None && final(self)@ == old(
                self,
            )@,
    {
        proof {
            use_type_invariant(&*self);
        }
        if self.items.len() > 0 && self.items[0].is_before(t) {
            let ghost s0 = self@;
            let mut items: Vec<DelayItem<T>> = Vec::new();
            std::mem::swap(&mut items, &mut self.items);
            assert(items@.map_values(|it: DelayItem<T>| (it.data, it.timeout@)) == s0);
            assert(s0[0] == (items@[0].data, items@[0].timeout@));
            let it = items.remove(0);
            assert(items@.map_values(|it: DelayItem<T>| (it.data, it.timeout@)) =~= s0.drop_first());
            self.items = items;
            Some(it.data)
        } else {
            None
        }
    }

    /// Whether no item is queued.
    pub fn is_empty(&self) -> (r: bool)
        ensures
            r == (self@.len() == 0),
    {
        self.items.len() == 0
    }

    /// Takes out, in order, every item that is due at `t`.
    pub fn drain_expired(&mut self, t: GameTime) -> (r: DrainExpired<T>)
        ensures
            sorted_by_timeout(old(self)@),
            r@ == old(self)@.take(due_count(old(self)@, t@) as int).map_values(
                |e: (T, u64)| e.0,
            ),
            final(self)@ == old(self)@.skip(due_count(old(self)@, t@) as int),
    {
        proof {
            use_type_invariant(&*self);
        }
        let ghost s0 = self@;
        let mut out: Vec<T> = Vec::new();
        loop
            invariant
                sorted_by_timeout(s0),
                0 <= out.len() <= s0.len(),
                self@ == s0.skip(out.len() as int),
                out@ == s0.take(out.len() as int).map_values(|e: (T, u64)| e.0),
                due_count(s0, t@) == out.len() + due_count(self@, t@),
            ensures
                self@ == s0.skip(due_count(s0, t@) as int),
                out@ == s0.take(due_count(s0, t@) as int).map_values(|e: (T, u64)| e.0),
            decreases self@.len(),
        {
            let ghost before = self@;
            match self.try_pop(t) {
                Some(d) => {
                    proof {
                        assert(before.drop_first() =~= s0.skip(out.len() + 1));
                    }
                    let ghost n = out.len();
                    out.push(d);
                    proof {
                        assert(before[0] == s0[n as int]);
                        assert(out@ =~= s0.take(out.len() as int).map_values(|e: (T, u64)| e.0));
                    }
                },
                None => {
                    break ;
                },
            }
        }
        DrainExpired { items: out }
    }
}

/// The items that `DelayQueue::drain_expired` took out, handed out in order.
pub struct DrainExpired<T> {
    items: Vec<T>,
}

impl<T> View for DrainExpired<T> {
    /// The items not yet handed out.
    type V = Seq<T>;

    closed spec fn view(&self) -> Seq<T> {
        self.items@
    }
}

impl<T> DrainExpired<T> {
    /// The next item, while any is left.
    pub fn next(&mut self) -> (r: Option<T>)
        ensures
            old(self)@.len() > 0 ==> r == Some(old(self)@[0]) && final(self)@ == old(
                self,
            )@.drop_first(),
            old(self)@.len() == 0 ==> r is None && final(self)@ == old(self)@,
    {
        if self.items.len() > 0 {
            let d = self.items.remove(0);
            Some(d)
        } else {
            None
        }
    }

    /// All items not yet handed out, in order.
    pub fn collect_vec(self) -> (r: Vec<T>)
        ensures
            r@ == self@,
    {
        self.items
    }
}

} // verus!
