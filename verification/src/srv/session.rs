//! Which sessions exist and which are claimed: a session is created under a
//! key once, claimed by at most one owner at a time, closed by its owner,
//! and swept when nobody owns it.
use vstd::prelude::*;

use std::collections::HashMap;

verus! {

broadcast use vstd::std_specs::hash::group_hash_axioms;

/// Why a session operation failed.
#[derive(Debug)]
pub enum SessionError<BackendErr> {
    /// The backend that loads and saves sessions failed.
    Backend(BackendErr),
    /// Saving the session panicked.
    SavePanic,
    /// A session with the key exists already.
    SessionKeyAlreadyExists,
    /// Another owner holds the session.
    UnableToLockSession,
    /// No session has the key.
    SessionKeyNotExists,
}

/// The sessions by key, each with whether an owner holds it.
pub struct SessionRegistry {
    claimed: HashMap<u64, bool>,
    keys: Vec<u64>,
}

impl View for SessionRegistry {
    type V = Map<u64, bool>;

    closed spec fn view(&self) -> Map<u64, bool> {
        self.claimed@
    }
}

/// The keys of `m` whose sessions nobody holds.
pub open spec fn unowned_keys(m: Map<u64, bool>) -> Set<u64> {
    m.dom().filter(|k: u64| !m[k])
}

/// `m` without its unowned sessions.
pub open spec fn owned_only(m: Map<u64, bool>) -> Map<u64, bool> {
    m.restrict(m.dom().filter(|k: u64| m[k]))
}

impl SessionRegistry {
    #[verifier::type_invariant]
    closed spec fn inv(self) -> bool {
        &&& self.keys@.no_duplicates()
        &&& self.keys@.to_set() == self.claimed@.dom()
    }

    /// No sessions.
    pub fn new() -> (r: Self)
        ensures
            r@ == Map::<u64, bool>::empty(),
    {
        let claimed: HashMap<u64, bool> = HashMap::new();
        let keys: Vec<u64> = Vec::new();
        assert(keys@.to_set() =~= Set::<u64>::empty());
        assert(claimed@.dom() =~= Set::<u64>::empty());
        SessionRegistry { claimed, keys }
    }

    /// Number of sessions.
    pub fn len(&self) -> (r: usize)
        ensures
            r == self@.len(),
    {
        proof {
            use_type_invariant(self);
            self.keys@.unique_seq_to_set();
        }
        self.keys.len()
    }

    /// Whether a session has the key.
    pub fn contains(&self, key: u64) -> (r: bool)
        ensures
            r == self@.contains_key(key),
    {
        self.claimed.contains_key(&key)
    }

    /// Moves the fields out, leaving an empty registry behind.
    fn take_parts(&mut self) -> (r: (HashMap<u64, bool>, Vec<u64>))
        ensures
            r.1@.no_duplicates(),
            r.1@.to_set() == r.0@.dom(),
            r.0@ == old(self)@,
    {
        let mut me = SessionRegistry::new();
        std::mem::swap(&mut me, self);
        proof {
            use_type_invariant(&me);
        }
        let SessionRegistry { claimed, keys } = me;
        (claimed, keys)
    }

    /// Whether the session `key` is claimed, if it exists.
    pub fn claimed(&self, key: u64) -> (r: Option<bool>)
        ensures
            r == (if self@.contains_key(key) {
                Some(self@[key])
            } else {
                None::<bool>
            }),
    {
        match self.claimed.get(&key) {
            Some(c) => Some(*c),
            None => None,
        }
    }

    /// Creates the session `key`, unclaimed, unless one exists.
    pub fn create<E>(&mut self, key: u64) -> (r: Result<(), SessionError<E>>)
        ensures
            old(self)@.contains_key(key) ==> (r matches Err(SessionError::SessionKeyAlreadyExists))
                && final(self)@ == old(self)@,
            !old(self)@.contains_key(key) ==> r is Ok && final(self)@ == old(self)@.insert(
                key,
                false,
            ),
    {
        proof {
            use_type_invariant(&*self);
        }
        if self.claimed.contains_key(&key) {
            return Err(SessionError::SessionKeyAlreadyExists);
        }
        let (mut claimed, mut keys) = self.take_parts();
        let ghost k0 = keys@;
        claimed.insert(key, false);
        keys.push(key);
        proof {
            assert(keys@.to_set() =~= k0.to_set().insert(key)) by {
                k0.lemma_push_to_set_commute(key);
            }
            assert(keys@.no_duplicates()) by {
                assert forall|i: int, j: int|
                    0 <= i < keys@.len() && 0 <= j < keys@.len() && i != j implies keys@[i]
                    != keys@[j] by {
                    if i == k0.len() as int {
                        assert(k0.to_set().contains(k0[j]));
                    } else if j == k0.len() as int {
                        assert(k0.to_set().contains(k0[i]));
                    }
                }
            }
        }
        *self = SessionRegistry { claimed, keys };
        Ok(())
    }

    /// Claims the session `key` for a new owner.
    pub fn try_claim<E>(&mut self, key: u64) -> (r: Result<(), SessionError<E>>)
        ensures
            !old(self)@.contains_key(key) ==> (r matches Err(SessionError::SessionKeyNotExists))
                && final(self)@ == old(self)@,
            old(self)@.contains_key(key) && old(self)@[key] ==> (r matches Err(
                SessionError::UnableToLockSession,
            )) && final(self)@ == old(self)@,
            old(self)@.contains_key(key) && !old(self)@[key] ==> r is Ok && final(self)@ == old(
                self,
            )@.insert(key, true),
    {
        proof {
            use_type_invariant(&*self);
        }
        match self.claimed.get(&key) {
            None => Err(SessionError::SessionKeyNotExists),
            Some(c) => {
                if *c {
                    Err(SessionError::UnableToLockSession)
                } else {
                    let (mut claimed, keys) = self.take_parts();
                    let ghost m0 = claimed@;
                    claimed.insert(key, true);
                    proof {
                        assert(claimed@.dom() =~= m0.dom());
                    }
                    *self = SessionRegistry { claimed, keys };
                    Ok(())
                }
            },
        }
    }

    /// The owner of `key` let go of it without closing it.
    pub fn release(&mut self, key: u64)
        ensures
            old(self)@.contains_key(key) ==> final(self)@ == old(self)@.insert(key, false),
            !old(self)@.contains_key(key) ==> final(self)@ == old(self)@,
    {
        proof {
            use_type_invariant(&*self);
        }
        if self.claimed.contains_key(&key) {
            let (mut claimed, keys) = self.take_parts();
            let ghost m0 = claimed@;
            claimed.insert(key, false);
            proof {
                assert(claimed@.dom() =~= m0.dom());
            }
            *self = SessionRegistry { claimed, keys };
        }
    }

    /// Removes `key` from the keys in order.
    fn remove_key(keys: &mut Vec<u64>, key: u64)
        requires
            old(keys)@.no_duplicates(),
        ensures
            final(keys)@.no_duplicates(),
            final(keys)@.to_set() == old(keys)@.to_set().remove(key),
    {
        let mut i: usize = 0;
        while i < keys.len()
            invariant
                0 <= i <= keys@.len(),
                keys@ == old(keys)@,
                keys@.no_duplicates(),
                forall|j: int| 0 <= j < i ==> keys@[j] != key,
            decreases keys@.len() - i,
        {
            if keys[i] == key {
                let ghost k0 = keys@;
                keys.remove(i);
                proof {
                    assert(keys@ =~= k0.remove(i as int));
                    assert(keys@.no_duplicates()) by {
                        assert forall|a: int, b: int|
                            0 <= a < keys@.len() && 0 <= b < keys@.len() && a != b implies keys@[a]
                            != keys@[b] by {
                            let a0 = if a < i { a } else { a + 1 };
                            let b0 = if b < i { b } else { b + 1 };
                            assert(keys@[a] == k0[a0]);
                            assert(keys@[b] == k0[b0]);
                        }
                    }
                    assert forall|x: u64| keys@.to_set().contains(x) <==> k0.to_set().remove(
                        key,
                    ).contains(x) by {
                        if k0.to_set().remove(key).contains(x) {
                            let j = choose|j: int| 0 <= j < k0.len() && k0[j] == x;
                            if j < i {
                                assert(keys@[j] == x);
                            } else {
                                assert(j != i);
                                assert(keys@[j - 1] == x);
                            }
                        }
                        if keys@.to_set().contains(x) {
                            let j = choose|j: int| 0 <= j < keys@.len() && keys@[j] == x;
                            let j0 = if j < i { j } else { j + 1 };
                            assert(k0[j0] == x);
                            assert(j0 != i);
                            assert(x != key);
                        }
                    }
                    assert(keys@.to_set() =~= k0.to_set().remove(key));
                }
                return ;
            }
            i = i + 1;
        }
        assert(keys@.to_set() =~= old(keys)@.to_set().remove(key));
    }

    /// The owner closes the session `key`: it is gone.
    pub fn close(&mut self, key: u64)
        requires
            old(self)@.contains_key(key),
            old(self)@[key],
        ensures
            final(self)@ == old(self)@.remove(key),
    {
        proof {
            use_type_invariant(&*self);
        }
        let (mut claimed, mut keys) = self.take_parts();
        let ghost m0 = claimed@;
        claimed.remove(&key);
        Self::remove_key(&mut keys, key);
        proof {
            assert(claimed@.dom() =~= m0.dom().remove(key));
        }
        *self = SessionRegistry { claimed, keys };
    }

    /// Sweeps the sessions that nobody owns, giving their keys in the order
    /// they were created so the caller can close them.
    pub fn remove_unowned(&mut self) -> (r: Vec<u64>)
        ensures
            final(self)@ == owned_only(old(self)@),
            r@.to_set() == unowned_keys(old(self)@),
            r@.no_duplicates(),
    {
        proof {
            use_type_invariant(&*self);
        }
        let ghost m0 = self@;
        let (mut claimed, keys) = self.take_parts();
        let mut kept: Vec<u64> = Vec::new();
        let mut removed: Vec<u64> = Vec::new();
        let mut i: usize = 0;
        while i < keys.len()
            invariant
                0 <= i <= keys@.len(),
                keys@.no_duplicates(),
                keys@.to_set() == m0.dom(),
                kept@.no_duplicates(),
                removed@.no_duplicates(),
                kept@.to_set() == keys@.take(i as int).to_set().filter(|k: u64| m0[k]),
                removed@.to_set() == keys@.take(i as int).to_set().filter(|k: u64| !m0[k]),
                claimed@ == m0.restrict(
                    m0.dom().filter(|k: u64| m0[k] || !keys@.take(i as int).contains(k)),
                ),
            decreases keys@.len() - i,
        {
            let k = keys[i];
            let ghost t0 = keys@.take(i as int);
            proof {
                assert(keys@.take(i + 1) =~= t0.push(k));
                t0.lemma_push_to_set_commute(k);
                assert(m0.dom().contains(k)) by {
                    assert(keys@.to_set().contains(k));
                }
                assert(!t0.contains(k)) by {
                    if t0.contains(k) {
                        let j = choose|j: int| 0 <= j < t0.len() && t0[j] == k;
                        assert(keys@[j] == keys@[i as int]);
                    }
                }
                assert(claimed@.contains_key(k));
            }
            let owned = match claimed.get(&k) {
                Some(c) => *c,
                None => false,
            };
            proof {
                assert(owned == m0[k]);
            }
            let ghost kept0 = kept@;
            let ghost removed0 = removed@;
            if owned {
                kept.push(k);
                proof {
                    kept0.lemma_push_to_set_commute(k);
                    assert(!kept0.to_set().contains(k));
                    assert(kept@.no_duplicates()) by {
                        assert forall|a: int, b: int|
                            0 <= a < kept@.len() && 0 <= b < kept@.len() && a != b implies kept@[a]
                            != kept@[b] by {
                            if a == kept0.len() as int {
                                assert(kept0.to_set().contains(kept0[b]));
                            } else if b == kept0.len() as int {
                                assert(kept0.to_set().contains(kept0[a]));
                            }
                        }
                    }
                    assert(kept@.to_set() =~= keys@.take(i + 1).to_set().filter(|k: u64| m0[k]));
                    assert(removed@.to_set() =~= keys@.take(i + 1).to_set().filter(
                        |k: u64| !m0[k],
                    ));
                    assert(claimed@ =~= m0.restrict(
                        m0.dom().filter(|x: u64| m0[x] || !keys@.take(i + 1).contains(x)),
                    ));
                }
            } else {
                let ghost c0 = claimed@;
                claimed.remove(&k);
                assert(claimed@ =~= c0.remove(k));
                removed.push(k);
                proof {
                    removed0.lemma_push_to_set_commute(k);
                    assert(!removed0.to_set().contains(k));
                    assert(removed@.no_duplicates()) by {
                        assert forall|a: int, b: int|
                            0 <= a < removed@.len() && 0 <= b < removed@.len() && a != b implies removed@[a]
                            != removed@[b] by {
                            if a == removed0.len() as int {
                                assert(removed0.to_set().contains(removed0[b]));
                            } else if b == removed0.len() as int {
                                assert(removed0.to_set().contains(removed0[a]));
                            }
                        }
                    }
                    assert(kept@.to_set() =~= keys@.take(i + 1).to_set().filter(|k: u64| m0[k]));
                    assert(removed@.to_set() =~= keys@.take(i + 1).to_set().filter(
                        |k: u64| !m0[k],
                    ));
                    assert forall|x: u64| #[trigger]
                        keys@.take(i + 1).contains(x) <==> (t0.contains(x) || x == k) by {
                        if keys@.take(i + 1).contains(x) {
                            let tk = keys@.take(i + 1);
                            let j = choose|j: int| 0 <= j < tk.len() && tk[j] == x;
                            if j < i {
                                assert(t0[j] == x);
                            }
                        }
                        if t0.contains(x) {
                            let j = choose|j: int| 0 <= j < t0.len() && t0[j] == x;
                            assert(keys@.take(i + 1)[j] == x);
                        }
                        if x == k {
                            assert(keys@.take(i + 1)[i as int] == x);
                        }
                    }
                    assert(claimed@ =~= m0.restrict(
                        m0.dom().filter(|x: u64| m0[x] || !keys@.take(i + 1).contains(x)),
                    ));
                }
            }
            i = i + 1;
        }
        proof {
            assert(keys@.take(keys@.len() as int) =~= keys@);
            assert forall|x: u64| keys@.contains(x) <==> m0.dom().contains(x) by {
                assert(keys@.to_set().contains(x) <==> keys@.contains(x));
            }
            assert(claimed@ =~= owned_only(m0));
            assert(kept@.to_set() =~= claimed@.dom());
            assert(removed@.to_set() =~= unowned_keys(m0));
        }
        *self = SessionRegistry { claimed, keys: kept };
        removed
    }
}

} // verus!
