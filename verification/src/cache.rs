//! The caching layer shared by the version and artifact resolvers: a map
//! from key to entry with single-flight, fixed-TTL, fail-fresh and explicit
//! invalidation semantics.
//!
//! The core is a state machine over plain data.  Callers (the unverified
//! server shell) drive it: `on_get` decides whether a request is served from
//! the cache, waits for an in-flight computation, or must start the one
//! upstream call for its key; `await_pending` is the waiters' view of that
//! one flight; `complete_ok` publishes a result; `complete_err` publishes a
//! failure to the flight's waiters without ever caching it; `invalidate`
//! evicts a key regardless of its age.  Time is a caller-supplied
//! millisecond clock, so freshness is part of the verified contract.

use vstd::prelude::*;

verus! {

use crate::RegistryError;
use crate::text::str_eq_str;

/// The fixed time-to-live of cached version lists, in milliseconds.
pub const VERSIONS_TTL_MILLIS: u64 = 5000;

/// The fixed time-to-live of cached artifacts, in milliseconds.
pub const ARTIFACTS_TTL_MILLIS: u64 = 5000;

/// The most slots a cache ever holds; writing a new key to a full cache
/// evicts the least recently written slot.
pub const CACHE_CAPACITY: usize = 1000;

/// One cache slot: a computation in flight, a value with its write time, or
/// a failed flight's error, kept only until its waiters have seen it.
pub enum EntryState<V> {
    Pending,
    Ready { value: V, written_at: u64 },
    Failed { error: RegistryError },
}

/// What a `get` for a key must do, decided by `on_get`.
#[derive(Clone, Copy, Debug, PartialEq, Eq, Structural)]
pub enum CacheAction {
    /// A fresh value is cached: serve it, no upstream call.
    UseCached,
    /// Another caller's upstream call is in flight: share its outcome.
    AwaitPending,
    /// Nothing usable is cached: the caller starts the one upstream call.
    StartUpstream,
}

/// What a waiter on an in-flight computation sees when it looks again.
#[derive(Clone, Copy, Debug, PartialEq, Eq, Structural)]
pub enum WaitOutcome {
    /// The flight is still in the air: keep waiting.
    KeepWaiting,
    /// A flight completed with a value: read it with `get_value`.
    ValueReady,
    /// The flight failed with this error: every waiter receives it.
    FlightFailed(RegistryError),
    /// The slot was evicted meanwhile: ask `on_get` afresh.
    Gone,
}

/// The first entry of `s` whose key reads `k`.
spec fn find_entry<V>(s: Seq<(String, EntryState<V>)>, k: Seq<char>) -> Option<EntryState<V>>
    decreases s.len(),
{
    if s.len() == 0 {
        None
    } else if s[0].0@ == k {
        Some(s[0].1)
    } else {
        find_entry(s.drop_first(), k)
    }
}

proof fn lemma_find_entry_skip<V>(s: Seq<(String, EntryState<V>)>, k: Seq<char>, i: int)
    requires
        0 <= i <= s.len(),
        forall|j: int| 0 <= j < i ==> (#[trigger] s[j]).0@ != k,
    ensures
        find_entry(s, k) == find_entry(s.skip(i), k),
    decreases i,
{
    if i > 0 {
        assert(s.drop_first() =~= s.skip(1));
        lemma_find_entry_skip(s.skip(1), k, i - 1);
        assert(s.skip(1).skip(i - 1) =~= s.skip(i));
    } else {
        assert(s.skip(0) =~= s);
    }
}

proof fn lemma_find_entry_absent<V>(s: Seq<(String, EntryState<V>)>, k: Seq<char>)
    requires
        forall|i: int| 0 <= i < s.len() ==> (#[trigger] s[i]).0@ != k,
    ensures
        find_entry(s, k) is None,
    decreases s.len(),
{
    if s.len() > 0 {
        lemma_find_entry_absent(s.drop_first(), k);
    }
}

proof fn lemma_find_entry_none<V>(s: Seq<(String, EntryState<V>)>, k: Seq<char>)
    requires
        find_entry(s, k) is None,
    ensures
        forall|i: int| 0 <= i < s.len() ==> (#[trigger] s[i]).0@ != k,
    decreases s.len(),
{
    if s.len() > 0 {
        lemma_find_entry_none(s.drop_first(), k);
        assert forall|i: int| 0 <= i < s.len() implies (#[trigger] s[i]).0@ != k by {
            if i > 0 {
                assert(s.drop_first()[i - 1] == s[i]);
            }
        }
    }
}

proof fn lemma_find_entry_push<V>(
    s: Seq<(String, EntryState<V>)>,
    e: (String, EntryState<V>),
    k: Seq<char>,
)
    ensures
        find_entry(s.push(e), k) == if find_entry(s, k) is Some {
            find_entry(s, k)
        } else if e.0@ == k {
            Some(e.1)
        } else {
            None
        },
    decreases s.len(),
{
    assert(s.push(e)[s.len() as int] == e);
    if s.len() == 0 {
        assert(s.push(e)[0] == e);
        assert(s.push(e).drop_first() =~= Seq::<(String, EntryState<V>)>::empty());
        assert(find_entry(Seq::<(String, EntryState<V>)>::empty(), k) is None);
    } else {
        assert(s.push(e)[0] == s[0]);
        assert(s.push(e).drop_first() =~= s.drop_first().push(e));
        lemma_find_entry_push(s.drop_first(), e, k);
    }
}

proof fn lemma_find_entry_remove<V>(s: Seq<(String, EntryState<V>)>, ix: int, k: Seq<char>)
    requires
        0 <= ix < s.len(),
        forall|i: int, j: int|
            0 <= i < s.len() && 0 <= j < s.len() && i != j ==> (#[trigger] s[i]).0@ != (
            #[trigger] s[j]).0@,
    ensures
        find_entry(s.remove(ix), k) == if k == s[ix].0@ {
            None::<EntryState<V>>
        } else {
            find_entry(s, k)
        },
    decreases s.len(),
{
    if ix == 0 {
        assert(s.remove(0) =~= s.drop_first());
        if k == s[0].0@ {
            assert forall|i: int| 0 <= i < s.drop_first().len() implies (#[trigger] s.drop_first()[
                i
            ]).0@ != k by {
                assert(s.drop_first()[i] == s[i + 1]);
            }
            lemma_find_entry_absent(s.drop_first(), k);
        }
    } else {
        if s[0].0@ == k {
            assert(s.remove(ix)[0] == s[0]);
        } else {
            assert(s.remove(ix).drop_first() =~= s.drop_first().remove(ix - 1));
            assert forall|i: int, j: int|
                0 <= i < s.drop_first().len() && 0 <= j < s.drop_first().len() && i
                    != j implies (#[trigger] s.drop_first()[i]).0@ != (#[trigger] s.drop_first()[
                j
            ]).0@ by {
                assert(s.drop_first()[i] == s[i + 1]);
                assert(s.drop_first()[j] == s[j + 1]);
            }
            lemma_find_entry_remove(s.drop_first(), ix - 1, k);
            assert(s.drop_first()[ix - 1] == s[ix]);
        }
    }
}

/// A single-flight, fixed-TTL cache keyed by strings.
pub struct CacheCore<V> {
    entries: Vec<(String, EntryState<V>)>,
    ttl_millis: u64,
}

/// What `on_get` decides for state `c`, key `k` and time `now`: serve a
/// ready entry younger than the TTL, share an in-flight computation, and
/// start upstream in every other case.
pub open spec fn get_action<V>(c: CacheCore<V>, k: Seq<char>, now: u64) -> CacheAction {
    match c.entry(k) {
        Some(EntryState::Pending) => CacheAction::AwaitPending,
        Some(EntryState::Ready { value, written_at }) => if now < written_at + c.ttl() {
            CacheAction::UseCached
        } else {
            CacheAction::StartUpstream
        },
        Some(EntryState::Failed { .. }) => CacheAction::StartUpstream,
        None => CacheAction::StartUpstream,
    }
}

/// What a waiter for key `k` sees in state `c`: the one flight's value or
/// error once it lands, the wait while it is in the air, and an eviction in
/// between as a signal to start over.
pub open spec fn wait_action<V>(c: CacheCore<V>, k: Seq<char>) -> WaitOutcome {
    match c.entry(k) {
        Some(EntryState::Pending) => WaitOutcome::KeepWaiting,
        Some(EntryState::Ready { .. }) => WaitOutcome::ValueReady,
        Some(EntryState::Failed { error }) => WaitOutcome::FlightFailed(error),
        None => WaitOutcome::Gone,
    }
}

/// How a write to key `k` may change the other slots: none of them while
/// the cache has room for the key; on a full cache one slot — the least
/// recently written — is evicted, and the rest are untouched.
pub open spec fn set_frame<V>(pre: CacheCore<V>, post: CacheCore<V>, k: Seq<char>) -> bool {
    if pre.entry(k) is Some || pre.count() < CACHE_CAPACITY as nat {
        forall|k2: Seq<char>| k2 != k ==> post.entry(k2) == pre.entry(k2)
    } else {
        exists|ev: Seq<char>|
            #![auto]
            ev != k && pre.entry(ev) is Some && post.entry(ev) is None && forall|k2: Seq<char>|
                k2 != k && k2 != ev ==> post.entry(k2) == pre.entry(k2)
    }
}

impl<V> CacheCore<V> {
    /// The fixed time-to-live of ready entries, in milliseconds.
    pub closed spec fn ttl(&self) -> u64 {
        self.ttl_millis
    }

    /// The state of the slot for key `k`.
    pub closed spec fn entry(&self, k: Seq<char>) -> Option<EntryState<V>> {
        find_entry(self.entries@, k)
    }

    /// The number of slots held.
    pub closed spec fn count(&self) -> nat {
        self.entries@.len()
    }

    /// Keys are unique, so each key names one slot, and the cache never
    /// holds more than `CACHE_CAPACITY` slots.
    pub closed spec fn wf(&self) -> bool {
        &&& forall|i: int, j: int|
            0 <= i < self.entries@.len() && 0 <= j < self.entries@.len() && i != j ==> (
            #[trigger] self.entries@[i]).0@ != (#[trigger] self.entries@[j]).0@
        &&& self.entries@.len() <= CACHE_CAPACITY
    }

    /// An empty cache with the given TTL.
    pub fn new(ttl_millis: u64) -> (c: Self)
        ensures
            c.wf(),
            c.ttl() == ttl_millis,
            forall|k: Seq<char>| c.entry(k) is None,
    {
        let c = CacheCore { entries: Vec::new(), ttl_millis };
        proof {
            assert forall|k: Seq<char>| c.entry(k) is None by {
                assert(c.entries@.len() == 0);
            }
        }
        c
    }

    /// The index of the slot for `key`, if one exists.
    fn find_index(&self, key: &String) -> (r: Option<usize>)
        ensures
            match r {
                Some(ix) => ix < self.entries@.len() && self.entries@[ix as int].0@ == key@
                    && self.entry(key@) == Some(self.entries@[ix as int].1),
                None => self.entry(key@) is None,
            },
    {
        let mut i: usize = 0;
        while i < self.entries.len()
            invariant
                i <= self.entries@.len(),
                forall|j: int| 0 <= j < i ==> (#[trigger] self.entries@[j]).0@ != key@,
            decreases self.entries@.len() - i,
        {
            if str_eq_str(self.entries[i].0.as_str(), key.as_str()) {
                proof {
                    lemma_find_entry_skip(self.entries@, key@, i as int);
                    assert(self.entries@.skip(i as int)[0] == self.entries@[i as int]);
                }
                return Some(i);
            }
            i = i + 1;
        }
        proof {
            lemma_find_entry_skip(self.entries@, key@, self.entries@.len() as int);
            assert(self.entries@.skip(self.entries@.len() as int) =~= Seq::<(
                String,
                EntryState<V>,
            )>::empty());
        }
        None
    }

    /// Removes the slot for `key`, if any.
    fn remove_key(&mut self, key: &String)
        requires
            old(self).wf(),
        ensures
            final(self).wf(),
            final(self).ttl() == old(self).ttl(),
            final(self).entry(key@) is None,
            forall|k2: Seq<char>| k2 != key@ ==> final(self).entry(k2) == old(self).entry(k2),
            final(self).count() == if old(self).entry(key@) is Some {
                old(self).count() - 1
            } else {
                old(self).count() as int
            },
    {
        match self.find_index(key) {
            None => {},
            Some(ix) => {
                let ghost s0 = self.entries@;
                self.entries.remove(ix);
                proof {
                    assert forall|i: int, j: int|
                        0 <= i < self.entries@.len() && 0 <= j < self.entries@.len() && i
                            != j implies (#[trigger] self.entries@[i]).0@ != (
                    #[trigger] self.entries@[j]).0@ by {
                        let i0 = if i < ix { i } else { i + 1 };
                        let j0 = if j < ix { j } else { j + 1 };
                        assert(self.entries@[i] == s0[i0]);
                        assert(self.entries@[j] == s0[j0]);
                    }
                    lemma_find_entry_remove(s0, ix as int, key@);
                    assert forall|k2: Seq<char>| k2 != key@ implies find_entry(self.entries@, k2)
                        == find_entry(s0, k2) by {
                        lemma_find_entry_remove(s0, ix as int, k2);
                    }
                }
            },
        }
    }

    /// Sets the slot for `key` to `st`, replacing any previous slot; on a
    /// full cache the least recently written slot makes room first.
    fn set_state(&mut self, key: &String, st: EntryState<V>)
        requires
            old(self).wf(),
        ensures
            final(self).wf(),
            final(self).ttl() == old(self).ttl(),
            final(self).entry(key@) == Some(st),
            set_frame(*old(self), *final(self), key@),
    {
        self.remove_key(key);
        let ghost s1 = self.entries@;
        if self.entries.len() >= CACHE_CAPACITY {
            let ghost ev = s1[0].0@;
            self.entries.remove(0);
            proof {
                assert forall|i: int, j: int|
                    0 <= i < self.entries@.len() && 0 <= j < self.entries@.len() && i
                        != j implies (#[trigger] self.entries@[i]).0@ != (
                #[trigger] self.entries@[j]).0@ by {
                    assert(self.entries@[i] == s1[i + 1]);
                    assert(self.entries@[j] == s1[j + 1]);
                }
                assert(find_entry(s1, ev) == Some(s1[0].1));
                assert(ev != key@);
                lemma_find_entry_remove(s1, 0, ev);
                assert(find_entry(self.entries@, ev) is None);
                assert forall|k2: Seq<char>| k2 != ev implies find_entry(self.entries@, k2)
                    == find_entry(s1, k2) by {
                    lemma_find_entry_remove(s1, 0, k2);
                }
            }
        }
        let ghost s2 = self.entries@;
        let e = (key.clone(), st);
        self.entries.push(e);
        proof {
            assert(find_entry(s2, key@) is None);
            lemma_find_entry_none(s2, key@);
            assert forall|i: int, j: int|
                0 <= i < self.entries@.len() && 0 <= j < self.entries@.len() && i != j implies (
            #[trigger] self.entries@[i]).0@ != (#[trigger] self.entries@[j]).0@ by {
                if i < s2.len() {
                    assert(self.entries@[i] == s2[i]);
                }
                if j < s2.len() {
                    assert(self.entries@[j] == s2[j]);
                }
            }
            assert(find_entry(self.entries@, key@) == Some(st)) by {
                lemma_find_entry_push(s2, e, key@);
            }
            assert forall|k2: Seq<char>| k2 != key@ implies find_entry(self.entries@, k2)
                == find_entry(s2, k2) by {
                lemma_find_entry_push(s2, e, k2);
            }
            let pre = *old(self);
            if pre.entry(key@) is Some || pre.count() < CACHE_CAPACITY as nat {
                assert(s1.len() < CACHE_CAPACITY);
                assert(s2 == s1);
                assert forall|k2: Seq<char>| k2 != key@ implies self.entry(k2) == pre.entry(
                    k2,
                ) by {}
            } else {
                let ev = s1[0].0@;
                assert(pre.entry(ev) is Some);
                assert(self.entry(ev) is None);
                assert forall|k2: Seq<char>| k2 != key@ && k2 != ev implies self.entry(k2)
                    == pre.entry(k2) by {}
                assert(set_frame(pre, *self, key@));
            }
        }
    }

    /// Decides a `get` for `key` at time `now` and records the decision:
    /// a `StartUpstream` answer claims the single flight for this key, so
    /// concurrent callers that ask after it are told to wait.
    pub fn on_get(&mut self, key: &String, now: u64) -> (a: CacheAction)
        requires
            old(self).wf(),
        ensures
            final(self).wf(),
            final(self).ttl() == old(self).ttl(),
            a == get_action(*old(self), key@, now),
            a != CacheAction::StartUpstream ==> *final(self) == *old(self),
            a == CacheAction::StartUpstream ==> final(self).entry(key@) == Some(
                EntryState::<V>::Pending,
            ) && set_frame(*old(self), *final(self), key@),
    {
        match self.find_index(key) {
            None => {},
            Some(ix) => {
                match &self.entries[ix].1 {
                    EntryState::Pending => {
                        return CacheAction::AwaitPending;
                    },
                    EntryState::Ready { value: _, written_at } => {
                        let w = *written_at;
                        let fresh = if now >= w {
                            now - w < self.ttl_millis
                        } else {
                            true
                        };
                        if fresh {
                            return CacheAction::UseCached;
                        }
                    },
                    EntryState::Failed { .. } => {},
                }
            },
        }
        self.set_state(key, EntryState::Pending);
        CacheAction::StartUpstream
    }

    /// What a waiter told `AwaitPending` sees when it looks again: the one
    /// flight's outcome once it landed, or the wait while it has not.
    pub fn await_pending(&self, key: &String) -> (w: WaitOutcome)
        ensures
            w == wait_action(*self, key@),
    {
        match self.find_index(key) {
            None => WaitOutcome::Gone,
            Some(ix) => match &self.entries[ix].1 {
                EntryState::Pending => WaitOutcome::KeepWaiting,
                EntryState::Ready { .. } => WaitOutcome::ValueReady,
                EntryState::Failed { error } => WaitOutcome::FlightFailed(*error),
            },
        }
    }

    /// The number of slots held, never more than `CACHE_CAPACITY`.
    pub fn len(&self) -> (n: usize)
        ensures
            n == self.count(),
    {
        self.entries.len()
    }

    /// The cached value for `key`, if its slot holds one.
    pub fn get_value(&self, key: &String) -> (r: Option<&V>)
        ensures
            match r {
                Some(v) => self.entry(key@) matches Some(
                    EntryState::Ready { value: cached, written_at: _ },
                ) && cached == *v,
                None => !(self.entry(key@) matches Some(EntryState::Ready { .. })),
            },
    {
        match self.find_index(key) {
            None => None,
            Some(ix) => match &self.entries[ix].1 {
                EntryState::Ready { value, written_at } => {
                    proof {
                        assert(self.entry(key@) == Some(
                            EntryState::Ready { value: *value, written_at: *written_at },
                        ));
                    }
                    Some(value)
                },
                EntryState::Pending => None,
                EntryState::Failed { .. } => None,
            },
        }
    }

    /// Publishes the outcome of the upstream call for `key` at time `now`;
    /// the TTL of the new entry runs from this write.
    pub fn complete_ok(&mut self, key: &String, value: V, now: u64)
        requires
            old(self).wf(),
        ensures
            final(self).wf(),
            final(self).ttl() == old(self).ttl(),
            final(self).entry(key@) == Some(EntryState::Ready { value, written_at: now }),
            set_frame(*old(self), *final(self), key@),
    {
        self.set_state(key, EntryState::Ready { value, written_at: now });
    }

    /// Publishes the failure of the upstream call for `key`: the slot then
    /// hands this one error to every waiter of the flight, and is never
    /// served as a value — the next `get` for the key retries upstream, so
    /// failures are never cached.
    pub fn complete_err(&mut self, key: &String, error: RegistryError)
        requires
            old(self).wf(),
        ensures
            final(self).wf(),
            final(self).ttl() == old(self).ttl(),
            final(self).entry(key@) == Some(EntryState::<V>::Failed { error }),
            set_frame(*old(self), *final(self), key@),
    {
        self.set_state(key, EntryState::Failed { error });
    }

    /// Evicts the slot for `key` immediately, whatever its age.
    pub fn invalidate(&mut self, key: &String)
        requires
            old(self).wf(),
        ensures
            final(self).wf(),
            final(self).ttl() == old(self).ttl(),
            final(self).entry(key@) is None,
            forall|k2: Seq<char>| k2 != key@ ==> final(self).entry(k2) == old(self).entry(k2),
    {
        self.remove_key(key);
    }
}

/// Law: a value completed at time `w` is served from the cache by every
/// `get` before `w + ttl`; with `on_get`'s contract, repeated calls for a
/// key within the TTL issue no further upstream call.
pub proof fn lemma_hit_within_ttl<V>(c: CacheCore<V>, k: Seq<char>, v: V, w: u64, now: u64)
    requires
        c.entry(k) == Some(EntryState::Ready { value: v, written_at: w }),
        now < w + c.ttl(),
    ensures
        get_action(c, k, now) == CacheAction::UseCached,
{
}

/// Law (single flight): while a computation for a key is in flight — the
/// state `on_get` leaves behind when it answers `StartUpstream` — every
/// further `get` for that key is told to wait, and every waiter keeps
/// waiting, so concurrent callers for one uncached key produce exactly one
/// upstream call.
pub proof fn lemma_single_flight<V>(c: CacheCore<V>, k: Seq<char>, now: u64)
    requires
        c.entry(k) == Some(EntryState::<V>::Pending),
    ensures
        get_action(c, k, now) == CacheAction::AwaitPending,
        wait_action(c, k) == WaitOutcome::KeepWaiting,
{
}

/// Law: when a key is absent — as `invalidate` leaves it — the very next
/// `get` starts a fresh upstream call, at every time `now`, in particular
/// before any TTL has elapsed.
pub proof fn lemma_absent_starts_upstream<V>(c: CacheCore<V>, k: Seq<char>, now: u64)
    requires
        c.entry(k) is None,
    ensures
        get_action(c, k, now) == CacheAction::StartUpstream,
{
}

/// Law (shared failure): after a flight fails — the state `complete_err`
/// leaves behind — every waiter of that flight is handed the flight's own
/// error, the same one for all of them.
pub proof fn lemma_failure_reaches_waiters<V>(c: CacheCore<V>, k: Seq<char>, e: RegistryError)
    requires
        c.entry(k) == Some(EntryState::<V>::Failed { error: e }),
    ensures
        wait_action(c, k) == WaitOutcome::FlightFailed(e),
{
}

/// Law (fail fresh): a failed flight is never served as a cached value —
/// at every time `now` the next `get` for its key starts a fresh upstream
/// call rather than returning the failure.
pub proof fn lemma_failure_never_cached<V>(c: CacheCore<V>, k: Seq<char>, e: RegistryError, now: u64)
    requires
        c.entry(k) == Some(EntryState::<V>::Failed { error: e }),
    ensures
        get_action(c, k, now) == CacheAction::StartUpstream,
{
}

/// Law (bounded): a well-formed cache never holds more than
/// `CACHE_CAPACITY` slots, whatever has been written to it.
pub proof fn lemma_bounded<V>(c: CacheCore<V>)
    requires
        c.wf(),
    ensures
        c.count() <= CACHE_CAPACITY as nat,
{
}

} // verus!
