//! The session table behind the session cache.
//!
//! vCenter sessions linger until a ~30 minute idle timeout, so logging in
//! per call leaks them by the hundred. Sessions are kept per host and user
//! and refreshed on a time-to-live comfortably inside that timeout. Times
//! are milliseconds on a monotonic clock the caller reads.

use vstd::prelude::*;
use crate::text::str_eq;

verus! {

/// Safely inside vCenter's ~30 minute idle timeout: fifteen minutes.
pub const TTL_MS: u64 = 900_000;

/// A session is fresh while less than the time-to-live has passed since it
/// was established; a clock reading before that counts as no time passed.
pub open spec fn is_fresh(established: u64, now: u64) -> bool {
    (if now >= established { now - established } else { 0 }) < TTL_MS
}

/// Sessions by cache key, each with the time it was established.
pub struct SessionTable<S> {
    entries: Vec<(String, u64, S)>,
}

impl<S> View for SessionTable<S> {
    type V = Seq<(Seq<char>, u64, S)>;

    closed spec fn view(&self) -> Seq<(Seq<char>, u64, S)> {
        self.entries@.map_values(|e: (String, u64, S)| (e.0@, e.1, e.2))
    }
}

/// No key is held twice.
pub open spec fn keys_unique<S>(t: Seq<(Seq<char>, u64, S)>) -> bool {
    forall|i: int, j: int| 0 <= i < j < t.len() ==> (#[trigger] t[i]).0 != (#[trigger] t[j]).0
}

/// The entry held under `key`.
pub open spec fn entry_of<S>(t: Seq<(Seq<char>, u64, S)>, key: Seq<char>) -> Option<(u64, S)>
    decreases t.len(),
{
    if t.len() == 0 {
        None
    } else if t.last().0 == key {
        Some((t.last().1, t.last().2))
    } else {
        entry_of(t.drop_last(), key)
    }
}

/// The table without the entry for `key`.
pub open spec fn without<S>(t: Seq<(Seq<char>, u64, S)>, key: Seq<char>) -> Seq<(Seq<char>, u64, S)>
    decreases t.len(),
{
    if t.len() == 0 {
        t
    } else if t.last().0 == key {
        without(t.drop_last(), key)
    } else {
        without(t.drop_last(), key).push(t.last())
    }
}

/// The session for `key` when it is still fresh at `now`.
pub open spec fn fresh_of<S>(t: Seq<(Seq<char>, u64, S)>, key: Seq<char>, now: u64) -> Option<S> {
    match entry_of(t, key) {
        Some((established, s)) => if is_fresh(established, now) {
            Some(s)
        } else {
            None
        },
        None => None,
    }
}

proof fn lemma_without<S>(t: Seq<(Seq<char>, u64, S)>, key: Seq<char>)
    requires
        keys_unique(t),
    ensures
        keys_unique(without(t, key)),
        entry_of(without(t, key), key).is_none(),
        forall|k: Seq<char>| k != key ==> entry_of(without(t, key), k) == entry_of(t, k),
        forall|i: int| 0 <= i < without(t, key).len() ==> (#[trigger] without(t, key)[i]).0 != key,
        forall|i: int| 0 <= i < without(t, key).len() ==> t.contains(#[trigger] without(t, key)[i]),
    decreases t.len(),
{
    if t.len() > 0 {
        let d = t.drop_last();
        assert(keys_unique(d)) by {
            assert forall|i: int, j: int| 0 <= i < j < d.len() implies (#[trigger] d[i]).0 != (#[trigger] d[j]).0 by {
                assert(d[i] == t[i] && d[j] == t[j]);
            }
        }
        lemma_without(d, key);
        let w = without(d, key);
        assert forall|i: int| 0 <= i < w.len() implies t.contains(#[trigger] w[i]) by {
            let m = choose|m: int| 0 <= m < d.len() && d[m] == w[i];
            assert(t[m] == d[m]);
        }
        if t.last().0 != key {
            let r = w.push(t.last());
            assert(r.drop_last() =~= w);
            assert forall|i: int, j: int| 0 <= i < j < r.len() implies (#[trigger] r[i]).0 != (#[trigger] r[j]).0 by {
                if j == w.len() {
                    assert(t.contains(w[i]));
                    let m = choose|m: int| 0 <= m < t.len() && t[m] == w[i];
                    if m == t.len() - 1 {
                        assert(w[i].0 == t.last().0);
                        assert(false);
                    } else {
                        assert(t[m].0 != t[t.len() - 1].0);
                    }
                } else {
                    assert(r[i] == w[i] && r[j] == w[j]);
                }
            }
            assert forall|i: int| 0 <= i < r.len() implies t.contains(#[trigger] r[i]) by {
                if i < w.len() {
                    assert(r[i] == w[i]);
                } else {
                    assert(t[t.len() - 1] == r[i]);
                }
            }
            assert forall|k: Seq<char>| k != key implies entry_of(r, k) == entry_of(t, k) by {
                if t.last().0 == k {
                } else {
                    assert(entry_of(r, k) == entry_of(w, k));
                    assert(entry_of(t, k) == entry_of(d, k));
                }
            }
        } else {
            assert forall|k: Seq<char>| k != key implies entry_of(w, k) == entry_of(t, k) by {
                assert(entry_of(t, k) == entry_of(d, k));
            }
        }
    }
}

proof fn lemma_entry_in_unique<S>(t: Seq<(Seq<char>, u64, S)>, i: int)
    requires
        keys_unique(t),
        0 <= i < t.len(),
    ensures
        entry_of(t, t[i].0) == Some((t[i].1, t[i].2)),
    decreases t.len(),
{
    if i < t.len() - 1 {
        let d = t.drop_last();
        assert(keys_unique(d)) by {
            assert forall|a: int, b: int| 0 <= a < b < d.len() implies (#[trigger] d[a]).0 != (#[trigger] d[b]).0 by {
                assert(d[a] == t[a] && d[b] == t[b]);
            }
        }
        assert(t[i].0 != t[t.len() - 1].0);
        lemma_entry_in_unique(d, i);
        assert(d[i] == t[i]);
    }
}

proof fn lemma_entry_absent<S>(t: Seq<(Seq<char>, u64, S)>, key: Seq<char>)
    requires
        forall|i: int| 0 <= i < t.len() ==> (#[trigger] t[i]).0 != key,
    ensures
        entry_of(t, key).is_none(),
    decreases t.len(),
{
    if t.len() > 0 {
        let d = t.drop_last();
        assert(forall|i: int| 0 <= i < d.len() ==> d[i] == t[i]);
        lemma_entry_absent(d, key);
    }
}

impl<S> SessionTable<S> {
    pub closed spec fn wf(&self) -> bool {
        keys_unique(self@)
    }

    pub fn new() -> (r: Self)
        ensures
            r.wf(),
            r@.len() == 0,
    {
        let r = SessionTable { entries: Vec::new() };
        proof { assert(r@ =~= Seq::<(Seq<char>, u64, S)>::empty()); }
        r
    }

    /// The cached session for this key, if it is still fresh at `now`.
    pub fn fresh(&self, key: &str, now: u64) -> (r: Option<&S>)
        requires
            self.wf(),
        ensures
            match r {
                Some(s) => fresh_of(self@, key@, now) == Some(*s),
                None => fresh_of(self@, key@, now).is_none(),
            },
    {
        let ghost t = self@;
        let mut i: usize = 0;
        while i < self.entries.len()
            invariant
                i <= self.entries@.len(),
                t == self@,
                keys_unique(t),
                forall|j: int| 0 <= j < i ==> (#[trigger] t[j]).0 != key@,
            decreases self.entries.len() - i,
        {
            proof { assert(t[i as int] == (self.entries@[i as int].0@, self.entries@[i as int].1, self.entries@[i as int].2)); }
            if str_eq(self.entries[i].0.as_str(), key) {
                proof { lemma_entry_in_unique(t, i as int); }
                let est = self.entries[i].1;
                let elapsed = if now >= est { now - est } else { 0 };
                if elapsed < TTL_MS {
                    return Some(&self.entries[i].2);
                } else {
                    return None;
                }
            }
            i += 1;
        }
        proof { lemma_entry_absent(t, key@); }
        None
    }

    /// Take out the session held for this key, fresh or not.
    pub fn remove(&mut self, key: &str) -> (r: Option<S>)
        requires
            old(self).wf(),
        ensures
            final(self).wf(),
            final(self)@ == without(old(self)@, key@),
            match r {
                Some(s) => entry_of(old(self)@, key@) matches Some((_, x)) && x == s,
                None => entry_of(old(self)@, key@).is_none(),
            },
    {
        let ghost t = self@;
        proof { lemma_without(t, key@); }
        let mut i: usize = 0;
        while i < self.entries.len()
            invariant
                i <= self.entries@.len(),
                t == self@,
                keys_unique(t),
                forall|j: int| 0 <= j < i ==> (#[trigger] t[j]).0 != key@,
            ensures
                i <= self.entries@.len(),
                t == self@,
                forall|j: int| 0 <= j < i ==> (#[trigger] t[j]).0 != key@,
                i < self.entries@.len() ==> t[i as int].0 == key@,
            decreases self.entries.len() - i,
        {
            proof { assert(t[i as int] == (self.entries@[i as int].0@, self.entries@[i as int].1, self.entries@[i as int].2)); }
            if str_eq(self.entries[i].0.as_str(), key) {
                break;
            }
            i += 1;
        }
        if i < self.entries.len() {
            proof {
                lemma_entry_in_unique(t, i as int);
                lemma_without_at(t, key@, i as int);
            }
            let e = self.entries.remove(i);
            proof { assert(self@ =~= t.remove(i as int)); }
            Some(e.2)
        } else {
            proof {
                lemma_entry_absent(t, key@);
                lemma_without_absent(t, key@);
            }
            None
        }
    }

    /// Record a new session for `key`, established at `now`, in place of
    /// any held before.
    pub fn insert(&mut self, key: String, session: S, now: u64)
        requires
            old(self).wf(),
        ensures
            final(self).wf(),
            final(self)@ == without(old(self)@, key@).push((key@, now, session)),
    {
        let ghost k = key@;
        let ghost t0 = self@;
        let _ = self.remove(key.as_str());
        let ghost w = self@;
        proof { lemma_without(t0, k); }
        self.entries.push((key, now, session));
        proof {
            assert(self@ =~= w.push((k, now, session)));
            let r = self@;
            assert forall|i: int, j: int| 0 <= i < j < r.len() implies (#[trigger] r[i]).0 != (#[trigger] r[j]).0 by {
                if j == w.len() {
                    assert(r[i] == w[i]);
                } else {
                    assert(r[i] == w[i] && r[j] == w[j]);
                }
            }
        }
        proof { lemma_without_idem(old(self)@, k); }
    }

    /// Every session, for logging out of all of them; the table is left
    /// empty.
    pub fn drain(&mut self) -> (r: Vec<S>)
        requires
            old(self).wf(),
        ensures
            final(self).wf(),
            final(self)@.len() == 0,
            r@ == old(self)@.map_values(|e: (Seq<char>, u64, S)| e.2),
    {
        let mut all: Vec<(String, u64, S)> = Vec::new();
        core::mem::swap(&mut all, &mut self.entries);
        let ghost t = all@.map_values(|e: (String, u64, S)| (e.0@, e.1, e.2));
        let mut out: Vec<S> = Vec::new();
        let mut rest = all;
        let ghost mut taken: int = 0;
        proof {
            assert(rest@.map_values(|e: (String, u64, S)| (e.0@, e.1, e.2)) =~= t.skip(0));
            assert(self@ =~= Seq::<(Seq<char>, u64, S)>::empty());
        }
        while rest.len() > 0
            invariant
                0 <= taken <= t.len(),
                rest@.map_values(|e: (String, u64, S)| (e.0@, e.1, e.2)) == t.skip(taken),
                out@ =~= t.take(taken).map_values(|e: (Seq<char>, u64, S)| e.2),
                self@.len() == 0,
                keys_unique(self@),
            decreases rest.len(),
        {
            let ghost rb = rest@;
            proof {
                assert(rb.map_values(|e: (String, u64, S)| (e.0@, e.1, e.2)).len() == t.skip(taken).len());
                assert(taken < t.len());
            }
            let e = rest.remove(0);
            proof {
                assert(rest@ =~= rb.drop_first());
                assert(t.skip(taken).drop_first() =~= t.skip(taken + 1));
                assert(rb.drop_first().map_values(|e: (String, u64, S)| (e.0@, e.1, e.2)) =~= rb.map_values(
                    |e: (String, u64, S)| (e.0@, e.1, e.2),
                ).drop_first());
                assert(rest@.map_values(|e: (String, u64, S)| (e.0@, e.1, e.2)) =~= t.skip(taken + 1));
                assert(e == rb[0]);
                assert(rb.map_values(|e: (String, u64, S)| (e.0@, e.1, e.2))[0] == t.skip(taken)[0]);
                assert(t.skip(taken)[0] == t[taken]);
                assert(t.take(taken + 1) =~= t.take(taken).push(t[taken]));
            }
            out.push(e.2);
            proof { taken = taken + 1; }
        }
        proof { assert(t.take(taken) =~= t); }
        out
    }
}

proof fn lemma_without_at<S>(t: Seq<(Seq<char>, u64, S)>, key: Seq<char>, i: int)
    requires
        keys_unique(t),
        0 <= i < t.len(),
        t[i].0 == key,
    ensures
        without(t, key) == t.remove(i),
    decreases t.len(),
{
    let d = t.drop_last();
    if i == t.len() - 1 {
        assert forall|j: int| 0 <= j < d.len() implies (#[trigger] d[j]).0 != key by {
            assert(d[j] == t[j]);
        }
        lemma_without_absent(d, key);
        assert(t.remove(i) =~= d);
    } else {
        assert(keys_unique(d)) by {
            assert forall|a: int, b: int| 0 <= a < b < d.len() implies (#[trigger] d[a]).0 != (#[trigger] d[b]).0 by {
                assert(d[a] == t[a] && d[b] == t[b]);
            }
        }
        assert(t[t.len() - 1].0 != key);
        lemma_without_at(d, key, i);
        assert(t.remove(i) =~= d.remove(i).push(t.last()));
    }
}

proof fn lemma_without_absent<S>(t: Seq<(Seq<char>, u64, S)>, key: Seq<char>)
    requires
        forall|j: int| 0 <= j < t.len() ==> (#[trigger] t[j]).0 != key,
    ensures
        without(t, key) == t,
    decreases t.len(),
{
    if t.len() > 0 {
        let d = t.drop_last();
        assert(forall|j: int| 0 <= j < d.len() ==> d[j] == t[j]);
        lemma_without_absent(d, key);
        assert(d.push(t.last()) =~= t);
    }
}

proof fn lemma_without_idem<S>(t: Seq<(Seq<char>, u64, S)>, key: Seq<char>)
    requires
        keys_unique(t),
    ensures
        without(without(t, key), key) == without(t, key),
{
    lemma_without(t, key);
    lemma_without_absent(without(t, key), key);
}

/// Reading back what was recorded: right after a session is recorded for a
/// key, a lookup at any moment within the time-to-live returns it, a lookup
/// once the time-to-live has passed returns nothing, and every other key
/// reads as before.
pub proof fn lemma_lookup_after_record<S>(t: Seq<(Seq<char>, u64, S)>, key: Seq<char>, s: S, at: u64, now: u64, other: Seq<char>)
    requires
        keys_unique(t),
        other != key,
    ensures
        now >= at && now - at < TTL_MS ==> fresh_of(without(t, key).push((key, at, s)), key, now) == Some(s),
        now >= at && now - at >= TTL_MS ==> fresh_of(without(t, key).push((key, at, s)), key, now).is_none(),
        fresh_of(without(t, key).push((key, at, s)), other, now) == fresh_of(t, other, now),
{
    lemma_without(t, key);
    let r = without(t, key).push((key, at, s));
    assert(r.drop_last() =~= without(t, key));
}

/// A session taken out is no longer found.
pub proof fn lemma_removed_is_gone<S>(t: Seq<(Seq<char>, u64, S)>, key: Seq<char>, now: u64)
    requires
        keys_unique(t),
    ensures
        fresh_of(without(t, key), key, now).is_none(),
{
    lemma_without(t, key);
}

} // verus!
