//! A keyed cache whose entries lapse some time after they were stored: the
//! cache's own time to live, or one given per entry, or never. Times are
//! milliseconds.
use vstd::prelude::*;

verus! {

/// How long an entry lives.
#[derive(Clone, Copy, Debug, PartialEq, Eq, Structural)]
pub enum Lifetime {
    /// Live while the time is below this (the cache's own time to live).
    Before(u64),
    /// Live until and including this time (a time to live given per entry).
    Through(u64),
    /// Never lapses.
    Forever,
}

pub struct CacheEntry<V> {
    pub key: String,
    pub value: V,
    pub expires_at: Lifetime,
}

/// `now + ttl`, saturating.
pub open spec fn later(now: u64, ttl: u64) -> u64 {
    if now + ttl > u64::MAX {
        u64::MAX
    } else {
        (now + ttl) as u64
    }
}

/// Whether an entry is live at `now`.
pub open spec fn live_at<V>(e: CacheEntry<V>, now: u64) -> bool {
    match e.expires_at {
        Lifetime::Before(t) => now < t,
        Lifetime::Through(t) => now <= t,
        Lifetime::Forever => true,
    }
}

/// The entries of `s` that are live at `now`, in their order.
pub open spec fn live_entries<V>(s: Seq<CacheEntry<V>>, now: u64) -> Seq<CacheEntry<V>>
    decreases s.len(),
{
    if s.len() == 0 {
        s
    } else {
        let rest = live_entries(s.drop_last(), now);
        if live_at(s.last(), now) {
            rest.push(s.last())
        } else {
            rest
        }
    }
}

pub open spec fn holds_key<V>(s: Seq<CacheEntry<V>>, key: Seq<char>) -> bool {
    exists|i: int| 0 <= i < s.len() && s[i].key@ == key
}

proof fn lemma_live_entries_subset<V>(s: Seq<CacheEntry<V>>, now: u64)
    ensures
        forall|i: int| 0 <= i < live_entries(s, now).len() ==> s.contains(#[trigger] live_entries(s, now)[i])
            && live_at(live_entries(s, now)[i], now),
    decreases s.len(),
{
    if s.len() > 0 {
        lemma_live_entries_subset(s.drop_last(), now);
        let rest = live_entries(s.drop_last(), now);
        assert forall|i: int| 0 <= i < rest.len() implies s.contains(#[trigger] rest[i]) by {
            let j = choose|j: int| 0 <= j < s.drop_last().len() && s.drop_last()[j] == rest[i];
            assert(s[j] == rest[i]);
        }
        assert(s[s.len() - 1] == s.last());
    }
}

/// A cache from text keys to values; each entry lives `ttl_ms` after it was set.
pub struct Cache<V> {
    pub entries: Vec<CacheEntry<V>>,
    pub ttl_ms: u64,
}

impl<V> Cache<V> {
    /// No key is held twice.
    pub open spec fn wf(&self) -> bool {
        forall|i: int, j: int|
            0 <= i < self.entries@.len() && 0 <= j < self.entries@.len() && i != j ==> self.entries@[i].key@
                != self.entries@[j].key@
    }

    pub fn new(ttl_ms: u64) -> (c: Cache<V>)
        ensures
            c.wf(),
            c.entries@.len() == 0,
            c.ttl_ms == ttl_ms,
    {
        Cache { entries: Vec::new(), ttl_ms }
    }

    fn find(&self, key: &str) -> (r: Option<usize>)
        ensures
            match r {
                Some(i) => i < self.entries@.len() && self.entries@[i as int].key@ == key@,
                None => !holds_key(self.entries@, key@),
            },
    {
        let wanted: String = key.to_owned();
        let mut i: usize = 0;
        while i < self.entries.len()
            invariant
                wanted@ == key@,
                i <= self.entries@.len(),
                forall|j: int| 0 <= j < i ==> self.entries@[j].key@ != key@,
            decreases self.entries@.len() - i,
        {
            if self.entries[i].key == wanted {
                return Some(i);
            }
            i = i + 1;
        }
        None
    }

    /// Stores `value` under `key` for `ttl_ms` from `now` (gone at `now + ttl_ms`), replacing an
    /// entry under the same key.
    pub fn set(&mut self, key: &str, value: V, now: u64)
        requires
            old(self).wf(),
        ensures
            final(self).wf(),
            final(self).ttl_ms == old(self).ttl_ms,
            holds_key(final(self).entries@, key@),
            forall|i: int| 0 <= i < final(self).entries@.len() && final(self).entries@[i].key@ == key@ ==> {
                &&& final(self).entries@[i].value == value
                &&& final(self).entries@[i].expires_at == Lifetime::Before(later(now, old(self).ttl_ms))
            },
            forall|i: int| 0 <= i < old(self).entries@.len() && old(self).entries@[i].key@ != key@
                ==> final(self).entries@.contains(old(self).entries@[i]),
            forall|i: int| 0 <= i < final(self).entries@.len() && final(self).entries@[i].key@ != key@
                ==> old(self).entries@.contains(final(self).entries@[i]),
    {
        self.store(key, value, Lifetime::Before(now.saturating_add(self.ttl_ms)));
    }

    /// Stores `value` under `key` until and including `ttl` after `now`, or
    /// for good when no time to live is given, replacing an entry under the same key.
    pub fn set_with_ttl(&mut self, key: &str, value: V, ttl: Option<u64>, now: u64)
        requires
            old(self).wf(),
        ensures
            final(self).wf(),
            final(self).ttl_ms == old(self).ttl_ms,
            holds_key(final(self).entries@, key@),
            forall|i: int| 0 <= i < final(self).entries@.len() && final(self).entries@[i].key@ == key@ ==> {
                &&& final(self).entries@[i].value == value
                &&& final(self).entries@[i].expires_at == match ttl {
                    Some(t) => Lifetime::Through(later(now, t)),
                    None => Lifetime::Forever,
                }
            },
            forall|i: int| 0 <= i < old(self).entries@.len() && old(self).entries@[i].key@ != key@
                ==> final(self).entries@.contains(old(self).entries@[i]),
            forall|i: int| 0 <= i < final(self).entries@.len() && final(self).entries@[i].key@ != key@
                ==> old(self).entries@.contains(final(self).entries@[i]),
    {
        let expires_at = match ttl {
            Some(t) => Lifetime::Through(now.saturating_add(t)),
            None => Lifetime::Forever,
        };
        self.store(key, value, expires_at);
    }

    fn store(&mut self, key: &str, value: V, expires_at: Lifetime)
        requires
            old(self).wf(),
        ensures
            final(self).wf(),
            final(self).ttl_ms == old(self).ttl_ms,
            holds_key(final(self).entries@, key@),
            forall|i: int| 0 <= i < final(self).entries@.len() && final(self).entries@[i].key@ == key@ ==> {
                &&& final(self).entries@[i].value == value
                &&& final(self).entries@[i].expires_at == expires_at
            },
            forall|i: int| 0 <= i < old(self).entries@.len() && old(self).entries@[i].key@ != key@
                ==> final(self).entries@.contains(old(self).entries@[i]),
            forall|i: int| 0 <= i < final(self).entries@.len() && final(self).entries@[i].key@ != key@
                ==> old(self).entries@.contains(final(self).entries@[i]),
    {
        let entry = CacheEntry { key: key.to_owned(), value, expires_at };
        match self.find(key) {
            Some(i) => {
                self.entries.set(i, entry);
                proof {
                    assert forall|a: int, b: int| 0 <= a < self.entries@.len() && 0 <= b < self.entries@.len() && a != b
                        implies self.entries@[a].key@ != self.entries@[b].key@ by {
                        if a != i && b != i {
                            assert(self.entries@[a] == old(self).entries@[a]);
                            assert(self.entries@[b] == old(self).entries@[b]);
                        }
                    }
                    assert(self.entries@[i as int].key@ == key@);
                    assert forall|k: int| 0 <= k < old(self).entries@.len() && old(self).entries@[k].key@ != key@
                        implies self.entries@.contains(old(self).entries@[k]) by {
                        assert(self.entries@[k] == old(self).entries@[k]);
                    }
                    assert forall|k: int| 0 <= k < self.entries@.len() && self.entries@[k].key@ != key@
                        implies old(self).entries@.contains(self.entries@[k]) by {
                        assert(self.entries@[k] == old(self).entries@[k]);
                    }
                }
            },
            None => {
                self.entries.push(entry);
                proof {
                    let n = old(self).entries@.len() as int;
                    assert(self.entries@[n].key@ == key@);
                    assert forall|k: int| 0 <= k < old(self).entries@.len() && old(self).entries@[k].key@ != key@
                        implies self.entries@.contains(old(self).entries@[k]) by {
                        assert(self.entries@[k] == old(self).entries@[k]);
                    }
                    assert forall|k: int| 0 <= k < self.entries@.len() && self.entries@[k].key@ != key@
                        implies old(self).entries@.contains(self.entries@[k]) by {
                        assert(self.entries@[k] == old(self).entries@[k]);
                    }
                }
            },
        }
    }
}

impl<V> Cache<V> {
    /// Drops the entries that have lapsed at `now`.
    pub fn cleanup(&mut self, now: u64)
        requires
            old(self).wf(),
        ensures
            final(self).wf(),
            final(self).ttl_ms == old(self).ttl_ms,
            final(self).entries@ == live_entries(old(self).entries@, now),
    {
        let mut rest: Vec<CacheEntry<V>> = Vec::new();
        std::mem::swap(&mut rest, &mut self.entries);
        let ghost s = rest@;
        let mut kept: Vec<CacheEntry<V>> = Vec::new();
        let ghost mut i: int = 0;
        while rest.len() > 0
            invariant
                0 <= i <= s.len(),
                rest@ == s.subrange(i, s.len() as int),
                kept@ == live_entries(s.subrange(0, i), now),
            decreases rest.len(),
        {
            let e = rest.remove(0);
            proof {
                assert(s.subrange(0, i + 1).drop_last() =~= s.subrange(0, i));
                assert(rest@ =~= s.subrange(i + 1, s.len() as int));
            }
            let live = match e.expires_at {
                Lifetime::Before(t) => now < t,
                Lifetime::Through(t) => now <= t,
                Lifetime::Forever => true,
            };
            if live {
                kept.push(e);
            }
            proof {
                i = i + 1;
            }
        }
        assert(s.subrange(0, s.len() as int) =~= s);
        self.entries = kept;
        proof {
            lemma_live_entries_subset(s, now);
            lemma_live_entries_unique(s, now);
        }
    }

    /// The live value under `key`; lapsed entries are dropped first.
    pub fn get(&mut self, key: &str, now: u64) -> (r: Option<&V>)
        requires
            old(self).wf(),
        ensures
            final(self).wf(),
            final(self).entries@ == live_entries(old(self).entries@, now),
            match r {
                Some(v) => exists|i: int| 0 <= i < final(self).entries@.len() && final(self).entries@[i].key@ == key@
                    && final(self).entries@[i].value == *v,
                None => !holds_key(final(self).entries@, key@),
            },
    {
        self.cleanup(now);
        match self.find(key) {
            Some(i) => Some(&self.entries[i].value),
            None => None,
        }
    }

    /// Whether a live entry is under `key`; lapsed entries are dropped first.
    pub fn contains_key(&mut self, key: &str, now: u64) -> (r: bool)
        requires
            old(self).wf(),
        ensures
            final(self).wf(),
            final(self).entries@ == live_entries(old(self).entries@, now),
            r == holds_key(final(self).entries@, key@),
    {
        self.cleanup(now);
        self.find(key).is_some()
    }

    /// Takes the entry under `key` out, lapsed or not.
    pub fn remove(&mut self, key: &str) -> (r: Option<V>)
        requires
            old(self).wf(),
        ensures
            final(self).wf(),
            final(self).ttl_ms == old(self).ttl_ms,
            !holds_key(final(self).entries@, key@),
            match r {
                Some(v) => exists|i: int| 0 <= i < old(self).entries@.len() && old(self).entries@[i].key@ == key@
                    && old(self).entries@[i].value == v && final(self).entries@ == old(self).entries@.remove(i),
                None => !holds_key(old(self).entries@, key@) && final(self).entries@ == old(self).entries@,
            },
    {
        match self.find(key) {
            Some(i) => {
                let e = self.entries.remove(i);
                proof {
                    assert forall|k: int| 0 <= k < self.entries@.len() implies self.entries@[k].key@ != key@ by {
                        if k < i {
                            assert(self.entries@[k] == old(self).entries@[k]);
                        } else {
                            assert(self.entries@[k] == old(self).entries@[k + 1]);
                        }
                    }
                    assert forall|a: int, b: int| 0 <= a < self.entries@.len() && 0 <= b < self.entries@.len() && a != b
                        implies self.entries@[a].key@ != self.entries@[b].key@ by {
                        let a2 = if a < i { a } else { a + 1 };
                        let b2 = if b < i { b } else { b + 1 };
                        assert(self.entries@[a] == old(self).entries@[a2]);
                        assert(self.entries@[b] == old(self).entries@[b2]);
                    }
                }
                Some(e.value)
            },
            None => None,
        }
    }

    /// Drops every entry.
    pub fn clear(&mut self)
        ensures
            final(self).wf(),
            final(self).entries@.len() == 0,
            final(self).ttl_ms == old(self).ttl_ms,
    {
        self.entries.clear();
    }

    /// The number of entries, lapsed ones included until the next cleanup.
    pub fn len(&self) -> (r: usize)
        ensures
            r == self.entries@.len(),
    {
        self.entries.len()
    }

    pub fn is_empty(&self) -> (r: bool)
        ensures
            r == (self.entries@.len() == 0),
    {
        self.entries.len() == 0
    }

    /// The keys, in the order the entries were first stored.
    pub fn keys(&self) -> (r: Vec<String>)
        ensures
            r@.len() == self.entries@.len(),
            forall|i: int| 0 <= i < r@.len() ==> r@[i]@ == self.entries@[i].key@,
    {
        let mut r: Vec<String> = Vec::new();
        let mut i: usize = 0;
        while i < self.entries.len()
            invariant
                i <= self.entries@.len(),
                r@.len() == i,
                forall|k: int| 0 <= k < i ==> r@[k]@ == self.entries@[k].key@,
            decreases self.entries@.len() - i,
        {
            r.push(self.entries[i].key.clone());
            i = i + 1;
        }
        r
    }

    /// Sets how long entries stored from now on live.
    pub fn set_ttl(&mut self, ttl_ms: u64)
        ensures
            *final(self) == (Cache { ttl_ms, ..*old(self) }),
    {
        self.ttl_ms = ttl_ms;
    }

    pub fn get_ttl(&self) -> (r: u64)
        ensures
            r == self.ttl_ms,
    {
        self.ttl_ms
    }
}

proof fn lemma_live_entries_unique<V>(s: Seq<CacheEntry<V>>, now: u64)
    requires
        forall|i: int, j: int| 0 <= i < s.len() && 0 <= j < s.len() && i != j ==> s[i].key@ != s[j].key@,
    ensures
        forall|i: int, j: int|
            0 <= i < live_entries(s, now).len() && 0 <= j < live_entries(s, now).len() && i != j
                ==> live_entries(s, now)[i].key@ != live_entries(s, now)[j].key@,
    decreases s.len(),
{
    if s.len() > 0 {
        let d = s.drop_last();
        assert forall|i: int, j: int| 0 <= i < d.len() && 0 <= j < d.len() && i != j implies d[i].key@ != d[j].key@ by {
            assert(d[i] == s[i] && d[j] == s[j]);
        }
        lemma_live_entries_unique(d, now);
        lemma_live_entries_subset(d, now);
        let rest = live_entries(d, now);
        assert forall|i: int| 0 <= i < rest.len() implies rest[i].key@ != s.last().key@ by {
            assert(d.contains(rest[i]));
            let j = choose|j: int| 0 <= j < d.len() && d[j] == rest[i];
            assert(s[j] == d[j]);
        }
    }
}

} // verus!
