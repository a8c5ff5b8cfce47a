//! Lists fetched from a model registry, kept fresh for a few minutes.

use vstd::prelude::*;
use crate::resolver::strings_view;

verus! {

/// How long a fetched list stays fresh: five minutes, in milliseconds.
pub const CACHE_TTL_MS: u64 = 300_000;

/// What a cache holds under each key: the list, and the time (in
/// milliseconds) from which it is no longer fresh.
pub type CacheContents = Map<Seq<char>, (Seq<Seq<char>>, u64)>;

/// The list under `key` that is still fresh at time `now`, if any.
pub open spec fn fresh_list(c: CacheContents, key: Seq<char>, now: u64) -> Option<Seq<Seq<char>>> {
    if c.dom().contains(key) && c[key].1 > now {
        Some(c[key].0)
    } else {
        None
    }
}

/// The cache after `data` was stored under `key` at time `now`.
pub open spec fn stored(c: CacheContents, key: Seq<char>, data: Seq<Seq<char>>, now: u64) -> CacheContents {
    c.insert(key, (data, (now + CACHE_TTL_MS) as u64))
}

/// One cached list.
pub struct CacheEntry {
    pub key: String,
    pub data: Vec<String>,
    pub expires_at_ms: u64,
}

/// Lists keyed by the repository they were fetched for.
pub struct ListCache {
    entries: Vec<CacheEntry>,
    contents: Ghost<CacheContents>,
}

impl View for ListCache {
    type V = CacheContents;

    closed spec fn view(&self) -> CacheContents {
        self.contents@
    }
}

/// A copy of a list of strings.
pub fn clone_strings(v: &Vec<String>) -> (r: Vec<String>)
    ensures
        r@ == v@,
{
    let mut r: Vec<String> = Vec::new();
    let mut i: usize = 0;
    while i < v.len()
        invariant
            0 <= i <= v@.len(),
            r@ == v@.take(i as int),
        decreases v@.len() - i,
    {
        r.push(v[i].clone());
        assert(r@ =~= v@.take(i + 1));
        i = i + 1;
    }
    assert(v@.take(v@.len() as int) =~= v@);
    r
}

impl ListCache {
    /// The entries match the contents, one entry per key.
    pub closed spec fn wf(&self) -> bool {
        &&& forall|i: int|
            0 <= i < self.entries@.len() ==> {
                let e = #[trigger] self.entries@[i];
                self.contents@.dom().contains(e.key@) && self.contents@[e.key@] == (
                    strings_view(e.data@),
                    e.expires_at_ms,
                )
            }
        &&& forall|k: Seq<char>| #[trigger]
            self.contents@.dom().contains(k) ==> exists|i: int|
                0 <= i < self.entries@.len() && #[trigger] self.entries@[i].key@ == k
        &&& forall|i: int, j: int|
            0 <= i < j < self.entries@.len() ==> self.entries@[i].key@ != self.entries@[j].key@
    }

    pub fn new() -> (c: ListCache)
        ensures
            c.wf(),
            c@ == CacheContents::empty(),
    {
        ListCache { entries: Vec::new(), contents: Ghost(CacheContents::empty()) }
    }

    fn find(&self, key: &String) -> (r: Option<usize>)
        requires
            self.wf(),
        ensures
            match r {
                Some(i) => i < self.entries@.len() && self.entries@[i as int].key@ == key@,
                None => !self@.dom().contains(key@),
            },
    {
        let mut i: usize = 0;
        while i < self.entries.len()
            invariant
                0 <= i <= self.entries@.len(),
                forall|j: int| 0 <= j < i ==> self.entries@[j].key@ != key@,
            decreases self.entries@.len() - i,
        {
            if self.entries[i].key == *key {
                return Some(i);
            }
            i = i + 1;
        }
        proof {
            if self@.dom().contains(key@) {
                let w = choose|w: int| 0 <= w < self.entries@.len() && #[trigger] self.entries@[w].key@ == key@;
                assert(self.entries@[w].key@ != key@);
            }
        }
        None
    }

    /// The list under `key`, if it is still fresh at time `now_ms`.
    pub fn lookup(&self, key: &String, now_ms: u64) -> (r: Option<Vec<String>>)
        requires
            self.wf(),
        ensures
            match r {
                Some(v) => fresh_list(self@, key@, now_ms) == Some(strings_view(v@)),
                None => fresh_list(self@, key@, now_ms) is None,
            },
    {
        match self.find(key) {
            Some(i) => {
                let e = &self.entries[i];
                assert(self.contents@[e.key@] == (strings_view(e.data@), e.expires_at_ms));
                if e.expires_at_ms > now_ms {
                    Some(clone_strings(&e.data))
                } else {
                    None
                }
            },
            None => None,
        }
    }

    /// Keeps `data` under `key`, fresh for `CACHE_TTL_MS` from `now_ms`.
    pub fn store(&mut self, key: String, data: Vec<String>, now_ms: u64)
        requires
            old(self).wf(),
            now_ms <= u64::MAX - CACHE_TTL_MS,
        ensures
            final(self).wf(),
            final(self)@ == stored(old(self)@, key@, strings_view(data@), now_ms),
    {
        let ghost new_contents = stored(self@, key@, strings_view(data@), now_ms);
        let ghost old_entries = self.entries@;
        let ghost k = key@;
        let expires = now_ms + CACHE_TTL_MS;
        match self.find(&key) {
            Some(i) => {
                self.entries[i] = CacheEntry { key, data, expires_at_ms: expires };
                self.contents = Ghost(new_contents);
                assert forall|q: Seq<char>| #[trigger] self.contents@.dom().contains(q) implies exists|w: int|
                    0 <= w < self.entries@.len() && #[trigger] self.entries@[w].key@ == q by {
                    if q == k {
                        assert(self.entries@[i as int].key@ == q);
                    } else {
                        assert(old_entries.len() == self.entries@.len());
                        let w = choose|w: int| 0 <= w < old_entries.len() && #[trigger] old_entries[w].key@ == q;
                        assert(self.entries@[w].key@ == q);
                    }
                }
            },
            None => {
                self.entries.push(CacheEntry { key, data, expires_at_ms: expires });
                self.contents = Ghost(new_contents);
                let ghost n = old_entries.len() as int;
                assert forall|q: Seq<char>| #[trigger] self.contents@.dom().contains(q) implies exists|w: int|
                    0 <= w < self.entries@.len() && #[trigger] self.entries@[w].key@ == q by {
                    if q == k {
                        assert(self.entries@[n].key@ == q);
                    } else {
                        let w = choose|w: int| 0 <= w < old_entries.len() && #[trigger] old_entries[w].key@ == q;
                        assert(self.entries@[w].key@ == q);
                    }
                }
                assert forall|a: int, b: int| 0 <= a < b < self.entries@.len() implies self.entries@[a].key@
                    != self.entries@[b].key@ by {
                    if b == n {
                        let e = old_entries[a];
                        assert(old_entries[a] == self.entries@[a]);
                    }
                }
            },
        }
    }
}

/// A stored list is read back, unchanged, as long as it is fresh, and not
/// after; the lists under other keys are untouched.
pub proof fn law_cache_read_after_store(
    c: CacheContents,
    key: Seq<char>,
    data: Seq<Seq<char>>,
    now: u64,
    other: Seq<char>,
    later: u64,
)
    requires
        now <= u64::MAX - CACHE_TTL_MS,
    ensures
        later < now + CACHE_TTL_MS ==> fresh_list(stored(c, key, data, now), key, later) == Some(data),
        later >= now + CACHE_TTL_MS ==> fresh_list(stored(c, key, data, now), key, later) is None,
        other != key ==> fresh_list(stored(c, key, data, now), other, later) == fresh_list(c, other, later),
{
}

} // verus!
