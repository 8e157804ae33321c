//! A short-lived cache of directory listings.

use vstd::prelude::*;
use vstd::string::StringExecFns;

verus! {

/// One entry of a directory listing.
pub struct DirectoryEntry {
    pub name: String,
    pub path: String,
    pub is_dir: bool,
}

impl DirectoryEntry {
    pub open spec fn view(&self) -> (Seq<char>, Seq<char>, bool) {
        (self.name@, self.path@, self.is_dir)
    }

    /// A copy of the entry.
    pub fn duplicate(&self) -> (r: DirectoryEntry)
        ensures
            r.view() == self.view(),
    {
        DirectoryEntry { name: self.name.clone(), path: self.path.clone(), is_dir: self.is_dir }
    }
}

/// The views of a listing.
pub open spec fn listing_view(v: Seq<DirectoryEntry>) -> Seq<(Seq<char>, Seq<char>, bool)> {
    v.map_values(|e: DirectoryEntry| e.view())
}

/// How long a cached listing stays valid, in milliseconds.
pub const CACHE_TTL_MS: u64 = 2000;

/// Whether a listing cached at `cached_at` (milliseconds) is still valid at
/// `now`: no more than `CACHE_TTL_MS` has passed.
pub open spec fn is_fresh(cached_at: u64, now: u64) -> bool {
    now <= cached_at || now - cached_at <= CACHE_TTL_MS
}

struct CacheSlot {
    path: String,
    entries: Vec<DirectoryEntry>,
    cached_at: u64,
}

fn copy_listing(v: &Vec<DirectoryEntry>) -> (r: Vec<DirectoryEntry>)
    ensures
        listing_view(r@) == listing_view(v@),
{
    let mut out: Vec<DirectoryEntry> = Vec::new();
    let mut i: usize = 0;
    while i < v.len()
        invariant
            i <= v@.len(),
            out@.len() == i,
            listing_view(out@) == listing_view(v@.take(i as int)),
        decreases v@.len() - i,
    {
        let ghost prev = out@;
        out.push(v[i].duplicate());
        proof {
            let t = v@.take(i + 1);
            assert forall|j: int| 0 <= j < i + 1 implies listing_view(out@)[j] == listing_view(t)[j] by {
                if j < i {
                    assert(listing_view(prev)[j] == listing_view(v@.take(i as int))[j]);
                    assert(out@[j] == prev[j]);
                }
            }
            assert(listing_view(out@) =~= listing_view(t));
        }
        i = i + 1;
    }
    assert(v@.take(v@.len() as int) =~= v@);
    out
}

/// A cache of directory listings keyed by path, each valid for
/// `CACHE_TTL_MS`. Times are milliseconds on a clock the caller supplies.
pub struct DirectoryCache {
    slots: Vec<CacheSlot>,
    model: Ghost<Map<Seq<char>, (Seq<(Seq<char>, Seq<char>, bool)>, u64)>>,
}

impl DirectoryCache {
    /// Path to (listing, time it was cached).
    pub closed spec fn entries(&self) -> Map<Seq<char>, (Seq<(Seq<char>, Seq<char>, bool)>, u64)> {
        self.model@
    }

    pub closed spec fn wf(&self) -> bool {
        &&& forall|i: int, j: int|
            0 <= i < self.slots@.len() && 0 <= j < self.slots@.len() && i != j
                ==> self.slots@[i].path@ != self.slots@[j].path@
        &&& forall|i: int|
            0 <= i < self.slots@.len() ==> #[trigger] self.model@.contains_key(self.slots@[i].path@)
                && self.model@[self.slots@[i].path@] == (
                listing_view(self.slots@[i].entries@),
                self.slots@[i].cached_at,
            )
        &&& forall|k: Seq<char>|
            #[trigger] self.model@.contains_key(k) ==> exists|i: int|
                0 <= i < self.slots@.len() && self.slots@[i].path@ == k
    }

    pub fn new() -> (r: Self)
        ensures
            r.wf(),
            r.entries() == Map::<Seq<char>, (Seq<(Seq<char>, Seq<char>, bool)>, u64)>::empty(),
    {
        DirectoryCache { slots: Vec::new(), model: Ghost(Map::empty()) }
    }

    fn position(&self, path: &String) -> (r: Option<usize>)
        requires
            self.wf(),
        ensures
            match r {
                Some(i) => i < self.slots@.len() && self.slots@[i as int].path@ == path@,
                None => !self.entries().contains_key(path@),
            },
    {
        let mut i: usize = 0;
        while i < self.slots.len()
            invariant
                self.wf(),
                i <= self.slots@.len(),
                forall|j: int| 0 <= j < i ==> self.slots@[j].path@ != path@,
            decreases self.slots@.len() - i,
        {
            if self.slots[i].path.eq(path) {
                return Some(i);
            }
            i = i + 1;
        }
        None
    }

    /// The listing cached for `path`, if there is one and it is still valid at `now`.
    pub fn get(&self, path: &str, now: u64) -> (r: Option<Vec<DirectoryEntry>>)
        requires
            self.wf(),
        ensures
            match r {
                Some(v) => {
                    &&& self.entries().contains_key(path@)
                    &&& is_fresh(self.entries()[path@].1, now)
                    &&& listing_view(v@) == self.entries()[path@].0
                },
                None => !self.entries().contains_key(path@) || !is_fresh(
                    self.entries()[path@].1,
                    now,
                ),
            },
    {
        let key = String::from_str(path);
        match self.position(&key) {
            None => None,
            Some(i) => {
                let slot = &self.slots[i];
                assert(self.model@.contains_key(self.slots@[i as int].path@));
                if now <= slot.cached_at || now - slot.cached_at <= CACHE_TTL_MS {
                    Some(copy_listing(&slot.entries))
                } else {
                    None
                }
            },
        }
    }

    /// Caches `entries` as the listing of `path`, made at `now`, replacing any
    /// earlier one.
    pub fn set(&mut self, path: String, entries: Vec<DirectoryEntry>, now: u64)
        requires
            old(self).wf(),
        ensures
            final(self).wf(),
            final(self).entries() == old(self).entries().insert(path@, (listing_view(entries@), now)),
    {
        let ghost key = path@;
        let ghost val = (listing_view(entries@), now);
        self.invalidate(path.as_str());
        let ghost mid = self.model@;
        let ghost ms = self.slots@;
        self.slots.push(CacheSlot { path, entries, cached_at: now });
        self.model = Ghost(mid.insert(key, val));
        proof {
            let n = self.slots@.len() - 1;
            assert(self.slots@[n].path@ == key);
            assert forall|i: int| 0 <= i < n implies self.slots@[i].path@ != key by {
                assert(self.slots@[i] == ms[i]);
                assert(mid.contains_key(ms[i].path@));
            }
            assert forall|a: int, b: int|
                0 <= a < self.slots@.len() && 0 <= b < self.slots@.len() && a != b implies self.slots@[a].path@
                != self.slots@[b].path@ by {
                if a < n {
                    assert(self.slots@[a] == ms[a]);
                }
                if b < n {
                    assert(self.slots@[b] == ms[b]);
                }
            }
            assert forall|i: int| 0 <= i < self.slots@.len() implies #[trigger] self.model@.contains_key(
                self.slots@[i].path@,
            ) && self.model@[self.slots@[i].path@] == (
                listing_view(self.slots@[i].entries@),
                self.slots@[i].cached_at,
            ) by {
                if i < n {
                    assert(self.slots@[i] == ms[i]);
                    assert(mid.contains_key(ms[i].path@));
                }
            }
            assert forall|k: Seq<char>| #[trigger] self.model@.contains_key(k) implies exists|i: int|
                0 <= i < self.slots@.len() && self.slots@[i].path@ == k by {
                if k != key {
                    assert(mid.contains_key(k));
                    let i = choose|i: int| 0 <= i < ms.len() && ms[i].path@ == k;
                    assert(self.slots@[i] == ms[i]);
                }
            }
            assert(self.model@ =~= old(self).entries().insert(key, val));
        }
    }

    /// Drops the listing cached for `path`, if any.
    pub fn invalidate(&mut self, path: &str)
        requires
            old(self).wf(),
        ensures
            final(self).wf(),
            final(self).entries() == old(self).entries().remove(path@),
    {
        let key = String::from_str(path);
        match self.position(&key) {
            None => {
                assert(self.entries().remove(path@) =~= self.entries());
            },
            Some(i) => {
                let ghost old_model = self.model@;
                let ghost os = self.slots@;
                let _ = self.slots.remove(i);
                self.model = Ghost(old_model.remove(path@));
                proof {
                    assert forall|a: int, b: int|
                        0 <= a < self.slots@.len() && 0 <= b < self.slots@.len() && a != b implies self.slots@[a].path@
                        != self.slots@[b].path@ by {
                        let oa = if a < i { a } else { a + 1 };
                        let ob = if b < i { b } else { b + 1 };
                        assert(self.slots@[a] == os[oa]);
                        assert(self.slots@[b] == os[ob]);
                    }
                    assert forall|j: int| 0 <= j < self.slots@.len() implies #[trigger] self.model@.contains_key(
                        self.slots@[j].path@,
                    ) && self.model@[self.slots@[j].path@] == (
                        listing_view(self.slots@[j].entries@),
                        self.slots@[j].cached_at,
                    ) by {
                        let oj = if j < i { j } else { j + 1 };
                        assert(self.slots@[j] == os[oj]);
                        assert(os[oj].path@ != os[i as int].path@);
                        assert(old_model.contains_key(os[oj].path@));
                    }
                    assert forall|k: Seq<char>| #[trigger] self.model@.contains_key(k) implies exists|j: int|
                        0 <= j < self.slots@.len() && self.slots@[j].path@ == k by {
                        let oj = choose|oj: int| 0 <= oj < os.len() && os[oj].path@ == k;
                        assert(oj != i);
                        let j = if oj < i { oj } else { oj - 1 };
                        assert(self.slots@[j] == os[oj]);
                    }
                }
            },
        }
    }

    /// Drops every cached listing.
    pub fn clear(&mut self)
        ensures
            final(self).wf(),
            final(self).entries() == Map::<Seq<char>, (Seq<(Seq<char>, Seq<char>, bool)>, u64)>::empty(),
    {
        self.slots.clear();
        self.model = Ghost(Map::empty());
    }
}

} // verus!
