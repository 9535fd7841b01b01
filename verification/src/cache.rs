//! The cache store: one entry per request URL, replaced wholesale on refresh.
//!
//! The store never expires entries itself; the orchestrator compares the
//! recorded fetch time against a TTL it supplies.

use vstd::prelude::*;
use vstd::string::StringExecFns;

verus! {

/// A cached response payload together with the time it was fetched, in
/// seconds since the epoch.
pub struct CacheEntry {
    pub data: serde_json::Value,
    pub fetched_at: u64,
}

impl CacheEntry {
    /// A copy equal to this entry.
    pub fn duplicate(&self) -> (r: CacheEntry)
        ensures
            r == *self,
    {
        CacheEntry { data: self.data.clone(), fetched_at: self.fetched_at }
    }
}

/// No two positions hold the same key.
pub open spec fn unique_keys(s: Seq<(String, CacheEntry)>) -> bool {
    forall|i: int, j: int| 0 <= i < j < s.len() ==> (#[trigger] s[i]).0@ != (#[trigger] s[j]).0@
}

/// The mapping a key-entry sequence denotes; later positions win.
pub open spec fn map_of(s: Seq<(String, CacheEntry)>) -> Map<Seq<char>, CacheEntry>
    decreases s.len(),
{
    if s.len() == 0 {
        Map::empty()
    } else {
        map_of(s.drop_last()).insert(s.last().0@, s.last().1)
    }
}

proof fn lemma_map_of_index(s: Seq<(String, CacheEntry)>, i: int)
    requires
        unique_keys(s),
        0 <= i < s.len(),
    ensures
        map_of(s).contains_key(s[i].0@),
        map_of(s)[s[i].0@] == s[i].1,
    decreases s.len(),
{
    if i < s.len() - 1 {
        assert(unique_keys(s.drop_last()));
        lemma_map_of_index(s.drop_last(), i);
        assert(s[i].0@ != s.last().0@);
    }
}

proof fn lemma_map_of_absent(s: Seq<(String, CacheEntry)>, key: Seq<char>)
    requires
        forall|i: int| 0 <= i < s.len() ==> (#[trigger] s[i]).0@ != key,
    ensures
        !map_of(s).contains_key(key),
    decreases s.len(),
{
    if s.len() > 0 {
        lemma_map_of_absent(s.drop_last(), key);
    }
}

proof fn lemma_map_of_replace(s: Seq<(String, CacheEntry)>, i: int, k2: String, e: CacheEntry)
    requires
        unique_keys(s),
        0 <= i < s.len(),
        k2@ == s[i].0@,
    ensures
        map_of(s.update(i, (k2, e))) == map_of(s).insert(s[i].0@, e),
    decreases s.len(),
{
    let s2 = s.update(i, (k2, e));
    let key = s[i].0@;
    if i == s.len() - 1 {
        assert(s2.drop_last() =~= s.drop_last());
        assert(s2.last() == (k2, e));
        assert(map_of(s.drop_last()).insert(key, s[i].1).insert(key, e) =~= map_of(
            s.drop_last(),
        ).insert(key, e));
        assert(map_of(s2) == map_of(s.drop_last()).insert(key, e));
    } else {
        assert(unique_keys(s.drop_last()));
        lemma_map_of_replace(s.drop_last(), i, k2, e);
        assert(s2.drop_last() =~= s.drop_last().update(i, (k2, e)));
        let lastk = s.last().0@;
        let lastv = s.last().1;
        assert(key != lastk);
        assert(s2.last() == s.last());
        assert(map_of(s.drop_last()).insert(key, e).insert(lastk, lastv) =~= map_of(
            s.drop_last(),
        ).insert(lastk, lastv).insert(key, e));
        assert(map_of(s2) == map_of(s.drop_last()).insert(key, e).insert(lastk, lastv));
    }
}

/// The key-value store for fetched responses, keyed by exact request URL.
pub struct CacheStore {
    entries: Vec<(String, CacheEntry)>,
}

impl View for CacheStore {
    type V = Map<Seq<char>, CacheEntry>;

    closed spec fn view(&self) -> Map<Seq<char>, CacheEntry> {
        map_of(self.entries@)
    }
}

impl CacheStore {
    /// The store holds at most one entry per URL.
    pub closed spec fn wf(self) -> bool {
        unique_keys(self.entries@)
    }

    /// An empty store.
    pub fn new() -> (r: CacheStore)
        ensures
            r.wf(),
            r@ == Map::<Seq<char>, CacheEntry>::empty(),
    {
        CacheStore { entries: Vec::new() }
    }

    /// The entry stored for `url`, if any, whatever its age.
    pub fn get(&self, url: &str) -> (r: Option<&CacheEntry>)
        requires
            self.wf(),
        ensures
            match r {
                Some(e) => self@.contains_key(url@) && *e == self@[url@],
                None => !self@.contains_key(url@),
            },
    {
        let key = String::from_str(url);
        let n = self.entries.len();
        let mut i: usize = 0;
        while i < n
            invariant
                self.wf(),
                n == self.entries@.len(),
                i <= n,
                key@ == url@,
                forall|k: int| 0 <= k < i ==> (#[trigger] self.entries@[k]).0@ != url@,
            decreases n - i,
        {
            if self.entries[i].0.eq(&key) {
                proof {
                    lemma_map_of_index(self.entries@, i as int);
                }
                return Some(&self.entries[i].1);
            }
            i += 1;
        }
        proof {
            lemma_map_of_absent(self.entries@, url@);
        }
        None
    }

    /// Stores `entry` for `url`, overwriting any prior entry for the same
    /// key.
    pub fn put(&mut self, url: &str, entry: CacheEntry)
        requires
            old(self).wf(),
        ensures
            final(self).wf(),
            final(self)@ == old(self)@.insert(url@, entry),
    {
        let key = String::from_str(url);
        let n = self.entries.len();
        let mut i: usize = 0;
        while i < n
            invariant
                self.wf(),
                self.entries@ == old(self).entries@,
                n == self.entries@.len(),
                i <= n,
                key@ == url@,
                forall|k: int| 0 <= k < i ==> (#[trigger] self.entries@[k]).0@ != url@,
            decreases n - i,
        {
            if self.entries[i].0.eq(&key) {
                let ghost before = self.entries@;
                let ghost keysnap = key;
                proof {
                    lemma_map_of_replace(before, i as int, keysnap, entry);
                }
                self.entries.set(i, (key, entry));
                proof {
                    assert(self.entries@ =~= before.update(i as int, (keysnap, entry)));
                    assert forall|a: int, b: int|
                        0 <= a < b < self.entries@.len() implies (#[trigger] self.entries@[a]).0@
                        != (#[trigger] self.entries@[b]).0@ by {
                        assert(before[a].0@ != before[b].0@);
                    }
                }
                return ;
            }
            i += 1;
        }
        let ghost before = self.entries@;
        self.entries.push((key, entry));
        proof {
            assert(self.entries@.drop_last() =~= before);
            assert(map_of(self.entries@) == map_of(before).insert(url@, entry));
            assert forall|a: int, b: int|
                0 <= a < b < self.entries@.len() implies (#[trigger] self.entries@[a]).0@
                != (#[trigger] self.entries@[b]).0@ by {
                if b < before.len() as int {
                    assert(before[a].0@ != before[b].0@);
                } else {
                    assert(before[a].0@ != url@);
                }
            }
        }
    }

    /// How many URLs the store holds.
    pub fn len(&self) -> (r: usize)
        requires
            self.wf(),
        ensures
            r == self@.dom().len(),
    {
        proof {
            lemma_map_of_card(self.entries@);
        }
        self.entries.len()
    }
}

proof fn lemma_map_of_card(s: Seq<(String, CacheEntry)>)
    requires
        unique_keys(s),
    ensures
        map_of(s).dom().finite(),
        map_of(s).dom().len() == s.len(),
    decreases s.len(),
{
    if s.len() > 0 {
        assert(unique_keys(s.drop_last()));
        lemma_map_of_card(s.drop_last());
        assert(forall|i: int|
            0 <= i < s.drop_last().len() ==> (#[trigger] s.drop_last()[i]).0@ != s.last().0@);
        lemma_map_of_absent(s.drop_last(), s.last().0@);
    }
}

} // verus!
