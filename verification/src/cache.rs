//! The artifact cache: verified archives, one per kind, version and platform.

use crate::kind::Kind;
use crate::text::same_text;
use vstd::prelude::*;

verus! {

/// What a cached archive is keyed by.
#[derive(Debug, PartialEq, Eq)]
pub struct ArtifactKey {
    pub kind: Kind,
    pub tag: String,
    pub platform: String,
}

pub struct ArtifactKeyView {
    pub kind: Kind,
    pub tag: Seq<char>,
    pub platform: Seq<char>,
}

impl View for ArtifactKey {
    type V = ArtifactKeyView;

    open spec fn view(&self) -> ArtifactKeyView {
        ArtifactKeyView { kind: self.kind, tag: self.tag@, platform: self.platform@ }
    }
}

impl Clone for ArtifactKey {
    fn clone(&self) -> (r: Self)
        ensures
            r@ == self@,
    {
        ArtifactKey { kind: self.kind, tag: self.tag.clone(), platform: self.platform.clone() }
    }
}

impl ArtifactKey {
    /// Whether two keys are the same key.
    pub fn same(&self, other: &ArtifactKey) -> (r: bool)
        ensures
            r == (self@ == other@),
    {
        self.kind == other.kind && same_text(self.tag.as_str(), other.tag.as_str()) && same_text(
            self.platform.as_str(),
            other.platform.as_str(),
        )
    }
}

/// A verified archive in the cache. Its content does not change once it is there.
#[derive(Debug, PartialEq, Eq)]
pub struct CacheEntry {
    pub key: ArtifactKey,
    pub local_path: String,
    /// The checksum with which the archive was verified.
    pub checksum: Vec<u8>,
}

pub struct CacheEntryView {
    pub key: ArtifactKeyView,
    pub local_path: Seq<char>,
    pub checksum: Seq<u8>,
}

impl View for CacheEntry {
    type V = CacheEntryView;

    open spec fn view(&self) -> CacheEntryView {
        CacheEntryView { key: self.key@, local_path: self.local_path@, checksum: self.checksum@ }
    }
}

impl Clone for CacheEntry {
    fn clone(&self) -> (r: Self)
        ensures
            r@ == self@,
    {
        CacheEntry {
            key: self.key.clone(),
            local_path: self.local_path.clone(),
            checksum: self.checksum.clone(),
        }
    }
}

/// The view of an optional cache entry.
pub open spec fn opt_entry(e: Option<CacheEntry>) -> Option<CacheEntryView> {
    match e {
        Some(e) => Some(e@),
        None => None,
    }
}

/// The cache as the engine knows it: at most one entry under each key.
#[derive(Debug, PartialEq, Eq)]
pub struct Cache {
    entries: Vec<CacheEntry>,
}

spec fn holds(entries: Seq<CacheEntry>, key: ArtifactKeyView, i: int) -> bool {
    0 <= i < entries.len() && entries[i].key@ == key
}

spec fn distinct(entries: Seq<CacheEntry>) -> bool {
    forall|i: int, j: int|
        0 <= i < entries.len() && 0 <= j < entries.len() && (#[trigger] entries[i]).key@ == (
        #[trigger] entries[j]).key@ ==> i == j
}

spec fn as_map(entries: Seq<CacheEntry>) -> Map<ArtifactKeyView, CacheEntryView> {
    Map::new(
        |k: ArtifactKeyView| exists|i: int| holds(entries, k, i),
        |k: ArtifactKeyView| entries[choose|i: int| holds(entries, k, i)]@,
    )
}

proof fn lemma_as_map_at(entries: Seq<CacheEntry>, i: int)
    requires
        distinct(entries),
        0 <= i < entries.len(),
    ensures
        as_map(entries).contains_key(entries[i].key@),
        as_map(entries)[entries[i].key@] == entries[i]@,
{
    let k = entries[i].key@;
    assert(holds(entries, k, i));
    let c = choose|c: int| holds(entries, k, c);
    assert(c == i);
}

impl View for Cache {
    type V = Map<ArtifactKeyView, CacheEntryView>;

    closed spec fn view(&self) -> Map<ArtifactKeyView, CacheEntryView> {
        as_map(self.entries@)
    }
}

impl Cache {
    /// No two entries share a key.
    pub closed spec fn wf(&self) -> bool {
        distinct(self.entries@)
    }

    /// Every entry is filed under its own key.
    pub proof fn lemma_filed_under_key(&self, key: ArtifactKeyView)
        requires
            self.wf(),
            self@.contains_key(key),
        ensures
            self@[key].key == key,
    {
        let i = choose|i: int| holds(self.entries@, key, i);
        assert(holds(self.entries@, key, i));
    }

    /// An empty cache.
    pub fn new() -> (cache: Cache)
        ensures
            cache.wf(),
            cache@ == Map::<ArtifactKeyView, CacheEntryView>::empty(),
    {
        let cache = Cache { entries: Vec::new() };
        assert(cache@ =~= Map::<ArtifactKeyView, CacheEntryView>::empty());
        cache
    }

    fn position(&self, key: &ArtifactKey) -> (r: Option<usize>)
        requires
            self.wf(),
        ensures
            match r {
                Some(i) => holds(self.entries@, key@, i as int),
                None => !self@.contains_key(key@),
            },
    {
        let mut i: usize = 0;
        while i < self.entries.len()
            invariant
                i <= self.entries.len(),
                forall|j: int| 0 <= j < i ==> !holds(self.entries@, key@, j),
            decreases self.entries.len() - i,
        {
            if self.entries[i].key.same(key) {
                return Some(i);
            }
            i += 1;
        }
        None
    }

    /// The entry under `key`, if there is one.
    pub fn get(&self, key: &ArtifactKey) -> (r: Option<&CacheEntry>)
        requires
            self.wf(),
        ensures
            match r {
                Some(e) => self@.contains_key(key@) && e@ == self@[key@],
                None => !self@.contains_key(key@),
            },
    {
        match self.position(key) {
            Some(i) => {
                proof {
                    lemma_as_map_at(self.entries@, i as int);
                }
                Some(&self.entries[i])
            },
            None => None,
        }
    }

    /// Whether there is an entry under `key`.
    pub fn contains(&self, key: &ArtifactKey) -> (r: bool)
        requires
            self.wf(),
        ensures
            r == self@.contains_key(key@),
    {
        self.get(key).is_some()
    }

    /// The number of entries.
    pub fn len(&self) -> (n: usize)
        requires
            self.wf(),
        ensures
            n == self@.dom().len(),
            self@.dom().finite(),
    {
        proof {
            lemma_count(self.entries@);
        }
        self.entries.len()
    }

    /// Files a verified archive under its key, in place of what was there.
    pub fn put(&mut self, entry: CacheEntry)
        requires
            old(self).wf(),
        ensures
            final(self).wf(),
            final(self)@ == old(self)@.insert(entry.key@, entry@),
    {
        let ghost before = self.entries@;
        match self.position(&entry.key) {
            Some(i) => {
                self.entries.set(i, entry);
                let ghost after = self.entries@;
                proof {
                    assert(distinct(after)) by {
                        assert forall|a: int, b: int|
                            0 <= a < after.len() && 0 <= b < after.len() && (
                            #[trigger] after[a]).key@ == (#[trigger] after[b]).key@ implies a
                            == b by {
                            assert(after[a].key@ == before[a].key@);
                            assert(after[b].key@ == before[b].key@);
                        }
                    }
                    assert forall|k: ArtifactKeyView|
                        as_map(after).contains_key(k) == #[trigger] as_map(before).insert(
                            entry.key@,
                            entry@,
                        ).contains_key(k) by {
                        if as_map(after).contains_key(k) {
                            let c = choose|c: int| holds(after, k, c);
                            assert(holds(before, k, c));
                        }
                        if as_map(before).contains_key(k) {
                            let c = choose|c: int| holds(before, k, c);
                            assert(holds(after, k, c));
                        }
                        if k == entry.key@ {
                            assert(holds(after, k, i as int));
                        }
                    }
                    assert forall|k: ArtifactKeyView| #[trigger]
                        as_map(after).contains_key(k) implies as_map(after)[k] == as_map(
                        before,
                    ).insert(entry.key@, entry@)[k] by {
                        let c = choose|c: int| holds(after, k, c);
                        lemma_as_map_at(after, c);
                        if c != i {
                            assert(holds(before, k, c));
                            lemma_as_map_at(before, c);
                        }
                    }
                    assert(as_map(after) =~= as_map(before).insert(entry.key@, entry@));
                }
            },
            None => {
                self.entries.push(entry);
                let ghost after = self.entries@;
                proof {
                    let n = before.len() as int;
                    assert(distinct(after)) by {
                        assert forall|a: int, b: int|
                            0 <= a < after.len() && 0 <= b < after.len() && (
                            #[trigger] after[a]).key@ == (#[trigger] after[b]).key@ implies a
                            == b by {
                            if a < n {
                                assert(after[a] == before[a]);
                                assert(holds(before, after[a].key@, a));
                            }
                            if b < n {
                                assert(after[b] == before[b]);
                                assert(holds(before, after[b].key@, b));
                            }
                        }
                    }
                    assert forall|k: ArtifactKeyView|
                        as_map(after).contains_key(k) == #[trigger] as_map(before).insert(
                            entry.key@,
                            entry@,
                        ).contains_key(k) by {
                        if as_map(after).contains_key(k) {
                            let c = choose|c: int| holds(after, k, c);
                            if c < n {
                                assert(holds(before, k, c));
                            }
                        }
                        if as_map(before).contains_key(k) {
                            let c = choose|c: int| holds(before, k, c);
                            assert(holds(after, k, c));
                        }
                        if k == entry.key@ {
                            assert(holds(after, k, n));
                        }
                    }
                    assert forall|k: ArtifactKeyView| #[trigger]
                        as_map(after).contains_key(k) implies as_map(after)[k] == as_map(
                        before,
                    ).insert(entry.key@, entry@)[k] by {
                        let c = choose|c: int| holds(after, k, c);
                        lemma_as_map_at(after, c);
                        if c < n {
                            assert(holds(before, k, c));
                            lemma_as_map_at(before, c);
                        }
                    }
                    assert(as_map(after) =~= as_map(before).insert(entry.key@, entry@));
                }
            },
        }
    }

    /// Drops the entry under `key`, if there is one, and says whether there was.
    pub fn evict(&mut self, key: &ArtifactKey) -> (r: bool)
        requires
            old(self).wf(),
        ensures
            final(self).wf(),
            final(self)@ == old(self)@.remove(key@),
            r == old(self)@.contains_key(key@),
    {
        let ghost before = self.entries@;
        match self.position(key) {
            Some(i) => {
                proof {
                    lemma_as_map_at(before, i as int);
                }
                self.entries.remove(i);
                let ghost after = self.entries@;
                proof {
                    assert forall|a: int| 0 <= a < after.len() implies #[trigger] after[a] == before[if a
                        < i {
                        a
                    } else {
                        a + 1
                    }] by {}
                    assert(distinct(after)) by {
                        assert forall|a: int, b: int|
                            0 <= a < after.len() && 0 <= b < after.len() && (
                            #[trigger] after[a]).key@ == (#[trigger] after[b]).key@ implies a
                            == b by {
                            let a0 = if a < i { a } else { a + 1 };
                            let b0 = if b < i { b } else { b + 1 };
                            assert(after[a] == before[a0]);
                            assert(after[b] == before[b0]);
                        }
                    }
                    assert forall|k: ArtifactKeyView|
                        as_map(after).contains_key(k) == #[trigger] as_map(before).remove(
                            key@,
                        ).contains_key(k) by {
                        if as_map(after).contains_key(k) {
                            let c = choose|c: int| holds(after, k, c);
                            let c0 = if c < i { c } else { c + 1 };
                            assert(after[c] == before[c0]);
                            assert(holds(before, k, c0));
                        }
                        if as_map(before).contains_key(k) && k != key@ {
                            let c = choose|c: int| holds(before, k, c);
                            let c1 = if c < i { c } else { c - 1 };
                            assert(after[c1] == before[c]);
                            assert(holds(after, k, c1));
                        }
                    }
                    assert forall|k: ArtifactKeyView| #[trigger]
                        as_map(after).contains_key(k) implies as_map(after)[k] == as_map(
                        before,
                    ).remove(key@)[k] by {
                        let c = choose|c: int| holds(after, k, c);
                        let c0 = if c < i { c } else { c + 1 };
                        lemma_as_map_at(after, c);
                        assert(after[c] == before[c0]);
                        lemma_as_map_at(before, c0);
                    }
                    assert(as_map(after) =~= as_map(before).remove(key@));
                }
                true
            },
            None => {
                assert(self@ =~= old(self)@.remove(key@));
                false
            },
        }
    }
}

proof fn lemma_count(entries: Seq<CacheEntry>)
    requires
        distinct(entries),
    ensures
        as_map(entries).dom().finite(),
        as_map(entries).dom().len() == entries.len(),
    decreases entries.len(),
{
    if entries.len() == 0 {
        assert(as_map(entries).dom() =~= Set::<ArtifactKeyView>::empty());
    } else {
        let head = entries.drop_last();
        let last = entries.last();
        assert forall|i: int, j: int|
            0 <= i < head.len() && 0 <= j < head.len() && (#[trigger] head[i]).key@ == (
            #[trigger] head[j]).key@ implies i == j by {
            assert(head[i] == entries[i]);
            assert(head[j] == entries[j]);
        }
        lemma_count(head);
        assert(!as_map(head).dom().contains(last.key@)) by {
            if as_map(head).dom().contains(last.key@) {
                let c = choose|c: int| holds(head, last.key@, c);
                assert(entries[c] == head[c]);
                assert(entries[entries.len() - 1] == last);
            }
        }
        assert(as_map(entries).dom() =~= as_map(head).dom().insert(last.key@)) by {
            assert forall|k: ArtifactKeyView|
                as_map(entries).dom().contains(k) == #[trigger] as_map(head).dom().insert(
                    last.key@,
                ).contains(k) by {
                if as_map(entries).dom().contains(k) {
                    let c = choose|c: int| holds(entries, k, c);
                    if c < head.len() {
                        assert(head[c] == entries[c]);
                        assert(holds(head, k, c));
                    }
                }
                if as_map(head).dom().contains(k) {
                    let c = choose|c: int| holds(head, k, c);
                    assert(head[c] == entries[c]);
                    assert(holds(entries, k, c));
                }
                if k == last.key@ {
                    assert(holds(entries, k, entries.len() - 1));
                }
            }
        }
    }
}

} // verus!
