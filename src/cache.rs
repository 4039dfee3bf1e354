use vstd::prelude::*;

verus! {

/// One memoised search: a category and the identifiers it produced.
pub struct CacheEntry {
    category: String,
    ids: Vec<u32>,
}

/// Whether some entry of `s` is keyed by `k`.
pub open spec fn has_key(s: Seq<CacheEntry>, k: Seq<char>) -> bool {
    exists|i: int| 0 <= i < s.len() && #[trigger] s[i].key() == k
}

/// `i` is the first position of `s` keyed by `k`.
pub open spec fn is_first(s: Seq<CacheEntry>, k: Seq<char>, i: int) -> bool {
    &&& 0 <= i < s.len()
    &&& s[i].key() == k
    &&& forall|j: int| 0 <= j < i ==> #[trigger] s[j].key() != k
}

/// The first position of `s` keyed by `k` (meaningful when `has_key(s, k)`).
pub open spec fn first_index(s: Seq<CacheEntry>, k: Seq<char>) -> int {
    choose|i: int| is_first(s, k, i)
}

/// The map that a sequence of entries stands for: each key to the
/// identifiers of its first entry.
pub open spec fn entries_map(s: Seq<CacheEntry>) -> Map<Seq<char>, Seq<u32>> {
    Map::new(|k: Seq<char>| has_key(s, k), |k: Seq<char>| s[first_index(s, k)].value())
}

impl CacheEntry {
    pub closed spec fn key(&self) -> Seq<char> {
        self.category@
    }

    pub closed spec fn value(&self) -> Seq<u32> {
        self.ids@
    }
}

proof fn lemma_first_index(s: Seq<CacheEntry>, k: Seq<char>, i: int)
    requires
        is_first(s, k, i),
    ensures
        has_key(s, k),
        first_index(s, k) == i,
{
    assert(s[i].key() == k);
    let m = first_index(s, k);
    assert(is_first(s, k, m));
    if m < i {
        assert(s[m].key() != k);
    } else if m > i {
        assert(s[i].key() != k);
    }
}

proof fn lemma_has_key_first(s: Seq<CacheEntry>, k: Seq<char>)
    requires
        has_key(s, k),
    ensures
        is_first(s, k, first_index(s, k)),
    decreases s.len(),
{
    let i = choose|i: int| 0 <= i < s.len() && #[trigger] s[i].key() == k;
    if has_key(s.drop_last(), k) {
        let t = s.drop_last();
        lemma_has_key_first(t, k);
        let m = first_index(t, k);
        assert forall|j: int| 0 <= j < m implies #[trigger] s[j].key() != k by {
            assert(s[j] == t[j]);
        }
        assert(is_first(s, k, m));
        lemma_first_index(s, k, m);
    } else {
        let last = s.len() - 1;
        assert forall|j: int| 0 <= j < last implies #[trigger] s[j].key() != k by {
            assert(s[j] == s.drop_last()[j]);
        }
        if i != last {
            assert(s.drop_last()[i].key() == k);
        }
        assert(is_first(s, k, last));
        lemma_first_index(s, k, last);
    }
}

/// Memoised search results, keyed by category. Entries are only added,
/// never evicted.
pub struct SearchCache {
    entries: Vec<CacheEntry>,
}

impl View for SearchCache {
    type V = Map<Seq<char>, Seq<u32>>;

    closed spec fn view(&self) -> Map<Seq<char>, Seq<u32>> {
        entries_map(self.entries@)
    }
}

impl SearchCache {
    pub fn new() -> (r: SearchCache)
        ensures
            r@ == Map::<Seq<char>, Seq<u32>>::empty(),
    {
        let r = SearchCache { entries: Vec::new() };
        assert(r@ =~= Map::<Seq<char>, Seq<u32>>::empty());
        r
    }

    /// First position of an entry keyed by `key`, if any.
    fn position(&self, key: &String) -> (r: Option<usize>)
        ensures
            match r {
                Some(i) => is_first(self.entries@, key@, i as int),
                None => !has_key(self.entries@, key@),
            },
    {
        let mut i: usize = 0;
        while i < self.entries.len()
            invariant
                i <= self.entries@.len(),
                forall|j: int| 0 <= j < i ==> #[trigger] self.entries@[j].key() != key@,
            decreases self.entries@.len() - i,
        {
            if self.entries[i].category == *key {
                return Some(i);
            }
            i = i + 1;
        }
        None
    }

    /// The identifiers cached for `category`, or `None` on a miss.
    pub fn get(&self, category: &str) -> (r: Option<&Vec<u32>>)
        ensures
            match r {
                Some(v) => self@.contains_key(category@) && v@ == self@[category@],
                None => !self@.contains_key(category@),
            },
    {
        let key = category.to_owned();
        match self.position(&key) {
            Some(i) => {
                proof {
                    lemma_first_index(self.entries@, key@, i as int);
                }
                Some(&self.entries[i].ids)
            },
            None => None,
        }
    }

    /// Whether a result is cached for `category`.
    pub fn contains(&self, category: &str) -> (r: bool)
        ensures
            r == self@.contains_key(category@),
    {
        self.get(category).is_some()
    }

    /// Caches `ids` under `category`, replacing any earlier entry for it.
    pub fn insert(&mut self, category: &str, ids: Vec<u32>)
        ensures
            final(self)@ == old(self)@.insert(category@, ids@),
    {
        let key = category.to_owned();
        let ghost k = key@;
        let ghost v = ids@;
        let ghost s = self.entries@;
        let e = CacheEntry { category: key, ids };
        match self.position(&e.category) {
            Some(i) => {
                self.entries.set(i, e);
                proof {
                    let t = self.entries@;
                    assert forall|q: Seq<char>| #[trigger] has_key(t, q) == has_key(s, q) || q == k by {
                        if q != k {
                            if has_key(s, q) {
                                let w = choose|w: int| 0 <= w < s.len() && #[trigger] s[w].key() == q;
                                assert(t[w].key() == q);
                            }
                            if has_key(t, q) {
                                let w = choose|w: int| 0 <= w < t.len() && #[trigger] t[w].key() == q;
                                assert(s[w].key() == q);
                            }
                        }
                    }
                    assert forall|j: int| 0 <= j < i implies #[trigger] t[j].key() != k by {
                        assert(t[j] == s[j]);
                    }
                    assert(is_first(t, k, i as int));
                    lemma_first_index(t, k, i as int);
                    assert forall|q: Seq<char>| q != k && has_key(s, q) implies entries_map(t)[q]
                        == entries_map(s)[q] by {
                        lemma_has_key_first(s, q);
                        let m = first_index(s, q);
                        assert forall|j: int| 0 <= j < m implies #[trigger] t[j].key() != q by {
                            assert(s[j].key() != q);
                        }
                        assert(is_first(t, q, m));
                        lemma_first_index(t, q, m);
                    }
                    assert(entries_map(t) =~= entries_map(s).insert(k, v));
                }
            },
            None => {
                self.entries.push(e);
                proof {
                    let t = self.entries@;
                    let n = s.len() as int;
                    assert forall|j: int| 0 <= j < n implies #[trigger] t[j].key() != k by {
                        assert(t[j] == s[j]);
                    }
                    assert(is_first(t, k, n));
                    lemma_first_index(t, k, n);
                    assert forall|q: Seq<char>| q != k implies #[trigger] has_key(t, q) == has_key(s, q) by {
                        if has_key(s, q) {
                            let w = choose|w: int| 0 <= w < s.len() && #[trigger] s[w].key() == q;
                            assert(t[w].key() == q);
                        }
                        if has_key(t, q) {
                            let w = choose|w: int| 0 <= w < t.len() && #[trigger] t[w].key() == q;
                            assert(w != n);
                            assert(s[w].key() == q);
                        }
                    }
                    assert forall|q: Seq<char>| q != k && has_key(s, q) implies entries_map(t)[q]
                        == entries_map(s)[q] by {
                        lemma_has_key_first(s, q);
                        let m = first_index(s, q);
                        assert forall|j: int| 0 <= j < m implies #[trigger] t[j].key() != q by {
                            assert(s[j].key() != q);
                        }
                        assert(t[m] == s[m]);
                        assert(is_first(t, q, m));
                        lemma_first_index(t, q, m);
                    }
                    assert(entries_map(t) =~= entries_map(s).insert(k, v));
                }
            },
        }
    }
}

} // verus!
