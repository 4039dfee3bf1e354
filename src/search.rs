use vstd::prelude::*;

use crate::cache::SearchCache;
use crate::catalog::Catalog;
use crate::product::Product;

verus! {

/// What a search produced: a cached sequence, a freshly computed non-empty
/// one, or no match at all.
pub enum SearchOutcome {
    Cached(Vec<u32>),
    Found(Vec<u32>),
    NoMatch,
}

/// The mathematical value of a `SearchOutcome`.
pub enum SearchView {
    Cached(Seq<u32>),
    Found(Seq<u32>),
    NoMatch,
}

impl View for SearchOutcome {
    type V = SearchView;

    open spec fn view(&self) -> SearchView {
        match self {
            SearchOutcome::Cached(v) => SearchView::Cached(v@),
            SearchOutcome::Found(v) => SearchView::Found(v@),
            SearchOutcome::NoMatch => SearchView::NoMatch,
        }
    }
}

impl SearchOutcome {
    /// The identifiers of the outcome; empty when nothing matched.
    pub fn into_ids(self) -> (r: Vec<u32>)
        ensures
            r@ == match self@ {
                SearchView::Cached(s) => s,
                SearchView::Found(s) => s,
                SearchView::NoMatch => Seq::<u32>::empty(),
            },
    {
        match self {
            SearchOutcome::Cached(v) => v,
            SearchOutcome::Found(v) => v,
            SearchOutcome::NoMatch => Vec::new(),
        }
    }

    pub fn is_cached(&self) -> (r: bool)
        ensures
            r == self@ is Cached,
    {
        match self {
            SearchOutcome::Cached(_) => true,
            _ => false,
        }
    }
}

/// The brand filter as a value.
pub open spec fn brand_view(b: Option<&str>) -> Option<Seq<char>> {
    match b {
        Some(s) => Some(s@),
        None => None,
    }
}

/// `p` belongs to `category` and, when a brand is given, to that brand.
pub open spec fn matches(p: Product, category: Seq<char>, brand: Option<Seq<char>>) -> bool {
    p.category@ == category && match brand {
        Some(b) => p.brand@ == b,
        None => true,
    }
}

/// Identifiers of the products of `s` that match, in the order of `s`.
pub open spec fn filter_ids(s: Seq<Product>, category: Seq<char>, brand: Option<Seq<char>>) -> Seq<
    u32,
>
    decreases s.len(),
{
    if s.len() == 0 {
        Seq::empty()
    } else {
        let rest = filter_ids(s.drop_last(), category, brand);
        if matches(s.last(), category, brand) {
            rest.push(s.last().id)
        } else {
            rest
        }
    }
}

/// What a search returns, given the cache before it: the cached sequence on
/// a hit (whatever the brand), else the filtered catalog.
pub open spec fn search_result(
    cache: Map<Seq<char>, Seq<u32>>,
    catalog: Seq<Product>,
    category: Seq<char>,
    brand: Option<Seq<char>>,
) -> SearchView {
    if cache.contains_key(category) {
        SearchView::Cached(cache[category])
    } else {
        let f = filter_ids(catalog, category, brand);
        if f.len() > 0 {
            SearchView::Found(f)
        } else {
            SearchView::NoMatch
        }
    }
}

/// The cache after a search: a miss with a non-empty result stores it under
/// the category; anything else leaves the cache as it was.
pub open spec fn cache_after(
    cache: Map<Seq<char>, Seq<u32>>,
    catalog: Seq<Product>,
    category: Seq<char>,
    brand: Option<Seq<char>>,
) -> Map<Seq<char>, Seq<u32>> {
    let f = filter_ids(catalog, category, brand);
    if !cache.contains_key(category) && f.len() > 0 {
        cache.insert(category, f)
    } else {
        cache
    }
}

/// Identifiers of the catalog's products of `category` (and of the brand,
/// when one is given), in catalog order.
pub fn filter_products(products: &Catalog, category: &str, brand_filter: Option<&str>) -> (r: Vec<
    u32,
>)
    ensures
        r@ == filter_ids(products@, category@, brand_view(brand_filter)),
{
    let values = products.values();
    let key = category.to_owned();
    let brand: Option<String> = match brand_filter {
        Some(b) => Some(b.to_owned()),
        None => None,
    };
    let ghost bv = brand_view(brand_filter);
    let mut r: Vec<u32> = Vec::new();
    let mut i: usize = 0;
    while i < values.len()
        invariant
            i <= values@.len(),
            values@ == products@,
            key@ == category@,
            match brand {
                Some(b) => bv == Some(b@),
                None => bv is None,
            },
            r@ == filter_ids(values@.take(i as int), category@, bv),
        decreases values@.len() - i,
    {
        let p = &values[i];
        let keep = if p.category == key {
            match &brand {
                Some(b) => p.brand == *b,
                None => true,
            }
        } else {
            false
        };
        proof {
            let t = values@.take(i as int + 1);
            assert(t.drop_last() =~= values@.take(i as int));
            assert(t.last() == *p);
            assert(keep == matches(*p, category@, bv));
        }
        if keep {
            r.push(p.id);
        }
        i = i + 1;
    }
    assert(values@.take(values@.len() as int) =~= values@);
    r
}

/// Searches the catalog by category and optional brand, memoising non-empty
/// results under the category alone. A cache hit returns the stored
/// sequence whatever the brand filter; an empty result is never stored.
pub fn search_with_cache(
    category: &str,
    brand_filter: Option<&str>,
    products: &Catalog,
    cache: &mut SearchCache,
) -> (r: SearchOutcome)
    ensures
        r@ == search_result(old(cache)@, products@, category@, brand_view(brand_filter)),
        final(cache)@ == cache_after(old(cache)@, products@, category@, brand_view(brand_filter)),
{
    match cache.get(category) {
        Some(v) => {
            let c = v.clone();
            assert(c@ =~= v@);
            return SearchOutcome::Cached(c);
        },
        None => {},
    }
    let found = filter_products(products, category, brand_filter);
    if found.len() > 0 {
        let stored = found.clone();
        assert(stored@ =~= found@);
        cache.insert(category, stored);
        SearchOutcome::Found(found)
    } else {
        SearchOutcome::NoMatch
    }
}

} // verus!
