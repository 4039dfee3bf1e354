use vstd::prelude::*;

use crate::catalog::has_id;
use crate::product::Product;
use crate::recommend::{present_ids, related_of};
use crate::search::{cache_after, filter_ids, search_result, SearchView};

verus! {

/// A first search of a category that finds matches stores them under the
/// category; a second search of that category, whatever its brand filter,
/// returns that same sequence from the cache and leaves the cache as it is.
pub proof fn lemma_second_search_hits_cache(
    cache: Map<Seq<char>, Seq<u32>>,
    catalog: Seq<Product>,
    category: Seq<char>,
    brand: Option<Seq<char>>,
    other_brand: Option<Seq<char>>,
)
    requires
        !cache.contains_key(category),
        filter_ids(catalog, category, brand).len() > 0,
    ensures
        ({
            let found = filter_ids(catalog, category, brand);
            let after = cache_after(cache, catalog, category, brand);
            &&& search_result(cache, catalog, category, brand) == SearchView::Found(found)
            &&& after.contains_key(category)
            &&& after[category] == found
            &&& search_result(after, catalog, category, other_brand) == SearchView::Cached(found)
            &&& cache_after(after, catalog, category, other_brand) == after
        }),
{
}

/// A search of a category that is not cached and finds nothing leaves the
/// cache unchanged, so repeating it finds nothing again and still leaves the
/// cache unchanged.
pub proof fn lemma_empty_search_not_cached(
    cache: Map<Seq<char>, Seq<u32>>,
    catalog: Seq<Product>,
    category: Seq<char>,
    brand: Option<Seq<char>>,
)
    requires
        !cache.contains_key(category),
        filter_ids(catalog, category, brand).len() == 0,
    ensures
        search_result(cache, catalog, category, brand) == SearchView::NoMatch,
        cache_after(cache, catalog, category, brand) == cache,
        search_result(cache_after(cache, catalog, category, brand), catalog, category, brand)
            == SearchView::NoMatch,
        cache_after(cache_after(cache, catalog, category, brand), catalog, category, brand)
            == cache,
{
}

/// When no identifier of `ids` is in the catalog, none is kept.
pub proof fn lemma_present_ids_none_present(catalog: Seq<Product>, ids: Seq<u32>)
    requires
        forall|i: int| 0 <= i < ids.len() ==> !has_id(catalog, #[trigger] ids[i]),
    ensures
        present_ids(catalog, ids) == Seq::<u32>::empty(),
    decreases ids.len(),
{
    if ids.len() > 0 {
        let t = ids.drop_last();
        assert forall|i: int| 0 <= i < t.len() implies !has_id(catalog, #[trigger] t[i]) by {
            assert(t[i] == ids[i]);
        }
        lemma_present_ids_none_present(catalog, t);
        assert(!has_id(catalog, ids[ids.len() - 1]));
    }
}

/// A graph entry whose targets are all absent from the catalog yields an
/// empty but present list of recommendations, not a missing entry.
pub proof fn lemma_dangling_targets_give_empty_list(
    catalog: Seq<Product>,
    graph: Map<u32, Seq<u32>>,
    id: u32,
)
    requires
        graph.contains_key(id),
        forall|i: int| 0 <= i < graph[id].len() ==> !has_id(catalog, #[trigger] graph[id][i]),
    ensures
        related_of(catalog, graph, id) == Some(Seq::<u32>::empty()),
{
    lemma_present_ids_none_present(catalog, graph[id]);
}

} // verus!
