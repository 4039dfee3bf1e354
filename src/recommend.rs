use vstd::prelude::*;

use crate::catalog::{has_id, lookup, Catalog};
use crate::graph::RecommendationGraph;
use crate::product::Product;

verus! {

/// Why a recommendation could not be produced.
#[derive(Debug, PartialEq, Eq, Structural)]
pub enum RecommendError {
    /// The base product is not in the catalog.
    NotFound(u32),
}

/// The recommendations for one base product. `related` is `None` when the
/// graph holds no entry for the product, and otherwise the entry's targets
/// that exist in the catalog, in graph order (possibly none).
pub struct Recommendations {
    pub base_name: String,
    pub related: Option<Vec<u32>>,
}

impl Recommendations {
    pub open spec fn related_view(&self) -> Option<Seq<u32>> {
        match self.related {
            Some(v) => Some(v@),
            None => None,
        }
    }
}

/// The identifiers of `ids` that the catalog holds, in the order of `ids`.
pub open spec fn present_ids(catalog: Seq<Product>, ids: Seq<u32>) -> Seq<u32>
    decreases ids.len(),
{
    if ids.len() == 0 {
        Seq::empty()
    } else {
        let rest = present_ids(catalog, ids.drop_last());
        if has_id(catalog, ids.last()) {
            rest.push(ids.last())
        } else {
            rest
        }
    }
}

/// The related identifiers of `id`: `None` without a graph entry, else the
/// entry's targets that resolve in the catalog.
pub open spec fn related_of(catalog: Seq<Product>, graph: Map<u32, Seq<u32>>, id: u32) -> Option<
    Seq<u32>,
> {
    if graph.contains_key(id) {
        Some(present_ids(catalog, graph[id]))
    } else {
        None
    }
}

/// Keeps the identifiers of `ids` that resolve in the catalog, in order.
pub fn resolve_ids(products: &Catalog, ids: &Vec<u32>) -> (r: Vec<u32>)
    ensures
        r@ == present_ids(products@, ids@),
{
    let mut r: Vec<u32> = Vec::new();
    let mut i: usize = 0;
    while i < ids.len()
        invariant
            i <= ids@.len(),
            r@ == present_ids(products@, ids@.take(i as int)),
        decreases ids@.len() - i,
    {
        let id = ids[i];
        let present = products.contains(id);
        proof {
            let t = ids@.take(i as int + 1);
            assert(t.drop_last() =~= ids@.take(i as int));
            assert(t.last() == id);
        }
        if present {
            r.push(id);
        }
        i = i + 1;
    }
    assert(ids@.take(ids@.len() as int) =~= ids@);
    r
}

/// One-hop recommendations for `product_id`. Fails with `NotFound` when the
/// base product is not in the catalog; otherwise distinguishes a missing
/// graph entry from an entry whose targets are all absent.
pub fn recommend_products(
    product_id: u32,
    products: &Catalog,
    recommendation_graph: &RecommendationGraph,
) -> (r: Result<Recommendations, RecommendError>)
    ensures
        match r {
            Ok(rec) => {
                &&& has_id(products@, product_id)
                &&& rec.base_name@ == lookup(products@, product_id).unwrap().name@
                &&& rec.related_view() == related_of(products@, recommendation_graph@, product_id)
            },
            Err(e) => !has_id(products@, product_id) && e == RecommendError::NotFound(product_id),
        },
{
    let base = match products.get(product_id) {
        Some(p) => p,
        None => {
            return Err(RecommendError::NotFound(product_id));
        },
    };
    let related = match recommendation_graph.neighbors(product_id) {
        Some(ids) => Some(resolve_ids(products, ids)),
        None => None,
    };
    Ok(Recommendations { base_name: base.name.clone(), related })
}

} // verus!
