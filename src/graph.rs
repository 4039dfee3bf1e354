use vstd::prelude::*;

use std::collections::HashMap;

verus! {

/// Static adjacency data: a product identifier maps to its related
/// identifiers, in the order of recommendation priority. Targets need not
/// exist in the catalog.
pub struct RecommendationGraph {
    edges: HashMap<u32, Vec<u32>>,
}

impl View for RecommendationGraph {
    type V = Map<u32, Seq<u32>>;

    closed spec fn view(&self) -> Map<u32, Seq<u32>> {
        Map::new(|k: u32| self.edges@.contains_key(k), |k: u32| self.edges@[k]@)
    }
}

impl RecommendationGraph {
    pub fn new() -> (r: RecommendationGraph)
        ensures
            r@ == Map::<u32, Seq<u32>>::empty(),
    {
        let r = RecommendationGraph { edges: HashMap::new() };
        assert(r@ =~= Map::<u32, Seq<u32>>::empty());
        r
    }

    /// Records `targets` as the related identifiers of `id`, replacing any
    /// earlier entry for `id`.
    pub fn insert(&mut self, id: u32, targets: Vec<u32>)
        ensures
            final(self)@ == old(self)@.insert(id, targets@),
    {
        let ghost t = targets@;
        self.edges.insert(id, targets);
        assert(self@ =~= old(self)@.insert(id, t));
    }

    /// The related identifiers of `id`, or `None` when the graph holds no
    /// entry for it (distinct from an entry with no targets).
    pub fn neighbors(&self, id: u32) -> (r: Option<&Vec<u32>>)
        ensures
            match r {
                Some(v) => self@.contains_key(id) && v@ == self@[id],
                None => !self@.contains_key(id),
            },
    {
        self.edges.get(&id)
    }
}

} // verus!
