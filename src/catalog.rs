use vstd::prelude::*;

use crate::product::Product;

verus! {

/// Whether some product in `s` carries the identifier `id`.
pub open spec fn has_id(s: Seq<Product>, id: u32) -> bool {
    exists|i: int| 0 <= i < s.len() && #[trigger] s[i].id == id
}

/// No two products in `s` share an identifier.
pub open spec fn unique_ids(s: Seq<Product>) -> bool {
    forall|i: int, j: int|
        0 <= i < s.len() && 0 <= j < s.len() && i != j ==> #[trigger] s[i].id != #[trigger] s[j].id
}

/// The first position holding identifier `id` (meaningful when `has_id(s, id)`).
pub open spec fn index_of(s: Seq<Product>, id: u32) -> int {
    choose|i: int|
        0 <= i < s.len() && #[trigger] s[i].id == id && forall|j: int| 0 <= j < i ==> s[j].id != id
}

/// The product with identifier `id`, if the catalog holds one.
pub open spec fn lookup(s: Seq<Product>, id: u32) -> Option<Product> {
    if has_id(s, id) {
        Some(s[index_of(s, id)])
    } else {
        None
    }
}

/// Mapping from identifier to product, kept in insertion order.
/// Each identifier occurs at most once.
pub struct Catalog {
    products: Vec<Product>,
}

impl View for Catalog {
    type V = Seq<Product>;

    closed spec fn view(&self) -> Seq<Product> {
        self.products@
    }
}

impl Catalog {
    /// Well-formed: each identifier occurs at most once.
    pub open spec fn wf(&self) -> bool {
        unique_ids(self@)
    }

    pub fn new() -> (r: Catalog)
        ensures
            r.wf(),
            r@ == Seq::<Product>::empty(),
    {
        Catalog { products: Vec::new() }
    }

    pub fn len(&self) -> (r: usize)
        ensures
            r == self@.len(),
    {
        self.products.len()
    }

    /// The products in catalog order.
    pub fn values(&self) -> (r: &Vec<Product>)
        ensures
            r@ == self@,
    {
        &self.products
    }

    /// Position of the product with identifier `id`, if any.
    fn position(&self, id: u32) -> (r: Option<usize>)
        ensures
            match r {
                Some(i) => i < self@.len() && self@[i as int].id == id && i == index_of(self@, id),
                None => !has_id(self@, id),
            },
    {
        let mut i: usize = 0;
        while i < self.products.len()
            invariant
                i <= self.products@.len(),
                forall|j: int| 0 <= j < i ==> #[trigger] self.products@[j].id != id,
            decreases self.products@.len() - i,
        {
            if self.products[i].id == id {
                proof {
                    assert(has_id(self@, id));
                    assert(0 <= i < self@.len() && self@[i as int].id == id && forall|j: int|
                        0 <= j < i ==> self@[j].id != id);
                    let k = index_of(self@, id);
                    assert(k == i);
                }
                return Some(i);
            }
            i = i + 1;
        }
        None
    }

    /// The product with identifier `id`, or `None` when the catalog has none.
    pub fn get(&self, id: u32) -> (r: Option<&Product>)
        ensures
            match r {
                Some(p) => lookup(self@, id) == Some(*p),
                None => lookup(self@, id) is None,
            },
    {
        match self.position(id) {
            Some(i) => Some(&self.products[i]),
            None => None,
        }
    }

    /// Whether the catalog holds a product with identifier `id`.
    pub fn contains(&self, id: u32) -> (r: bool)
        ensures
            r == has_id(self@, id),
    {
        self.position(id).is_some()
    }

    /// Adds `p`, replacing in place any product with the same identifier.
    pub fn insert(&mut self, p: Product)
        requires
            old(self).wf(),
        ensures
            final(self).wf(),
            has_id(old(self)@, p.id) ==> final(self)@ == old(self)@.update(index_of(old(self)@, p.id), p),
            !has_id(old(self)@, p.id) ==> final(self)@ == old(self)@.push(p),
    {
        let id = p.id;
        match self.position(id) {
            Some(i) => {
                self.products.set(i, p);
            },
            None => {
                self.products.push(p);
            },
        }
    }
}

} // verus!
