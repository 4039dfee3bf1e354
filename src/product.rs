use vstd::prelude::*;

verus! {

/// A product record: immutable once created, owned by the catalog.
pub struct Product {
    pub id: u32,
    pub name: String,
    pub category: String,
    pub brand: String,
}

impl Product {
    pub fn new(id: u32, name: &str, category: &str, brand: &str) -> (r: Product)
        ensures
            r.id == id,
            r.name@ == name@,
            r.category@ == category@,
            r.brand@ == brand@,
    {
        Product {
            id,
            name: name.to_owned(),
            category: category.to_owned(),
            brand: brand.to_owned(),
        }
    }
}

} // verus!
