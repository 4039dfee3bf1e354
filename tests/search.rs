use product_catalog::cache::SearchCache;
use product_catalog::catalog::Catalog;
use product_catalog::product::Product;
use product_catalog::search::{filter_products, search_with_cache, SearchOutcome};

fn smartphone_catalog() -> Catalog {
    let mut products = Catalog::new();
    products.insert(Product::new(101, "Smartphone", "Eletronicos", "TechBrand"));
    products
}

fn accessories_catalog() -> Catalog {
    let mut products = Catalog::new();
    products.insert(Product::new(101, "Capas de Celular", "Acessorios", "AccessoryCo"));
    products.insert(Product::new(102, "Carregador", "Acessorios", "X"));
    products
}

#[test]
fn test_search_with_cache_found() {
    let products = smartphone_catalog();
    let mut cache = SearchCache::new();

    search_with_cache("Eletronicos", Some("TechBrand"), &products, &mut cache);
    assert!(cache.get("Eletronicos").is_some());
}

#[test]
fn test_search_with_cache_not_found() {
    let products = smartphone_catalog();
    let mut cache = SearchCache::new();

    search_with_cache("Vestuário", None, &products, &mut cache);
    assert!(cache.get("Vestuário").is_none());
}

#[test]
fn brand_filter_keeps_only_that_brand() {
    let products = accessories_catalog();
    let mut cache = SearchCache::new();
    let r = search_with_cache("Acessorios", Some("AccessoryCo"), &products, &mut cache);
    assert!(matches!(&r, SearchOutcome::Found(v) if *v == vec![101]));
}

#[test]
fn no_brand_filter_keeps_catalog_order() {
    let products = accessories_catalog();
    let mut cache = SearchCache::new();
    let r = search_with_cache("Acessorios", None, &products, &mut cache);
    assert_eq!(r.into_ids(), vec![101, 102]);
    assert_eq!(cache.get("Acessorios"), Some(&vec![101, 102]));
}

#[test]
fn second_search_returns_cached_result_whatever_the_brand() {
    let products = accessories_catalog();
    let mut cache = SearchCache::new();
    let first = search_with_cache("Acessorios", Some("AccessoryCo"), &products, &mut cache);
    assert!(!first.is_cached());
    assert_eq!(first.into_ids(), vec![101]);
    assert_eq!(cache.get("Acessorios"), Some(&vec![101]));

    let second = search_with_cache("Acessorios", Some("X"), &products, &mut cache);
    assert!(second.is_cached());
    assert_eq!(second.into_ids(), vec![101]);

    let third = search_with_cache("Acessorios", None, &products, &mut cache);
    assert!(matches!(&third, SearchOutcome::Cached(v) if *v == vec![101]));
}

#[test]
fn empty_search_is_never_cached() {
    let products = accessories_catalog();
    let mut cache = SearchCache::new();
    for _ in 0..3 {
        let r = search_with_cache("Acessorios", Some("Nobody"), &products, &mut cache);
        assert!(matches!(r, SearchOutcome::NoMatch));
        assert!(!cache.contains("Acessorios"));
    }
    let r = search_with_cache("Acessorios", Some("X"), &products, &mut cache);
    assert!(matches!(&r, SearchOutcome::Found(v) if *v == vec![102]));
    assert!(cache.contains("Acessorios"));
}

#[test]
fn empty_catalog_finds_nothing() {
    let products = Catalog::new();
    let mut cache = SearchCache::new();
    let r = search_with_cache("Eletronicos", None, &products, &mut cache);
    assert!(matches!(r, SearchOutcome::NoMatch));
    assert_eq!(r.into_ids(), Vec::<u32>::new());
    assert!(cache.get("Eletronicos").is_none());
}

#[test]
fn category_match_is_exact() {
    let products = accessories_catalog();
    assert_eq!(filter_products(&products, "acessorios", None), Vec::<u32>::new());
    assert_eq!(filter_products(&products, "Acessorio", None), Vec::<u32>::new());
    assert_eq!(filter_products(&products, "Acessorios", Some("X")), vec![102]);
}

#[test]
fn other_categories_are_cached_separately() {
    let mut products = accessories_catalog();
    products.insert(Product::new(103, "Smartphone", "Eletronicos", "TechBrand"));
    let mut cache = SearchCache::new();
    search_with_cache("Acessorios", None, &products, &mut cache);
    let r = search_with_cache("Eletronicos", None, &products, &mut cache);
    assert!(matches!(&r, SearchOutcome::Found(v) if *v == vec![103]));
    assert_eq!(cache.get("Acessorios"), Some(&vec![101, 102]));
    assert_eq!(cache.get("Eletronicos"), Some(&vec![103]));
}

#[test]
fn cache_insert_replaces_an_entry() {
    let mut cache = SearchCache::new();
    cache.insert("Acessorios", vec![1, 2]);
    cache.insert("Eletronicos", vec![3]);
    cache.insert("Acessorios", vec![4]);
    assert_eq!(cache.get("Acessorios"), Some(&vec![4]));
    assert_eq!(cache.get("Eletronicos"), Some(&vec![3]));
    assert!(cache.get("Vestuário").is_none());
}
