//! An in-memory product catalog with cached category search and one-hop
//! recommendations over a static adjacency graph.

pub mod product;
pub mod catalog;
pub mod graph;
pub mod cache;
pub mod search;
pub mod recommend;
pub mod laws;
