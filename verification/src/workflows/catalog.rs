//! Catalog browsing.
use vstd::prelude::*;

use crate::catalog::{Category, Product, ProductId};
use crate::errors::ProductError;
use crate::ports::ProductFilter;

verus! {

/// A product listing request: free-text search and a category by slug.
#[derive(Debug, Clone, Default)]
pub struct BrowseQuery {
    pub search: Option<String>,
    pub category_slug: Option<String>,
}

/// What browsing asks for next.
pub enum BrowseStep {
    /// Look the category up by its slug.
    FindCategory { slug: String },
    /// List the products that pass the filter.
    List { filter: ProductFilter },
    /// Answer with no products at all.
    NoProducts,
}

/// The first step of browsing: a category slug must be resolved first; without one
/// the listing is filtered by the search alone.
pub fn browse_start(query: &BrowseQuery) -> (step: BrowseStep)
    ensures
        match query.category_slug {
            Some(slug) => step matches BrowseStep::FindCategory { slug: s } && s@ == slug@,
            None => step matches BrowseStep::List { filter } && filter.category_id is None
                && crate::ports::same_search(filter.search, query.search),
        },
{
    match &query.category_slug {
        Some(slug) => BrowseStep::FindCategory { slug: slug.clone() },
        None => BrowseStep::List {
            filter: ProductFilter { search: query.search.clone(), category_id: None },
        },
    }
}

/// The step after the slug was looked up: an unknown slug yields no products rather
/// than an error (a stale link is not a broken site); a known one filters by it.
pub fn browse_after_lookup(query: &BrowseQuery, found: Option<Category>) -> (step: BrowseStep)
    ensures
        match found {
            Some(c) => step matches BrowseStep::List { filter } && filter.category_id == Some(c.id)
                && crate::ports::same_search(filter.search, query.search),
            None => step is NoProducts,
        },
{
    match found {
        Some(c) => BrowseStep::List {
            filter: ProductFilter { search: query.search.clone(), category_id: Some(c.id) },
        },
        None => BrowseStep::NoProducts,
    }
}

/// A product asked for by id: absence is `NotFound` for that id.
pub fn found_product(id: &ProductId, found: Option<Product>) -> (r: Result<Product, ProductError>)
    ensures
        match found {
            Some(p) => r == Ok::<Product, ProductError>(p),
            None => r == Err::<Product, ProductError>(ProductError::NotFound { product_id: *id }),
        },
{
    match found {
        Some(p) => Ok(p),
        None => Err(ProductError::NotFound { product_id: id.clone() }),
    }
}

} // verus!
