//! Cart mutation: each operation ends by re-reading and pricing the cart.
use vstd::prelude::*;

use crate::catalog::{Product, ProductId};
use crate::errors::CartError;

verus! {

/// Setting an item needs the product to exist; `found` is the product looked up by
/// `product_id`. Removing an item needs nothing: removing an absent item is a no-op.
pub fn require_product(product_id: &ProductId, found: &Option<Product>) -> (r: Result<(), CartError>)
    ensures
        found is Some ==> r is Ok,
        found is None ==> r == Err::<(), CartError>(CartError::ProductNotFound { product_id: *product_id }),
{
    match found {
        Some(_) => Ok(()),
        None => Err(CartError::ProductNotFound { product_id: product_id.clone() }),
    }
}

} // verus!
