//! Policies of products: how long a reservation is held and how long the
//! warranty lasts.

use crate::constant::ProductType;
use vstd::prelude::*;

verus! {

/// The policy of a product.
#[derive(Debug, Clone, Copy, PartialEq, Eq, Structural)]
pub struct ProductPolicyModel {
    pub product_type: ProductType,
    pub product_id: u64,
    pub auto_cancel_secs: u32,
    pub warranty_hours: u32,
    pub is_create: bool,
}

/// The policies of some products.
#[derive(Debug, Clone)]
pub struct ProductPolicyModelSet {
    pub policies: Vec<ProductPolicyModel>,
}

} // verus!
