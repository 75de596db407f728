//! Prices of products, each valid for a span of time.

use crate::constant::ProductType;
use crate::time::Timestamp;
use vstd::prelude::*;

verus! {

/// The price of a product, valid from `start_after` to `end_before`.
#[derive(Debug, Clone, Copy, PartialEq, Eq, Structural)]
pub struct ProductPriceModel {
    pub is_create: bool,
    pub product_type: ProductType,
    pub product_id: u64,
    pub price: u32,
    pub start_after: Timestamp,
    pub end_before: Timestamp,
}

/// The prices of the products of one store.
#[derive(Debug, Clone)]
pub struct ProductPriceModelSet {
    pub store_id: u32,
    pub items: Vec<ProductPriceModel>,
}

impl ProductPriceModel {
    /// Whether the price is valid at `t`: not before its start and not
    /// after its end.
    pub open spec fn valid_at(self, t: Timestamp) -> bool {
        !self.start_after.later_than(t) && !t.later_than(self.end_before)
    }

    /// Whether the price is valid at `t`.
    pub fn is_valid_at(&self, t: &Timestamp) -> (r: bool)
        ensures
            r == self.valid_at(*t),
    {
        !self.start_after.is_after(t) && !t.is_after(&self.end_before)
    }
}

} // verus!
