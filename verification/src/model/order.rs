//! Order lines: what was ordered from whom, at what price, and until when
//! it is held.

use crate::constant::ProductType;
use crate::time::Timestamp;
use vstd::prelude::*;

verus! {

/// What identifies a product on sale: the store and the product in it.
#[derive(Debug, Clone, Copy, PartialEq, Eq, Hash, Structural)]
pub struct BaseProductIdentity {
    pub store_id: u32,
    pub product_type: ProductType,
    pub product_id: u64,
}

/// Price of an order line.
#[derive(Debug, Clone, Copy, PartialEq, Eq, Structural)]
pub struct OrderLinePriceModel {
    pub unit: u32,
    pub total: u64,
}

/// Quantities of an order line.
#[derive(Debug, Clone, Copy, PartialEq, Eq, Structural)]
pub struct OrderLineQuantityModel {
    pub reserved: u32,
    pub paid: u32,
    pub paid_last_update: Option<Timestamp>,
}

/// The policy that was applied to an order line when it was created.
#[derive(Debug, Clone, Copy, PartialEq, Eq, Structural)]
pub struct OrderLineAppliedPolicyModel {
    pub reserved_until: Timestamp,
    pub warranty_until: Timestamp,
}

/// One line of an order.
#[derive(Debug, Clone, Copy, PartialEq, Eq, Structural)]
pub struct OrderLineModel {
    pub id_: BaseProductIdentity,
    pub price: OrderLinePriceModel,
    pub qty: OrderLineQuantityModel,
    pub policy: OrderLineAppliedPolicyModel,
}

impl OrderLineModel {
    /// What holds of every order line: no more is paid than reserved, and
    /// the warranty does not end before the reservation.
    pub open spec fn wf(self) -> bool {
        &&& self.qty.paid <= self.qty.reserved
        &&& !self.policy.reserved_until.later_than(self.policy.warranty_until)
    }

    /// What holds of a line when it is created: nothing is paid yet and the
    /// total is the unit price times the quantity.
    pub open spec fn fresh(self) -> bool {
        &&& self.wf()
        &&& self.qty.paid == 0
        &&& self.qty.paid_last_update is None
        &&& self.price.total == self.price.unit * self.qty.reserved
    }
}

/// The lines of one order.
#[derive(Debug, Clone)]
pub struct OrderLineModelSet {
    pub order_id: String,
    pub lines: Vec<OrderLineModel>,
}

} // verus!
