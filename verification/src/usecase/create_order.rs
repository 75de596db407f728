//! Creation of orders: the requested lines are held against the policies
//! and the prices of their products.

use crate::constant::ProductType;
use crate::error::AppError;
use crate::model::order::{
    BaseProductIdentity, OrderLineAppliedPolicyModel, OrderLineModel, OrderLinePriceModel,
    OrderLineQuantityModel,
};
use crate::model::product_policy::{ProductPolicyModel, ProductPolicyModelSet};
use crate::model::product_price::{ProductPriceModel, ProductPriceModelSet};
use crate::model::stock::StockReserveError;
use crate::time::Timestamp;
use vstd::prelude::*;

verus! {

/// One requested line of an order.
#[derive(Debug, Clone, Copy, PartialEq, Eq, Structural)]
pub struct OrderLineReqDto {
    pub seller_id: u32,
    pub product_type: ProductType,
    pub product_id: u64,
    pub quantity: u32,
}

/// What a requested line lacks.
#[derive(Debug, Clone, Copy, PartialEq, Eq, Structural)]
pub struct OrderLineErrorNonExistDto {
    pub product_policy: bool,
    pub product_price: bool,
}

/// How far the stock falls short of a requested line.
#[derive(Debug, Clone, Copy, PartialEq, Eq, Structural)]
pub struct OrderLineErrorShortageDto {
    pub num_req: u32,
    pub num_avail: u32,
}

/// A requested line that cannot be ordered, and why: it lacks policy or
/// price, or the stock falls short of it.
#[derive(Debug, Clone, Copy, PartialEq, Eq, Structural)]
pub struct OrderLineCreateErrorDto {
    pub seller_id: u32,
    pub product_type: ProductType,
    pub product_id: u64,
    pub nonexist: Option<OrderLineErrorNonExistDto>,
    pub shortage: Option<OrderLineErrorShortageDto>,
}

/// What is wrong with a request to create an order.
#[derive(Debug, Clone, PartialEq, Eq)]
pub struct OrderCreateRespErrorDto {
    pub order_lines: Option<Vec<OrderLineCreateErrorDto>>,
}

/// Why an order could not be created: the request is at fault, or the
/// service is.
#[derive(Debug, Clone, PartialEq, Eq)]
pub enum CreateOrderUsKsErr {
    Client(OrderCreateRespErrorDto),
    Server,
}

/// Position of the first policy of product `(type_, id_)`, or the number
/// of policies if there is none.
pub open spec fn policy_position(
    policies: Seq<ProductPolicyModel>,
    type_: ProductType,
    id_: u64,
) -> int
    decreases policies.len(),
{
    if policies.len() == 0 {
        0
    } else if policies[0].product_type == type_ && policies[0].product_id == id_ {
        0
    } else {
        1 + policy_position(policies.drop_first(), type_, id_)
    }
}

/// The policy of product `(type_, id_)`, if there is one.
pub open spec fn policy_of(
    policies: Seq<ProductPolicyModel>,
    type_: ProductType,
    id_: u64,
) -> Option<ProductPolicyModel> {
    let at = policy_position(policies, type_, id_);
    if 0 <= at < policies.len() {
        Some(policies[at])
    } else {
        None
    }
}

/// The first price among the first `upto` of a store that is for product
/// `(type_, id_)` and valid at `now`.
pub open spec fn price_in_store(
    items: Seq<ProductPriceModel>,
    type_: ProductType,
    id_: u64,
    now: Timestamp,
    upto: int,
) -> Option<ProductPriceModel>
    decreases upto,
{
    if upto <= 0 {
        None
    } else {
        match price_in_store(items, type_, id_, now, upto - 1) {
            Some(p) => Some(p),
            None => {
                let p = items[upto - 1];
                if p.product_type == type_ && p.product_id == id_ && p.valid_at(now) {
                    Some(p)
                } else {
                    None
                }
            },
        }
    }
}

/// The first price among the first `upto` sets that is of seller
/// `seller_id`, for product `(type_, id_)`, and valid at `now`.
pub open spec fn price_of(
    sets: Seq<ProductPriceModelSet>,
    seller_id: u32,
    type_: ProductType,
    id_: u64,
    now: Timestamp,
    upto: int,
) -> Option<ProductPriceModel>
    decreases upto,
{
    if upto <= 0 {
        None
    } else {
        match price_of(sets, seller_id, type_, id_, now, upto - 1) {
            Some(p) => Some(p),
            None => {
                let s = sets[upto - 1];
                if s.store_id == seller_id {
                    price_in_store(s.items@, type_, id_, now, s.items@.len() as int)
                } else {
                    None
                }
            },
        }
    }
}

/// The instant `n` seconds after `t`, or the last instant that can be
/// held if that is earlier.
pub open spec fn later_by(t: Timestamp, n: nat) -> Timestamp {
    if t.secs + n <= i64::MAX {
        Timestamp { secs: (t.secs + n) as i64, nanos: t.nanos, offset: t.offset }
    } else {
        Timestamp { secs: i64::MAX, nanos: t.nanos, offset: t.offset }
    }
}

/// The order line that a requested line becomes under a policy and a
/// price: the unit price is the price, the total is the unit price times
/// the quantity, the reservation is held for the seconds of the policy and
/// the warranty lasts for its hours, both from `now`.
pub open spec fn line_created(
    d: OrderLineReqDto,
    policy: ProductPolicyModel,
    price: ProductPriceModel,
    now: Timestamp,
) -> OrderLineModel {
    OrderLineModel {
        id_: BaseProductIdentity {
            store_id: d.seller_id,
            product_type: d.product_type,
            product_id: d.product_id,
        },
        price: OrderLinePriceModel {
            unit: price.price,
            total: (price.price as nat * d.quantity as nat) as u64,
        },
        qty: OrderLineQuantityModel { reserved: d.quantity, paid: 0, paid_last_update: None },
        policy: OrderLineAppliedPolicyModel {
            reserved_until: later_by(now, policy.auto_cancel_secs as nat),
            warranty_until: later_by(now, policy.warranty_hours as nat * 3600),
        },
    }
}

/// What a requested line comes to: an order line, or what it lacks.
pub open spec fn line_validated(
    policies: Seq<ProductPolicyModel>,
    prices: Seq<ProductPriceModelSet>,
    d: OrderLineReqDto,
    now: Timestamp,
) -> Result<OrderLineModel, OrderLineCreateErrorDto> {
    let policy = policy_of(policies, d.product_type, d.product_id);
    let price = price_of(
        prices,
        d.seller_id,
        d.product_type,
        d.product_id,
        now,
        prices.len() as int,
    );
    match (policy, price) {
        (Some(policy), Some(price)) => Ok(line_created(d, policy, price, now)),
        _ => Err(
            OrderLineCreateErrorDto {
                seller_id: d.seller_id,
                product_type: d.product_type,
                product_id: d.product_id,
                nonexist: Some(
                    OrderLineErrorNonExistDto {
                        product_policy: policy is None,
                        product_price: price is None,
                    },
                ),
                shortage: None,
            },
        ),
    }
}

/// The order lines of the first `upto` requested lines, those left out
/// that lack policy or price.
pub open spec fn lines_validated(
    policies: Seq<ProductPolicyModel>,
    prices: Seq<ProductPriceModelSet>,
    data: Seq<OrderLineReqDto>,
    now: Timestamp,
    upto: int,
) -> Seq<OrderLineModel>
    decreases upto,
{
    if upto <= 0 {
        Seq::empty()
    } else {
        let before = lines_validated(policies, prices, data, now, upto - 1);
        match line_validated(policies, prices, data[upto - 1], now) {
            Ok(line) => before.push(line),
            Err(_) => before,
        }
    }
}

/// What the first `upto` requested lines lack, line by line.
pub open spec fn lines_refused(
    policies: Seq<ProductPolicyModel>,
    prices: Seq<ProductPriceModelSet>,
    data: Seq<OrderLineReqDto>,
    now: Timestamp,
    upto: int,
) -> Seq<OrderLineCreateErrorDto>
    decreases upto,
{
    if upto <= 0 {
        Seq::empty()
    } else {
        let before = lines_refused(policies, prices, data, now, upto - 1);
        match line_validated(policies, prices, data[upto - 1], now) {
            Ok(_) => before,
            Err(e) => before.push(e),
        }
    }
}

/// Where the first policy of a product is known, `policy_position` gives
/// it.
pub proof fn lemma_policy_position(
    policies: Seq<ProductPolicyModel>,
    type_: ProductType,
    id_: u64,
    at: int,
)
    requires
        0 <= at <= policies.len(),
        at < policies.len() ==> policies[at].product_type == type_ && policies[at].product_id
            == id_,
        forall|k: int|
            0 <= k < at ==> !((#[trigger] policies[k]).product_type == type_
                && policies[k].product_id == id_),
    ensures
        policy_position(policies, type_, id_) == at,
    decreases policies.len(),
{
    if policies.len() > 0 && at > 0 {
        let rest = policies.drop_first();
        lemma_policy_position(rest, type_, id_, at - 1);
    }
}

/// Every order line that validation makes is as a line is at creation:
/// nothing is paid and the total is the unit price times the quantity.  It
/// keeps the invariant of order lines where the warranty of the policy
/// lasts at least as long as its reservation.
pub proof fn lemma_created_line_is_fresh(
    d: OrderLineReqDto,
    policy: ProductPolicyModel,
    price: ProductPriceModel,
    now: Timestamp,
)
    ensures
        line_created(d, policy, price, now).qty.paid == 0,
        line_created(d, policy, price, now).price.total == price.price * d.quantity,
        policy.warranty_hours * 3600 >= policy.auto_cancel_secs ==> line_created(
            d,
            policy,
            price,
            now,
        ).fresh(),
{
    assert(price.price as nat * d.quantity as nat <= u64::MAX) by (nonlinear_arith)
        requires
            price.price <= u32::MAX,
            d.quantity <= u32::MAX,
    ;
}

fn add_secs(t: &Timestamp, n: u64) -> (r: Timestamp)
    ensures
        r == later_by(*t, n as nat),
{
    match t.add_seconds(n) {
        Some(v) => v,
        None => Timestamp { secs: i64::MAX, nanos: t.nanos, offset: t.offset },
    }
}

/// The use case of creating an order.
#[derive(Debug, Clone, Copy)]
pub struct CreateOrderUseCase;

impl CreateOrderUseCase {
    /// The policy of product `(type_, id_)`.
    pub fn find_policy(ms_policy: &ProductPolicyModelSet, type_: ProductType, id_: u64) -> (r:
        Option<ProductPolicyModel>)
        ensures
            r == policy_of(ms_policy.policies@, type_, id_),
    {
        let ps = &ms_policy.policies;
        let mut i: usize = 0;
        while i < ps.len()
            invariant
                i <= ps.len(),
                ps == &ms_policy.policies,
                forall|k: int|
                    0 <= k < i ==> !((#[trigger] ps@[k]).product_type == type_ && ps@[k].product_id
                        == id_),
            decreases ps.len() - i,
        {
            if ps[i].product_type == type_ && ps[i].product_id == id_ {
                proof {
                    lemma_policy_position(ps@, type_, id_, i as int);
                }
                return Some(ps[i]);
            }
            i += 1;
        }
        proof {
            lemma_policy_position(ps@, type_, id_, ps.len() as int);
        }
        None
    }

    /// The price of product `(type_, id_)` at seller `seller_id` that is
    /// valid at `now`.
    pub fn find_price(
        ms_price: &Vec<ProductPriceModelSet>,
        seller_id: u32,
        type_: ProductType,
        id_: u64,
        now: &Timestamp,
    ) -> (r: Option<ProductPriceModel>)
        ensures
            r == price_of(ms_price@, seller_id, type_, id_, *now, ms_price.len() as int),
    {
        let mut found: Option<ProductPriceModel> = None;
        let mut s: usize = 0;
        while s < ms_price.len()
            invariant
                s <= ms_price.len(),
                found == price_of(ms_price@, seller_id, type_, id_, *now, s as int),
            decreases ms_price.len() - s,
        {
            if found.is_none() && ms_price[s].store_id == seller_id {
                let items = &ms_price[s].items;
                let mut i: usize = 0;
                while i < items.len()
                    invariant
                        i <= items.len(),
                        s < ms_price.len(),
                        items == &ms_price[s as int].items,
                        found == price_in_store(items@, type_, id_, *now, i as int),
                    decreases items.len() - i,
                {
                    let p = items[i];
                    if found.is_none() && p.product_type == type_ && p.product_id == id_
                        && p.is_valid_at(now) {
                        found = Some(p);
                    }
                    i += 1;
                }
            }
            s += 1;
        }
        found
    }

    /// Holds the requested lines against policies and prices.
    ///
    /// Each line needs a policy of its product and a price of its product
    /// at its seller that is valid at `now`.  Where every line has both,
    /// the order lines are returned in the order of the request.  Otherwise
    /// the request is refused with one entry for each line that lacks
    /// something, which says what it lacks.
    pub fn validate_orderline(
        ms_policy: ProductPolicyModelSet,
        ms_price: Vec<ProductPriceModelSet>,
        data: Vec<OrderLineReqDto>,
        now: Timestamp,
    ) -> (r: Result<Vec<OrderLineModel>, CreateOrderUsKsErr>)
        ensures
            match r {
                Ok(lines) => lines_refused(
                    ms_policy.policies@,
                    ms_price@,
                    data@,
                    now,
                    data.len() as int,
                ).len() == 0 && lines@ == lines_validated(
                    ms_policy.policies@,
                    ms_price@,
                    data@,
                    now,
                    data.len() as int,
                ),
                Err(e) => e matches CreateOrderUsKsErr::Client(
                    OrderCreateRespErrorDto { order_lines: Some(errors) },
                ) && errors@.len() > 0 && errors@ == lines_refused(
                    ms_policy.policies@,
                    ms_price@,
                    data@,
                    now,
                    data.len() as int,
                ),
            },
    {
        let mut lines: Vec<OrderLineModel> = Vec::new();
        let mut errors: Vec<OrderLineCreateErrorDto> = Vec::new();
        let mut i: usize = 0;
        while i < data.len()
            invariant
                i <= data.len(),
                lines@ == lines_validated(ms_policy.policies@, ms_price@, data@, now, i as int),
                errors@ == lines_refused(ms_policy.policies@, ms_price@, data@, now, i as int),
            decreases data.len() - i,
        {
            let d = data[i];
            let policy = Self::find_policy(&ms_policy, d.product_type, d.product_id);
            let price = Self::find_price(&ms_price, d.seller_id, d.product_type, d.product_id, &now);
            match (policy, price) {
                (Some(policy), Some(price)) => {
                    assert(price.price as nat * d.quantity as nat <= u64::MAX) by (nonlinear_arith)
                        requires
                            price.price <= u32::MAX,
                            d.quantity <= u32::MAX,
                    ;
                    let line = OrderLineModel {
                        id_: BaseProductIdentity {
                            store_id: d.seller_id,
                            product_type: d.product_type,
                            product_id: d.product_id,
                        },
                        price: OrderLinePriceModel {
                            unit: price.price,
                            total: (price.price as u64) * (d.quantity as u64),
                        },
                        qty: OrderLineQuantityModel {
                            reserved: d.quantity,
                            paid: 0,
                            paid_last_update: None,
                        },
                        policy: OrderLineAppliedPolicyModel {
                            reserved_until: add_secs(&now, policy.auto_cancel_secs as u64),
                            warranty_until: add_secs(&now, (policy.warranty_hours as u64) * 3600),
                        },
                    };
                    lines.push(line);
                },
                _ => {
                    errors.push(
                        OrderLineCreateErrorDto {
                            seller_id: d.seller_id,
                            product_type: d.product_type,
                            product_id: d.product_id,
                            nonexist: Some(
                                OrderLineErrorNonExistDto {
                                    product_policy: policy.is_none(),
                                    product_price: price.is_none(),
                                },
                            ),
                            shortage: None,
                        },
                    );
                },
            }
            i += 1;
        }
        if errors.len() == 0 {
            Ok(lines)
        } else {
            Err(CreateOrderUsKsErr::Client(OrderCreateRespErrorDto { order_lines: Some(errors) }))
        }
    }
}

/// How a shortage of stock is told to the client.
pub open spec fn shortage_told(e: StockReserveError) -> OrderLineCreateErrorDto {
    match e {
        StockReserveError::NotEnoughToClaim { pid, num_req, num_avail } => OrderLineCreateErrorDto {
            seller_id: pid.store_id,
            product_type: pid.product_type,
            product_id: pid.product_id,
            nonexist: None,
            shortage: Some(OrderLineErrorShortageDto { num_req, num_avail }),
        },
    }
}

/// How shortages of stock are told to the client, one after another.
pub open spec fn shortages_told(short: Seq<StockReserveError>) -> Seq<OrderLineCreateErrorDto> {
    Seq::new(short.len(), |i: int| shortage_told(short[i]))
}

impl CreateOrderUseCase {
    /// What the creation of an order comes to once stock was reserved for
    /// its lines: it goes on where all was reserved; shortages are the fault
    /// of the request and are told line by line; a failure of the
    /// repository is the fault of the service.
    pub fn reserved(outcome: Result<(), Result<Vec<StockReserveError>, AppError>>) -> (r: Result<
        (),
        CreateOrderUsKsErr,
    >)
        ensures
            match outcome {
                Ok(_) => r is Ok,
                Err(Ok(short)) => r matches Err(
                    CreateOrderUsKsErr::Client(OrderCreateRespErrorDto { order_lines: Some(errors) }),
                ) && errors@ == shortages_told(short@),
                Err(Err(_)) => r == Err::<(), CreateOrderUsKsErr>(CreateOrderUsKsErr::Server),
            },
    {
        match outcome {
            Ok(_) => Ok(()),
            Err(Err(_)) => Err(CreateOrderUsKsErr::Server),
            Err(Ok(short)) => {
                let mut errors: Vec<OrderLineCreateErrorDto> = Vec::new();
                let mut i: usize = 0;
                while i < short.len()
                    invariant
                        i <= short.len(),
                        errors@ == shortages_told(short@.subrange(0, i as int)),
                    decreases short.len() - i,
                {
                    match short[i] {
                        StockReserveError::NotEnoughToClaim { pid, num_req, num_avail } => {
                            errors.push(
                                OrderLineCreateErrorDto {
                                    seller_id: pid.store_id,
                                    product_type: pid.product_type,
                                    product_id: pid.product_id,
                                    nonexist: None,
                                    shortage: Some(OrderLineErrorShortageDto { num_req, num_avail }),
                                },
                            );
                        },
                    }
                    i += 1;
                }
                Err(
                    CreateOrderUsKsErr::Client(
                        OrderCreateRespErrorDto { order_lines: Some(errors) },
                    ),
                )
            },
        }
    }

    /// What the creation of an order comes to once the order and its
    /// contacts were stored: the identifier of the order, or a fault of the
    /// service.
    pub fn persisted(order_id: String, saved: Result<(), AppError>) -> (r: Result<
        String,
        CreateOrderUsKsErr,
    >)
        ensures
            match saved {
                Ok(_) => r == Ok::<String, CreateOrderUsKsErr>(order_id),
                Err(_) => r == Err::<String, CreateOrderUsKsErr>(CreateOrderUsKsErr::Server),
            },
    {
        match saved {
            Ok(_) => Ok(order_id),
            Err(_) => Err(CreateOrderUsKsErr::Server),
        }
    }
}

} // verus!
