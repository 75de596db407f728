use ecommerce_core::constant::ProductType;
use ecommerce_core::error::AppErrorCode;
use ecommerce_core::model::order::{
    BaseProductIdentity, OrderLineAppliedPolicyModel, OrderLineModel, OrderLineModelSet,
    OrderLinePriceModel, OrderLineQuantityModel,
};
use ecommerce_core::model::stock::{
    ProductStockModel, StockLevelModelSet, StockLevelReturnDto, StockQuantityModel,
    StockReserveError, StockReturnError, StockReturnErrorReason, StockReturnItem, StoreStockModel,
};
use ecommerce_core::time::Timestamp;

fn ut_time(s: &str) -> Timestamp {
    Timestamp::parse_rfc3339(s).unwrap()
}

fn ut_bucket(type_: ProductType, id_: u64, expiry: &str, total: u32, cancelled: u32) -> ProductStockModel {
    ProductStockModel {
        type_,
        id_,
        expiry: ut_time(expiry),
        quantity: StockQuantityModel::new(total, cancelled, None).unwrap(),
        is_create: false,
    }
}

fn ut_line(store_id: u32, product_type: ProductType, product_id: u64, reserved: u32) -> OrderLineModel {
    OrderLineModel {
        id_: BaseProductIdentity { store_id, product_type, product_id },
        price: OrderLinePriceModel { unit: 4, total: 4 * reserved as u64 },
        qty: OrderLineQuantityModel { reserved, paid: 0, paid_last_update: None },
        policy: OrderLineAppliedPolicyModel {
            reserved_until: ut_time("3014-11-28T15:46:43-03:00"),
            warranty_until: ut_time("3015-11-29T15:02:32.056-03:00"),
        },
    }
}

fn ut_now() -> Timestamp {
    ut_time("2023-11-15T09:23:50+02:00")
}

fn ut_single_bucket_set() -> StockLevelModelSet {
    StockLevelModelSet {
        stores: vec![StoreStockModel {
            store_id: 1013,
            products: vec![ut_bucket(ProductType::Item, 9006, "3014-11-29T15:46:43-03:00", 20, 0)],
        }],
    }
}

fn ut_invariant_holds(set: &StockLevelModelSet) -> bool {
    set.stores.iter().all(|s| {
        s.products.iter().all(|p| {
            let reserved: u64 = p.quantity.reservation().iter().map(|e| e.1 as u64).sum();
            reserved + p.quantity.cancelled() as u64 <= p.quantity.total() as u64
        })
    })
}

#[test]
fn reserve_ok() {
    let mut set = ut_single_bucket_set();
    assert!(set.is_wf());
    let req = OrderLineModelSet {
        order_id: "800eff40".to_string(),
        lines: vec![ut_line(1013, ProductType::Item, 9006, 4)],
    };
    let errors = set.try_reserve(&req, ut_now());
    assert!(errors.is_empty());
    let q = &set.stores[0].products[0].quantity;
    assert_eq!(q.reserved_for("800eff40"), 4);
    assert_eq!(q.num_avail(), 16);
    assert_eq!(q.reserved(), 4);
    assert_eq!(q.total(), 20);
    assert_eq!(q.reservation(), &vec![("800eff40".to_string(), 4u32)]);
    assert!(set.is_wf());
    assert!(ut_invariant_holds(&set));
}

#[test]
fn reserve_insufficient() {
    let mut set = ut_single_bucket_set();
    let req = OrderLineModelSet {
        order_id: "800eff40".to_string(),
        lines: vec![ut_line(1013, ProductType::Item, 9006, 21)],
    };
    let errors = set.try_reserve(&req, ut_now());
    assert_eq!(
        errors,
        vec![StockReserveError::NotEnoughToClaim {
            pid: BaseProductIdentity {
                store_id: 1013,
                product_type: ProductType::Item,
                product_id: 9006
            },
            num_req: 21,
            num_avail: 20,
        }]
    );
    assert!(set.is_wf());
    assert!(ut_invariant_holds(&set));
}

#[test]
fn reserve_draws_from_nearest_expiry_first() {
    let mut set = StockLevelModelSet {
        stores: vec![
            StoreStockModel {
                store_id: 1014,
                products: vec![ut_bucket(ProductType::Item, 9006, "3014-11-29T15:46:43-03:00", 50, 0)],
            },
            StoreStockModel {
                store_id: 1013,
                products: vec![
                    ut_bucket(ProductType::Item, 9006, "3016-01-01T00:00:00+00:00", 10, 1),
                    ut_bucket(ProductType::Package, 9006, "3014-01-01T00:00:00+00:00", 10, 0),
                    ut_bucket(ProductType::Item, 9006, "3014-11-29T15:46:43-03:00", 5, 0),
                    ut_bucket(ProductType::Item, 9006, "3015-06-30T12:00:00+08:00", 7, 2),
                ],
            },
        ],
    };
    assert!(set.is_wf());
    let req = OrderLineModelSet {
        order_id: "0e927003716a".to_string(),
        lines: vec![ut_line(1013, ProductType::Item, 9006, 12)],
    };
    let errors = set.try_reserve(&req, ut_now());
    assert!(errors.is_empty());
    let ps = &set.stores[1].products;
    assert_eq!(ps[2].quantity.reserved_for("0e927003716a"), 5);
    assert_eq!(ps[3].quantity.reserved_for("0e927003716a"), 5);
    assert_eq!(ps[0].quantity.reserved_for("0e927003716a"), 2);
    assert_eq!(ps[1].quantity.reserved_for("0e927003716a"), 0);
    assert_eq!(ps[0].quantity.num_avail(), 7);
    assert_eq!(ps[1].quantity.num_avail(), 10);
    assert_eq!(ps[2].quantity.num_avail(), 0);
    assert_eq!(ps[3].quantity.num_avail(), 0);
    assert_eq!(set.stores[0].products[0].quantity.num_avail(), 50);
    assert!(ps[1].quantity.reservation().is_empty());
    assert!(ut_invariant_holds(&set));
}

#[test]
fn reserve_serves_lines_one_after_another() {
    let mut set = ut_single_bucket_set();
    let req = OrderLineModelSet {
        order_id: "a4190e9b4272".to_string(),
        lines: vec![
            ut_line(1013, ProductType::Item, 9006, 15),
            ut_line(1013, ProductType::Item, 9006, 6),
            ut_line(1013, ProductType::Package, 9006, 1),
            ut_line(77, ProductType::Item, 9006, 3),
            ut_line(77, ProductType::Item, 9006, 0),
        ],
    };
    let errors = set.try_reserve(&req, ut_now());
    let pid = |store_id, product_type| BaseProductIdentity { store_id, product_type, product_id: 9006 };
    assert_eq!(
        errors,
        vec![
            StockReserveError::NotEnoughToClaim { pid: pid(1013, ProductType::Item), num_req: 6, num_avail: 5 },
            StockReserveError::NotEnoughToClaim { pid: pid(1013, ProductType::Package), num_req: 1, num_avail: 0 },
            StockReserveError::NotEnoughToClaim { pid: pid(77, ProductType::Item), num_req: 3, num_avail: 0 },
        ]
    );
    let q = &set.stores[0].products[0].quantity;
    assert_eq!(q.reserved_for("a4190e9b4272"), 20);
    assert_eq!(q.num_avail(), 0);
    assert!(ut_invariant_holds(&set));
}

#[test]
fn reserve_adds_to_an_earlier_reservation_of_the_order() {
    let mut q = StockQuantityModel::new(
        30,
        3,
        Some(vec![("aa01".to_string(), 5), ("bb02".to_string(), 2)]),
    )
    .unwrap();
    assert_eq!(q.num_avail(), 20);
    assert_eq!(q.reserve("bb02", 4), 4);
    assert_eq!(q.reserve("cc03", 100), 16);
    assert_eq!(q.reserve("dd04", 1), 0);
    assert_eq!(
        q.reservation(),
        &vec![("aa01".to_string(), 5u32), ("bb02".to_string(), 6), ("cc03".to_string(), 16)]
    );
    assert_eq!(q.num_avail(), 0);
    assert_eq!(q.reserved(), 27);
    assert!(q.is_wf());
}

#[test]
fn quantities_that_break_the_invariant_are_refused() {
    let e = StockQuantityModel::new(10, 11, None).err().unwrap();
    assert_eq!(e.code, AppErrorCode::DataCorruption);
    assert!(StockQuantityModel::new(10, 10, None).is_ok());
    assert!(StockQuantityModel::new(10, 4, Some(vec![("a".to_string(), 6)])).is_ok());
    assert!(StockQuantityModel::new(10, 4, Some(vec![("a".to_string(), 7)])).is_err());
    assert!(StockQuantityModel::new(
        u32::MAX,
        0,
        Some(vec![("a".to_string(), u32::MAX), ("b".to_string(), 1)])
    )
    .is_err());
    assert!(StockQuantityModel::new(10, 0, Some(vec![("a".to_string(), 1), ("a".to_string(), 1)])).is_err());
    assert!(StockQuantityModel::new(0, 0, Some(vec![])).is_ok());
}

#[test]
fn return_gives_back_what_the_order_holds() {
    let mut q = StockQuantityModel::new(
        30,
        3,
        Some(vec![("aa01".to_string(), 5), ("bb02".to_string(), 2)]),
    )
    .unwrap();
    assert_eq!(q.try_return("aa01", 3), 3);
    assert_eq!(q.reserved_for("aa01"), 2);
    assert_eq!(q.try_return("aa01", 3), 2);
    assert_eq!(q.try_return("zz99", 1), 0);
    assert_eq!(q.num_avail(), 25);
    assert!(q.is_wf());
}

#[test]
fn return_across_buckets_of_the_product() {
    let mut set = StockLevelModelSet {
        stores: vec![StoreStockModel {
            store_id: 1013,
            products: vec![
                ut_bucket(ProductType::Item, 9006, "3016-01-01T00:00:00+00:00", 10, 0),
                ut_bucket(ProductType::Item, 9006, "3014-11-29T15:46:43-03:00", 5, 0),
                ut_bucket(ProductType::Item, 9007, "3014-11-29T15:46:43-03:00", 5, 0),
            ],
        }],
    };
    let req = OrderLineModelSet {
        order_id: "800eff40".to_string(),
        lines: vec![ut_line(1013, ProductType::Item, 9006, 8)],
    };
    assert!(set.try_reserve(&req, ut_now()).is_empty());
    let pid = |store_id, product_id| BaseProductIdentity {
        store_id,
        product_type: ProductType::Item,
        product_id,
    };
    let data = StockLevelReturnDto {
        order_id: "800eff40".to_string(),
        items: vec![
            StockReturnItem { pid: pid(1013, 9006), qty: 6 },
            StockReturnItem { pid: pid(1013, 9006), qty: 3 },
            StockReturnItem { pid: pid(1013, 4444), qty: 1 },
            StockReturnItem { pid: pid(2000, 9006), qty: 1 },
            StockReturnItem { pid: pid(1013, 9007), qty: 0 },
        ],
    };
    let errors = set.return_across_warehouses(&data);
    assert_eq!(
        errors,
        vec![
            StockReturnError { pid: pid(1013, 9006), reason: StockReturnErrorReason::InvalidQuantity },
            StockReturnError { pid: pid(1013, 4444), reason: StockReturnErrorReason::NotExist },
            StockReturnError { pid: pid(2000, 9006), reason: StockReturnErrorReason::NotExist },
        ]
    );
    let ps = &set.stores[0].products;
    assert_eq!(ps[0].quantity.reserved_for("800eff40"), 0);
    assert_eq!(ps[1].quantity.reserved_for("800eff40"), 0);
    assert_eq!(ps[0].quantity.num_avail(), 10);
    assert_eq!(ps[1].quantity.num_avail(), 5);
    assert!(ut_invariant_holds(&set));
}

#[test]
fn sets_with_a_bucket_twice_are_not_well_formed() {
    let mut set = ut_single_bucket_set();
    set.stores[0]
        .products
        .push(ut_bucket(ProductType::Item, 9006, "3014-11-29T15:46:43.500-03:00", 3, 0));
    assert!(!set.is_wf());
    set.stores[0].products[1].id_ = 9007;
    assert!(set.is_wf());
    set.stores.push(StoreStockModel { store_id: 1013, products: vec![] });
    assert!(!set.is_wf());
}

#[test]
fn reserve_never_draws_from_expired_buckets() {
    let mut set = StockLevelModelSet {
        stores: vec![StoreStockModel {
            store_id: 1013,
            products: vec![
                ut_bucket(ProductType::Item, 9006, "2023-11-15T09:23:49+02:00", 10, 0),
                ut_bucket(ProductType::Item, 9006, "2023-11-15T09:23:50+02:00", 10, 0),
                ut_bucket(ProductType::Item, 9006, "2023-11-15T09:23:51+02:00", 3, 0),
                ut_bucket(ProductType::Item, 9006, "2023-11-15T08:23:52+01:00", 4, 0),
            ],
        }],
    };
    let req = OrderLineModelSet {
        order_id: "800eff40".to_string(),
        lines: vec![ut_line(1013, ProductType::Item, 9006, 8)],
    };
    let errors = set.try_reserve(&req, ut_now());
    assert_eq!(
        errors,
        vec![StockReserveError::NotEnoughToClaim {
            pid: BaseProductIdentity { store_id: 1013, product_type: ProductType::Item, product_id: 9006 },
            num_req: 8,
            num_avail: 7,
        }]
    );
    let ps = &set.stores[0].products;
    assert_eq!(ps[0].quantity.num_avail(), 10);
    assert_eq!(ps[1].quantity.num_avail(), 10);
    assert_eq!(ps[2].quantity.reserved_for("800eff40"), 3);
    assert_eq!(ps[3].quantity.reserved_for("800eff40"), 4);
    assert_eq!(set.stores[0].num_avail(ProductType::Item, 9006, ut_now()), 0);
    assert_eq!(set.stores[0].num_avail(ProductType::Item, 9006, ut_time("2023-11-15T09:23:48+02:00")), 20);
}
