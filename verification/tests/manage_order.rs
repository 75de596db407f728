use ecommerce_core::constant::ProductType;
use ecommerce_core::error::{AppError, AppErrorCode};
use ecommerce_core::model::contact::{ContactModel, PhoneNumberModel, ShippingMethod, ShippingModel, ShippingOptionModel};
use ecommerce_core::model::order::{
    BaseProductIdentity, OrderLineAppliedPolicyModel, OrderLineModel, OrderLineModelSet,
    OrderLinePriceModel, OrderLineQuantityModel,
};
use ecommerce_core::model::product_policy::{ProductPolicyModel, ProductPolicyModelSet};
use ecommerce_core::model::product_price::{ProductPriceModel, ProductPriceModelSet};
use ecommerce_core::model::stock::{
    StockReserveError, StockReturnError, StockReturnErrorReason, StockReturnItem,
};
use ecommerce_core::time::Timestamp;
use ecommerce_core::usecase::create_order::{
    CreateOrderUsKsErr, CreateOrderUseCase, OrderLineErrorShortageDto, OrderLineReqDto,
};
use ecommerce_core::usecase::discard_unpaid::OrderDiscardUnpaidItemsUseCase;

fn ut_time(s: &str) -> Timestamp {
    Timestamp::parse_rfc3339(s).unwrap()
}

fn ut_setup_prod_policies() -> ProductPolicyModelSet {
    ProductPolicyModelSet {
        policies: vec![
            ProductPolicyModel {
                product_type: ProductType::Package,
                product_id: 168,
                warranty_hours: 127,
                auto_cancel_secs: 1008,
                is_create: false,
            },
            ProductPolicyModel {
                product_type: ProductType::Item,
                product_id: 168,
                warranty_hours: 20000,
                auto_cancel_secs: 1250,
                is_create: false,
            },
            ProductPolicyModel {
                product_type: ProductType::Package,
                product_id: 174,
                warranty_hours: 30000,
                auto_cancel_secs: 2255,
                is_create: false,
            },
        ],
    }
}

fn ut_price(product_type: ProductType, product_id: u64, start_after: &str, end_before: &str, price: u32) -> ProductPriceModel {
    ProductPriceModel {
        product_type,
        product_id,
        start_after: ut_time(start_after),
        end_before: ut_time(end_before),
        is_create: false,
        price,
    }
}

fn ut_setup_prod_prices() -> Vec<ProductPriceModelSet> {
    vec![
        ProductPriceModelSet {
            store_id: 51,
            items: vec![
                ut_price(ProductType::Item, 168, "2023-07-31T10:16:54+05:00", "2023-10-10T09:01:31+02:00", 510),
                ut_price(ProductType::Package, 168, "2023-07-31T10:16:54+05:00", "2023-10-10T09:01:31+02:00", 1130),
            ],
        },
        ProductPriceModelSet {
            store_id: 52,
            items: vec![
                ut_price(ProductType::Item, 168, "2023-07-31T11:29:04+02:00", "2023-08-30T09:01:31-08:00", 480),
                ut_price(ProductType::Package, 900, "2023-05-01T21:49:04+02:00", "2023-07-31T09:01:55-10:00", 490),
                ut_price(ProductType::Item, 901, "2023-05-01T21:49:04+02:00", "2023-07-31T09:01:55-10:00", 399),
            ],
        },
    ]
}

fn ut_now() -> Timestamp {
    ut_time("2023-07-31T12:00:00+02:00")
}

#[test]
fn validate_orderline_ok() {
    let ms_policy = ut_setup_prod_policies();
    let ms_price = ut_setup_prod_prices();
    let data = vec![
        OrderLineReqDto { seller_id: 52, product_type: ProductType::Item, product_id: 168, quantity: 6 },
        OrderLineReqDto { seller_id: 51, product_type: ProductType::Package, product_id: 168, quantity: 1 },
        OrderLineReqDto { seller_id: 51, product_type: ProductType::Item, product_id: 168, quantity: 10 },
    ];
    let result = CreateOrderUseCase::validate_orderline(ms_policy, ms_price, data, ut_now());
    assert!(result.is_ok());
    if let Ok(v) = result {
        assert_eq!(v.len(), 3);
        let found = v.iter().any(|m| {
            m.id_.store_id == 52 && m.id_.product_type == ProductType::Item && m.id_.product_id == 168
        });
        assert!(found);
        let found = v.iter().any(|m| {
            m.id_.store_id == 51 && m.id_.product_type == ProductType::Item && m.id_.product_id == 168
        });
        assert!(found);
        let found = v.iter().any(|m| {
            m.id_.store_id == 51 && m.id_.product_type == ProductType::Package && m.id_.product_id == 168
        });
        assert!(found);
        assert_eq!(v[0].price, OrderLinePriceModel { unit: 480, total: 2880 });
        assert_eq!(v[1].price, OrderLinePriceModel { unit: 1130, total: 1130 });
        assert_eq!(v[2].price, OrderLinePriceModel { unit: 510, total: 5100 });
        assert_eq!(v[0].qty, OrderLineQuantityModel { reserved: 6, paid: 0, paid_last_update: None });
        assert_eq!(v[0].policy.reserved_until, ut_time("2023-07-31T12:20:50+02:00"));
        assert_eq!(v[0].policy.warranty_until.secs, ut_now().secs + 20000 * 3600);
        assert_eq!(v[1].policy.reserved_until, ut_time("2023-07-31T12:16:48+02:00"));
        assert_eq!(v[1].policy.warranty_until, ut_time("2023-08-05T19:00:00+02:00"));
    }
}

#[test]
fn validate_orderline_missing_properties() {
    let ms_policy = ut_setup_prod_policies();
    let ms_price = ut_setup_prod_prices();
    let data = vec![
        OrderLineReqDto { seller_id: 52, product_type: ProductType::Package, product_id: 174, quantity: 4 },
        OrderLineReqDto { seller_id: 52, product_type: ProductType::Package, product_id: 900, quantity: 2 },
        OrderLineReqDto { seller_id: 51, product_type: ProductType::Package, product_id: 168, quantity: 11 },
        OrderLineReqDto { seller_id: 52, product_type: ProductType::Item, product_id: 901, quantity: 9 },
    ];
    let result = CreateOrderUseCase::validate_orderline(ms_policy, ms_price, data, ut_now());
    assert!(result.is_err());
    if let Err(CreateOrderUsKsErr::Client(v)) = result {
        let errs = v.order_lines.unwrap();
        assert_eq!(errs.len(), 3);
        let found = errs
            .iter()
            .find(|e| e.seller_id == 52 && e.product_type == ProductType::Package && e.product_id == 900)
            .unwrap();
        if let Some(v) = found.nonexist.as_ref() {
            assert!(v.product_policy);
            assert!(!v.product_price);
        }
        let found = errs
            .iter()
            .find(|e| e.seller_id == 52 && e.product_type == ProductType::Item && e.product_id == 901)
            .unwrap();
        if let Some(v) = found.nonexist.as_ref() {
            assert!(v.product_policy);
            assert!(!v.product_price);
        }
        let found = errs
            .iter()
            .find(|e| e.seller_id == 52 && e.product_type == ProductType::Package && e.product_id == 174)
            .unwrap();
        if let Some(v) = found.nonexist.as_ref() {
            assert!(!v.product_policy);
            assert!(v.product_price);
        }
        assert!(errs.iter().all(|e| e.nonexist.is_some()));
    } else {
        assert!(false);
    }
}

#[test]
fn validate_orderline_price_must_be_valid_now() {
    let data = vec![OrderLineReqDto { seller_id: 52, product_type: ProductType::Item, product_id: 168, quantity: 6 }];
    let at = |now: &str| {
        CreateOrderUseCase::validate_orderline(ut_setup_prod_policies(), ut_setup_prod_prices(), data.clone(), ut_time(now))
    };
    assert!(at("2023-07-31T11:29:04+02:00").is_ok());
    assert!(at("2023-08-30T09:01:31-08:00").is_ok());
    for now in ["2023-07-31T11:29:03+02:00", "2023-08-30T09:01:32-08:00", "2026-10-28T00:00:00Z"] {
        if let Err(CreateOrderUsKsErr::Client(v)) = at(now) {
            let e = v.order_lines.unwrap()[0];
            let lacks = e.nonexist.unwrap();
            assert!(!lacks.product_policy);
            assert!(lacks.product_price);
        } else {
            assert!(false);
        }
    }
    let none = CreateOrderUseCase::validate_orderline(ut_setup_prod_policies(), ut_setup_prod_prices(), vec![], ut_now());
    assert_eq!(none, Ok(vec![]));
    let big = vec![OrderLineReqDto { seller_id: 51, product_type: ProductType::Item, product_id: 168, quantity: u32::MAX }];
    let v = CreateOrderUseCase::validate_orderline(ut_setup_prod_policies(), ut_setup_prod_prices(), big, ut_now()).unwrap();
    assert_eq!(v[0].price.total, 510u64 * u32::MAX as u64);
    assert!(CreateOrderUseCase::find_policy(&ut_setup_prod_policies(), ProductType::Item, 174).is_none());
    let p = CreateOrderUseCase::find_price(&ut_setup_prod_prices(), 51, ProductType::Package, 168, &ut_now());
    assert_eq!(p.unwrap().price, 1130);
}

fn ut_setup_orderlines() -> Vec<OrderLineModel> {
    let paid_last_update = Some(ut_time("2023-11-15T09:23:49+02:00"));
    let reserved_until = ut_time("2023-11-15T09:23:50+02:00");
    let warranty_until = ut_time("2023-12-24T13:39:41+02:00");
    let line = |store_id, product_type, product_id, unit, total, reserved, paid| OrderLineModel {
        id_: BaseProductIdentity { store_id, product_type, product_id },
        price: OrderLinePriceModel { unit, total },
        qty: OrderLineQuantityModel { reserved, paid, paid_last_update },
        policy: OrderLineAppliedPolicyModel { reserved_until, warranty_until },
    };
    vec![
        line(108, ProductType::Item, 190, 10, 39, 4, 3),
        line(800, ProductType::Item, 191, 12, 60, 5, 5),
        line(426, ProductType::Package, 192, 12, 60, 8, 5),
    ]
}

fn discard_unpaid_items_common(
    stock_return_results: Vec<Result<(), AppError>>,
    fetched_ol_sets: Vec<OrderLineModelSet>,
    oline_cancel_results: Vec<Result<(), AppError>>,
) -> (Result<(), AppError>, Vec<String>) {
    let mut calls = Vec::new();
    let mut stock_results = Vec::new();
    let mut cancel_results = Vec::new();
    let mut mocked_stock = stock_return_results.into_iter();
    let mut mocked_cancel = oline_cancel_results.into_iter();
    for set in fetched_ol_sets.iter() {
        let data = OrderDiscardUnpaidItemsUseCase::stock_return_of(set);
        calls.push(format!("try_return {} {}", data.order_id, data.items.len()));
        let returned = mocked_stock.next().unwrap().map(|_| Vec::<StockReturnError>::new());
        stock_results.push(OrderDiscardUnpaidItemsUseCase::stock_outcome(returned));
        let ids = OrderDiscardUnpaidItemsUseCase::lines_to_cancel(set);
        calls.push(format!("update_lines_cancelled {} {}", set.order_id, ids.len()));
        cancel_results.push(mocked_cancel.next().unwrap());
    }
    (OrderDiscardUnpaidItemsUseCase::conclude(stock_results, cancel_results), calls)
}

#[test]
fn discard_unpaid_items_ok() {
    let mut mocked_olines = ut_setup_orderlines();
    let stock_return_results = vec![Ok(()), Ok(())];
    let fetched_ol_sets = vec![
        OrderLineModelSet { order_id: "xx1".to_string(), lines: mocked_olines.drain(0..2).collect() },
        OrderLineModelSet { order_id: "xx2".to_string(), lines: mocked_olines },
    ];
    let oline_cancel_results = vec![Ok(()), Ok(())];
    let (result, calls) =
        discard_unpaid_items_common(stock_return_results, fetched_ol_sets, oline_cancel_results);
    assert!(result.is_ok());
    assert_eq!(
        calls,
        vec!["try_return xx1 2", "update_lines_cancelled xx1 2", "try_return xx2 1", "update_lines_cancelled xx2 1"]
    );
}

#[test]
fn discard_unpaid_items_err_stocklvl() {
    let mut mocked_olines = ut_setup_orderlines();
    let data_corrupt = AppError { detail: Some(format!("unit-test")), code: AppErrorCode::DataCorruption };
    let stock_return_results = vec![Ok(()), Err(data_corrupt)];
    let fetched_ol_sets = vec![
        OrderLineModelSet { order_id: "xx1".to_string(), lines: mocked_olines.drain(0..1).collect() },
        OrderLineModelSet { order_id: "xx2".to_string(), lines: mocked_olines },
    ];
    let oline_cancel_results = vec![Ok(()), Ok(())];
    let (result, calls) =
        discard_unpaid_items_common(stock_return_results, fetched_ol_sets, oline_cancel_results);
    assert!(result.is_err());
    if let Err(e) = result {
        assert_eq!(e.code, AppErrorCode::DataCorruption);
        assert_eq!(e.detail.as_ref().unwrap(), "unit-test");
    }
    assert!(calls.contains(&"update_lines_cancelled xx1 1".to_string()));
    assert_eq!(calls.len(), 4);
}

#[test]
fn discard_unpaid_items_err_o_repo() {
    let mut mocked_olines = ut_setup_orderlines();
    let data_corrupt = AppError { detail: Some(format!("unit-test")), code: AppErrorCode::DataCorruption };
    let stock_return_results = vec![Ok(()), Ok(())];
    let fetched_ol_sets = vec![
        OrderLineModelSet { order_id: "xx1".to_string(), lines: mocked_olines.drain(0..1).collect() },
        OrderLineModelSet { order_id: "xx2".to_string(), lines: mocked_olines },
    ];
    let oline_cancel_results = vec![Ok(()), Err(data_corrupt)];
    let (result, _calls) =
        discard_unpaid_items_common(stock_return_results, fetched_ol_sets, oline_cancel_results);
    assert!(result.is_err());
    if let Err(e) = result {
        assert_eq!(e.code, AppErrorCode::DataCorruption);
        assert_eq!(e.detail.as_ref().unwrap(), "unit-test");
    }
}

#[test]
fn discard_unpaid_surfaces_the_first_error_of_each_kind() {
    let err = |code, detail: &str| AppError { code, detail: Some(detail.to_string()) };
    let r = OrderDiscardUnpaidItemsUseCase::conclude(
        vec![Ok(()), Err(err(AppErrorCode::AcquireLockFailure, "s1")), Err(err(AppErrorCode::DataCorruption, "s2"))],
        vec![Err(err(AppErrorCode::RemoteDbServerFailure, "c0")), Ok(()), Ok(())],
    );
    assert_eq!(r, Err(err(AppErrorCode::AcquireLockFailure, "s1")));
    let r = OrderDiscardUnpaidItemsUseCase::conclude(
        vec![Ok(()), Ok(())],
        vec![Ok(()), Err(err(AppErrorCode::RemoteDbServerFailure, "c1")), Err(err(AppErrorCode::NotFound, "c2"))],
    );
    assert_eq!(r, Err(err(AppErrorCode::RemoteDbServerFailure, "c1")));
    assert_eq!(OrderDiscardUnpaidItemsUseCase::conclude(vec![], vec![]), Ok(()));
    let refused = vec![StockReturnError {
        pid: BaseProductIdentity { store_id: 1, product_type: ProductType::Item, product_id: 2 },
        reason: StockReturnErrorReason::NotExist,
    }];
    let e = OrderDiscardUnpaidItemsUseCase::stock_outcome(Ok(refused)).err().unwrap();
    assert_eq!(e.code, AppErrorCode::DataCorruption);
    assert_eq!(OrderDiscardUnpaidItemsUseCase::stock_outcome(Ok(vec![])), Ok(()));
    let e = err(AppErrorCode::AcquireLockFailure, "lock");
    assert_eq!(OrderDiscardUnpaidItemsUseCase::stock_outcome(Err(e.clone())), Err(e));
}

#[test]
fn discard_unpaid_returns_what_was_reserved_and_not_paid() {
    let set = OrderLineModelSet { order_id: "xx1".to_string(), lines: ut_setup_orderlines() };
    let data = OrderDiscardUnpaidItemsUseCase::stock_return_of(&set);
    assert_eq!(data.order_id, "xx1");
    let pid = |store_id, product_type, product_id| BaseProductIdentity { store_id, product_type, product_id };
    assert_eq!(
        data.items,
        vec![
            StockReturnItem { pid: pid(108, ProductType::Item, 190), qty: 1 },
            StockReturnItem { pid: pid(800, ProductType::Item, 191), qty: 0 },
            StockReturnItem { pid: pid(426, ProductType::Package, 192), qty: 3 },
        ]
    );
    assert_eq!(
        OrderDiscardUnpaidItemsUseCase::lines_to_cancel(&set),
        vec![pid(108, ProductType::Item, 190), pid(800, ProductType::Item, 191), pid(426, ProductType::Package, 192)]
    );
}

#[test]
fn save_contact_error() {
    let contact = ContactModel {
        first_name: "Biseakral".to_string(),
        last_name: "Kazzhitsch".to_string(),
        emails: vec!["low@hunt.io".to_string(), "axl@rose.com".to_string()],
        phones: vec![PhoneNumberModel { nation: 43, number: "500020812".to_string() }],
    };
    let shipping = ShippingModel { contact: contact.clone(), address: None, option: vec![] };
    let e = shipping.validate().err().unwrap();
    assert_eq!(e.code, AppErrorCode::EmptyInputData);
    assert_eq!(e.detail.unwrap(), "shipping-option");
    let shipping = ShippingModel {
        contact,
        address: None,
        option: vec![ShippingOptionModel { seller_id: 1022, method: ShippingMethod::FedEx }],
    };
    assert!(shipping.validate().is_ok());
}

#[test]
fn create_order_tells_faults_of_the_request_from_faults_of_the_service() {
    assert_eq!(CreateOrderUseCase::reserved(Ok(())), Ok(()));
    let e = AppError { code: AppErrorCode::AcquireLockFailure, detail: None };
    assert_eq!(CreateOrderUseCase::reserved(Err(Err(e.clone()))), Err(CreateOrderUsKsErr::Server));
    let short = vec![StockReserveError::NotEnoughToClaim {
        pid: BaseProductIdentity { store_id: 1013, product_type: ProductType::Item, product_id: 9006 },
        num_req: 21,
        num_avail: 20,
    }];
    if let Err(CreateOrderUsKsErr::Client(v)) = CreateOrderUseCase::reserved(Err(Ok(short))) {
        let errs = v.order_lines.unwrap();
        assert_eq!(errs.len(), 1);
        assert_eq!((errs[0].seller_id, errs[0].product_type, errs[0].product_id), (1013, ProductType::Item, 9006));
        assert_eq!(errs[0].nonexist, None);
        assert_eq!(errs[0].shortage, Some(OrderLineErrorShortageDto { num_req: 21, num_avail: 20 }));
    } else {
        assert!(false);
    }
    assert_eq!(CreateOrderUseCase::persisted("800eff40".to_string(), Ok(())), Ok("800eff40".to_string()));
    assert_eq!(CreateOrderUseCase::persisted("800eff40".to_string(), Err(e)), Err(CreateOrderUsKsErr::Server));
}
