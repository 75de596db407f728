use ecommerce_core::adapter::processor::AppProcessorErrorReason;
use ecommerce_core::adapter::repository::{AppRepoError, AppRepoErrorDetail, AppRepoErrorFnLabel};
use ecommerce_core::constant::ProductType;
use ecommerce_core::error::{AppErrorCode, HttpStatusClass};
use ecommerce_core::model::charge::{
    BuyerPayInState, Charge3partyModel, ChargeBuyerMetaModel, ChargeBuyerModel,
    ChargeLineBuyerModel, ChargeLineRefunded, ChargeLineRejected, CurrencyDto,
    OrderCurrencySnapshot, PayLineAmountModel,
};
use ecommerce_core::model::merchant::MerchantProfileModel;
use ecommerce_core::model::money::Decimal;
use ecommerce_core::model::order::BaseProductIdentity;
use ecommerce_core::model::refund::{
    OrderLineReplicaRefundDto, OrderRefundModel, PayAmountDto, RefundCompletionOlineReqDto,
    RefundCompletionOlineRespDto, RefundCompletionReqDto, RefundCompletionRespDto,
    RefundModelError,
};
use ecommerce_core::time::Timestamp;
use ecommerce_core::usecase::finalize_refund::{
    FinalizeRefundUcError, FinalizeRefundUseCase, RefundPlan, RefundSettlement,
};
use ecommerce_core::adapter::processor::AppProcessorError;

type UTestChargeLineRawData = (u32, ProductType, u64, (u128, u32), (u128, u32), u32, (u128, u32), u32, u32, u32);

fn ut_time_base() -> Timestamp {
    Timestamp::parse_rfc3339("2024-09-17T20:54:09.561+00:00").unwrap()
}

fn ut_minutes_before(t: Timestamp, minutes: i64) -> Timestamp {
    Timestamp::new(t.secs - 60 * minutes, t.nanos, t.offset)
}

fn ut_days_before(t: Timestamp, days: i64) -> Timestamp {
    Timestamp::new(t.secs - 86_400 * days, t.nanos, t.offset)
}

fn ut_setup_buyer_charge(
    owner: u32,
    create_time: Timestamp,
    order_id: String,
    state: BuyerPayInState,
    method: Charge3partyModel,
    d_lines: Vec<UTestChargeLineRawData>,
    currency_snapshot: Vec<(u32, OrderCurrencySnapshot)>,
) -> ChargeBuyerModel {
    let lines = d_lines
        .into_iter()
        .map(|d| ChargeLineBuyerModel {
            pid: BaseProductIdentity { store_id: d.0, product_type: d.1, product_id: d.2 },
            amount: PayLineAmountModel {
                unit: Decimal::new(d.3 .0, d.3 .1),
                total: Decimal::new(d.4 .0, d.4 .1),
                qty: d.5,
            },
            refunded: ChargeLineRefunded { total: Decimal::new(d.6 .0, d.6 .1), qty: d.7 },
            rejected: ChargeLineRejected { qty_damaged: d.8, qty_fraud: d.9 },
        })
        .collect();
    ChargeBuyerModel {
        meta: ChargeBuyerMetaModel { owner, create_time, order_id, state, method },
        lines,
        currency_snapshot,
    }
}

fn ut_setup_buyer_charge_inner(mock_oid: &str, charge_ctime: Timestamp, merchant_id: u32) -> ChargeBuyerModel {
    let buyer_usr_id = 960u32;
    let charge_dlines: Vec<UTestChargeLineRawData> = vec![
        (merchant_id, ProductType::Item, 8299, (325, 1), (3250, 1), 10, (0, 1), 0, 0, 0),
        (merchant_id, ProductType::Item, 8454, (909, 1), (9090, 1), 10, (0, 1), 0, 0, 0),
        (merchant_id, ProductType::Package, 9913, (189, 1), (1890, 1), 10, (0, 1), 0, 0, 0),
        (7788, ProductType::Package, 9914, (8392, 2), (83920, 2), 10, (0, 2), 0, 0, 0),
    ];
    let currency_snapshot = vec![
        (buyer_usr_id, OrderCurrencySnapshot { label: CurrencyDto::TWD, rate: Decimal::new(3187, 2) }),
        (merchant_id, OrderCurrencySnapshot { label: CurrencyDto::IDR, rate: Decimal::new(125021, 1) }),
    ];
    ut_setup_buyer_charge(
        buyer_usr_id,
        charge_ctime,
        mock_oid.to_string(),
        BuyerPayInState::OrderAppSynced(charge_ctime),
        Charge3partyModel::Stripe,
        charge_dlines,
        currency_snapshot,
    )
}

fn ut_setup_merchant_profile(merchant_id: u32, name: &str, staff: u32, created: Timestamp) -> MerchantProfileModel {
    MerchantProfileModel::try_new(merchant_id, name.to_string(), staff, vec![staff], created).unwrap()
}

fn ut_setup_order_refund_model(
    oid: &str,
    merchant_id: u32,
    time_base: Timestamp,
    d_lines: Vec<(u64, ProductType, i64, (u128, u32), (u128, u32), u32)>,
) -> OrderRefundModel {
    let rfnd_dtos = d_lines
        .into_iter()
        .map(|d| OrderLineReplicaRefundDto {
            seller_id: merchant_id,
            product_id: d.0,
            product_type: d.1,
            create_time: ut_minutes_before(time_base, d.2).to_rfc3339().unwrap(),
            amount: PayAmountDto {
                unit: Decimal::new(d.3 .0, d.3 .1).to_text(),
                total: Decimal::new(d.4 .0, d.4 .1).to_text(),
            },
            qty: d.5,
        })
        .collect::<Vec<_>>();
    OrderRefundModel::try_from(oid.to_string(), rfnd_dtos).unwrap()
}

fn ut_setup_refund_cmplt_dto(
    time_base: Timestamp,
    d_lines: Vec<(u64, ProductType, i64, u128, u32, u32, u32)>,
) -> RefundCompletionReqDto {
    let lines = d_lines
        .into_iter()
        .map(|d| RefundCompletionOlineReqDto {
            product_id: d.0,
            product_type: d.1,
            time_issued: ut_minutes_before(time_base, d.2),
            amount_total: Decimal::new(d.3, 1),
            qty_approved: d.4,
            qty_rej_damaged: d.5,
            qty_rej_fraud: d.6,
        })
        .collect();
    RefundCompletionReqDto { lines }
}

fn ut_same_number(a: Decimal, b: Decimal) -> bool {
    let scale = a.scale.max(b.scale);
    let lift = |d: Decimal| d.mantissa * 10u128.pow(scale - d.scale);
    lift(a) == lift(b)
}

fn ut_verify_cmplt_resp(
    time_base: Timestamp,
    rline: RefundCompletionOlineRespDto,
    expect_data_selector: fn(u64, ProductType, i64) -> (i64, u32, u32, u32),
) {
    let t_diff = (time_base.secs - rline.time_issued.secs) / 60;
    let (amt_tot, qty_aprv, qty_rej_damage, qty_rej_fraud) =
        expect_data_selector(rline.product_id, rline.product_type, t_diff);
    assert!(amt_tot >= 0, "unexpected line {:?}", rline);
    assert!(ut_same_number(rline.amount_total, Decimal::new(amt_tot as u128, 1)));
    let actual = (rline.qty_approved, rline.qty_rej_damaged, rline.qty_rej_fraud);
    assert_eq!(actual, (qty_aprv, qty_rej_damage, qty_rej_fraud));
}

struct UTestOutcome {
    settlement_charges: Vec<(u32, Timestamp, Vec<ChargeLineBuyerModel>)>,
    saved_refund: Option<OrderRefundModel>,
    num_processor_calls: usize,
}

fn ut_execute(
    mock_oid: &str,
    merchant_id: u32,
    staff_usr_id: u32,
    profile: Option<MerchantProfileModel>,
    refund_m: Option<OrderRefundModel>,
    charges: Option<Vec<ChargeBuyerModel>>,
    cmplt_req: RefundCompletionReqDto,
    processor_trigs: Option<Vec<bool>>,
    update_line_rfd_res: Option<Result<(), AppRepoError>>,
) -> (
    Result<(RefundCompletionRespDto, Vec<AppProcessorError>), FinalizeRefundUcError>,
    UTestOutcome,
) {
    let mut outcome = UTestOutcome { settlement_charges: vec![], saved_refund: None, num_processor_calls: 0 };
    if let Err(e) = FinalizeRefundUseCase::authorize(merchant_id, staff_usr_id, profile.as_ref()) {
        return (Err(e), outcome);
    }
    let charges = charges.unwrap_or_default();
    let plan: RefundPlan =
        match FinalizeRefundUseCase::plan(mock_oid.to_string(), merchant_id, refund_m, charges, cmplt_req) {
            Ok(p) => p,
            Err(e) => return (Err(e), outcome),
        };
    let mut trigs = processor_trigs.unwrap_or_default().into_iter();
    let mut failed = Vec::new();
    for c in plan.pending() {
        outcome.num_processor_calls += 1;
        if trigs.next().unwrap() {
            failed.push((c, AppProcessorErrorReason::InvalidMethod("unit-test".to_string())));
        }
    }
    let settlement: RefundSettlement = FinalizeRefundUseCase::conclude(plan, failed);
    outcome.settlement_charges = settlement
        .charge_updates
        .iter()
        .map(|u| (u.owner, u.create_time, u.lines.clone()))
        .collect();
    outcome.saved_refund = Some(settlement.refund_m.clone());
    if let Err(e) = FinalizeRefundUseCase::charges_saved(update_line_rfd_res.unwrap()) {
        return (Err(e), outcome);
    }
    (FinalizeRefundUseCase::finish(settlement, Ok(())), outcome)
}

#[test]
fn cmplt_req_done_all() {
    let time_base = ut_time_base();
    let mock_oid = "d003bea7";
    let mock_merchant_id = 127u32;
    let mock_staff_usr_id = 1551u32;
    let mock_merchant_profile =
        ut_setup_merchant_profile(mock_merchant_id, "WallMarrT", mock_staff_usr_id, ut_days_before(time_base, 100));
    let mock_charge_ms = vec![
        ut_setup_buyer_charge_inner(mock_oid, ut_minutes_before(time_base, 49), mock_merchant_id),
        ut_setup_buyer_charge_inner(mock_oid, ut_minutes_before(time_base, 88), mock_merchant_id),
    ];
    let mock_rfnd_req_m = ut_setup_order_refund_model(
        mock_oid,
        mock_merchant_id,
        time_base,
        vec![
            (8299, ProductType::Item, 19, (325, 1), (325, 1), 1),
            (8299, ProductType::Item, 29, (325, 1), (1950, 1), 6),
            (8454, ProductType::Item, 39, (909, 1), (6363, 1), 7),
            (8454, ProductType::Item, 49, (909, 1), (7272, 1), 8),
        ],
    );
    let mock_cmplt_req = ut_setup_refund_cmplt_dto(
        time_base,
        vec![
            (8299, ProductType::Item, 19, 0, 0, 1, 0),
            (8299, ProductType::Item, 29, 650, 2, 0, 4),
            (8454, ProductType::Item, 39, 6363, 7, 0, 0),
            (8454, ProductType::Item, 49, 4545, 5, 2, 1),
        ],
    );
    let (result, outcome) = ut_execute(
        mock_oid,
        mock_merchant_id,
        mock_staff_usr_id,
        Some(mock_merchant_profile),
        Some(mock_rfnd_req_m),
        Some(mock_charge_ms),
        mock_cmplt_req,
        Some(vec![false, false]),
        Some(Ok(())),
    );
    assert!(result.is_ok());
    let data_selector = |prod_id: u64, prod_typ: ProductType, t_diff: i64| -> (i64, u32, u32, u32) {
        match (prod_id, prod_typ, t_diff) {
            (8299, ProductType::Item, 19) => (0, 0, 1, 0),
            (8299, ProductType::Item, 29) => (650, 2, 0, 4),
            (8454, ProductType::Item, 39) => (6363, 7, 0, 0),
            (8454, ProductType::Item, 49) => (4545, 5, 2, 1),
            _others => (-9999, 9999, 9999, 9999),
        }
    };
    if let Ok((cmplt_resp, errs3pty)) = result {
        assert!(errs3pty.is_empty());
        assert_eq!(cmplt_resp.lines.len(), 4);
        cmplt_resp
            .lines
            .into_iter()
            .map(|rline| ut_verify_cmplt_resp(time_base, rline, data_selector))
            .count();
    }
    assert_eq!(outcome.num_processor_calls, 2);
    assert_eq!(outcome.settlement_charges.len(), 2);
    let first = &outcome.settlement_charges[0];
    assert_eq!(first.1, ut_minutes_before(time_base, 49));
    assert_eq!((first.2[0].refunded.qty, first.2[0].refunded.total), (2, Decimal::new(650, 1)));
    assert_eq!((first.2[1].refunded.qty, first.2[1].refunded.total), (10, Decimal::new(9090, 1)));
    assert_eq!(first.2[2].refunded.qty, 0);
    let second = &outcome.settlement_charges[1];
    assert_eq!((second.2[0].refunded.qty, second.2[1].refunded.qty), (0, 2));
    assert_eq!(second.2[1].refunded.total, Decimal::new(1818, 1));
    let left: Vec<u32> = outcome.saved_refund.unwrap().lines.iter().map(|l| l.qty).collect();
    assert_eq!(left, vec![0, 0, 0, 0]);
}

#[test]
fn cmplt_req_done_partial() {
    let time_base = ut_time_base();
    let mock_oid = "a01b738f";
    let mock_merchant_id = 127u32;
    let mock_staff_usr_id = 1551u32;
    let mock_merchant_profile =
        ut_setup_merchant_profile(mock_merchant_id, "StarBark", mock_staff_usr_id, ut_days_before(time_base, 99));
    let mock_charge_ms = vec![
        ut_setup_buyer_charge_inner(mock_oid, ut_minutes_before(time_base, 69), mock_merchant_id),
        ut_setup_buyer_charge_inner(mock_oid, ut_minutes_before(time_base, 18), mock_merchant_id),
    ];
    let mock_rfnd_req_m = ut_setup_order_refund_model(
        mock_oid,
        mock_merchant_id,
        time_base,
        vec![
            (8299, ProductType::Item, 19, (325, 1), (2925, 1), 9),
            (8299, ProductType::Item, 29, (325, 1), (2600, 1), 8),
            (8454, ProductType::Item, 39, (909, 1), (6363, 1), 7),
            (8454, ProductType::Item, 49, (909, 1), (1818, 1), 2),
        ],
    );
    let mock_cmplt_req = ut_setup_refund_cmplt_dto(
        time_base,
        vec![
            (8299, ProductType::Item, 19, 325, 1, 4, 2),
            (8299, ProductType::Item, 29, 1625, 5, 0, 1),
            (8454, ProductType::Item, 39, 0, 0, 2, 3),
            (8454, ProductType::Item, 49, 1818, 2, 0, 0),
        ],
    );
    let (result, outcome) = ut_execute(
        mock_oid,
        mock_merchant_id,
        mock_staff_usr_id,
        Some(mock_merchant_profile),
        Some(mock_rfnd_req_m),
        Some(mock_charge_ms),
        mock_cmplt_req,
        Some(vec![false, false]),
        Some(Ok(())),
    );
    assert!(result.is_ok());
    let data_selector = |prod_id: u64, prod_typ: ProductType, t_diff: i64| -> (i64, u32, u32, u32) {
        match (prod_id, prod_typ, t_diff) {
            (8299, ProductType::Item, 19) => (325, 1, 4, 2),
            (8299, ProductType::Item, 29) => (1625, 5, 0, 1),
            (8454, ProductType::Item, 39) => (0, 0, 2, 3),
            (8454, ProductType::Item, 49) => (1818, 2, 0, 0),
            _others => (-9999, 9999, 9999, 9999),
        }
    };
    if let Ok((cmplt_resp, errs3pty)) = result {
        assert!(errs3pty.is_empty());
        assert_eq!(cmplt_resp.lines.len(), 4);
        cmplt_resp
            .lines
            .into_iter()
            .map(|rline| ut_verify_cmplt_resp(time_base, rline, data_selector))
            .count();
    }
    assert_eq!(outcome.num_processor_calls, 1);
    let left: Vec<u32> = outcome.saved_refund.unwrap().lines.iter().map(|l| l.qty).collect();
    assert_eq!(left, vec![2, 2, 2, 0]);
}

#[test]
fn cmplt_req_done_with_processor_error() {
    let time_base = ut_time_base();
    let mock_oid = "d003bea7";
    let mock_merchant_id = 127u32;
    let mock_staff_usr_id = 1551u32;
    let mock_merchant_profile =
        ut_setup_merchant_profile(mock_merchant_id, "WallMarrT", mock_staff_usr_id, ut_days_before(time_base, 100));
    let mock_charge_ms = vec![
        ut_setup_buyer_charge_inner(mock_oid, ut_minutes_before(time_base, 49), mock_merchant_id),
        ut_setup_buyer_charge_inner(mock_oid, ut_minutes_before(time_base, 88), mock_merchant_id),
    ];
    let mock_rfnd_req_m = ut_setup_order_refund_model(
        mock_oid,
        mock_merchant_id,
        time_base,
        vec![
            (8299, ProductType::Item, 19, (325, 1), (3900, 1), 12),
            (8299, ProductType::Item, 29, (325, 1), (650, 1), 2),
            (8299, ProductType::Item, 39, (325, 1), (1300, 1), 4),
            (8454, ProductType::Item, 49, (909, 1), (6363, 1), 7),
            (8454, ProductType::Item, 59, (909, 1), (7272, 1), 8),
        ],
    );
    let mock_cmplt_req = ut_setup_refund_cmplt_dto(
        time_base,
        vec![
            (8299, ProductType::Item, 19, 3575, 11, 1, 0),
            (8299, ProductType::Item, 29, 650, 2, 0, 0),
            (8299, ProductType::Item, 39, 975, 3, 0, 1),
            (8454, ProductType::Item, 49, 5454, 6, 1, 0),
            (8454, ProductType::Item, 59, 6363, 7, 0, 1),
        ],
    );
    let (result, outcome) = ut_execute(
        mock_oid,
        mock_merchant_id,
        mock_staff_usr_id,
        Some(mock_merchant_profile),
        Some(mock_rfnd_req_m),
        Some(mock_charge_ms),
        mock_cmplt_req,
        Some(vec![false, true]),
        Some(Ok(())),
    );
    assert!(result.is_ok());
    let data_selector = |prod_id: u64, prod_typ: ProductType, t_diff: i64| -> (i64, u32, u32, u32) {
        match (prod_id, prod_typ, t_diff) {
            (8299, ProductType::Item, 19) => (3250, 10, 1, 0),
            (8299, ProductType::Item, 39) => (0, 0, 0, 1),
            (8454, ProductType::Item, 49) => (5454, 6, 1, 0),
            (8454, ProductType::Item, 59) => (3636, 4, 0, 1),
            _others => (-9999, 9999, 9999, 9999),
        }
    };
    if let Ok((cmplt_resp, mut errs3pty)) = result {
        assert_eq!(errs3pty.len(), 1);
        let err3pty = errs3pty.remove(0);
        if let AppProcessorErrorReason::InvalidMethod(s) = err3pty.reason {
            assert_eq!(s.as_str(), "unit-test");
        } else {
            assert!(false);
        }
        assert_eq!(cmplt_resp.lines.len(), 4);
        cmplt_resp
            .lines
            .into_iter()
            .map(|rline| ut_verify_cmplt_resp(time_base, rline, data_selector))
            .count();
    }
    assert_eq!(outcome.settlement_charges.len(), 1);
    assert_eq!(outcome.settlement_charges[0].1, ut_minutes_before(time_base, 49));
    let left: Vec<u32> = outcome.saved_refund.unwrap().lines.iter().map(|l| l.qty).collect();
    assert_eq!(left, vec![1, 2, 3, 0, 3]);
}

#[test]
fn missing_charge_ids() {
    let time_base = ut_time_base();
    let mock_oid = "d003bea7";
    let mock_merchant_id = 127u32;
    let mock_staff_usr_id = 1551u32;
    let mock_merchant_profile =
        ut_setup_merchant_profile(mock_merchant_id, "TeSLaA", mock_staff_usr_id, ut_days_before(time_base, 100));
    let mock_cmplt_req = ut_setup_refund_cmplt_dto(time_base, vec![]);
    let mock_rfnd_req_m = ut_setup_order_refund_model(mock_oid, mock_merchant_id, time_base, vec![]);
    let (result, outcome) = ut_execute(
        mock_oid,
        mock_merchant_id,
        mock_staff_usr_id,
        Some(mock_merchant_profile),
        Some(mock_rfnd_req_m),
        None,
        mock_cmplt_req,
        None,
        None,
    );
    assert!(result.is_err());
    if let Err(FinalizeRefundUcError::MissingChargeId(oid)) = result {
        assert_eq!(oid.as_str(), mock_oid);
    } else {
        assert!(false);
    }
    assert!(outcome.settlement_charges.is_empty());
    assert!(outcome.saved_refund.is_none());
    assert_eq!(outcome.num_processor_calls, 0);
}

#[test]
fn resolve_failure_repo_refund() {
    let time_base = ut_time_base();
    let mock_oid = "d003bea7";
    let mock_merchant_id = 127u32;
    let mock_staff_usr_id = 1551u32;
    let mock_merchant_profile =
        ut_setup_merchant_profile(mock_merchant_id, "NVDA", mock_staff_usr_id, ut_days_before(time_base, 100));
    let mock_charge_ms =
        vec![ut_setup_buyer_charge_inner(mock_oid, ut_minutes_before(time_base, 49), mock_merchant_id)];
    let mock_rfnd_req_m = ut_setup_order_refund_model(
        mock_oid,
        mock_merchant_id,
        time_base,
        vec![(8299, ProductType::Item, 19, (325, 1), (650, 1), 2)],
    );
    let mock_cmplt_req =
        ut_setup_refund_cmplt_dto(time_base, vec![(8299, ProductType::Item, 19, 3250, 10, 0, 0)]);
    let (result, outcome) = ut_execute(
        mock_oid,
        mock_merchant_id,
        mock_staff_usr_id,
        Some(mock_merchant_profile),
        Some(mock_rfnd_req_m),
        Some(mock_charge_ms),
        mock_cmplt_req,
        None,
        None,
    );
    assert!(result.is_err());
    if let Err(FinalizeRefundUcError::DataStore(e)) = result {
        assert_eq!(e.code, AppErrorCode::InvalidInput);
        if let AppRepoErrorDetail::RefundResolution(mut mes) = e.detail {
            assert_eq!(mes.len(), 1);
            let me = mes.remove(0);
            if let RefundModelError::QtyInsufficient { pid, num_avail, num_req } = me {
                assert_eq!(pid.store_id, mock_merchant_id);
                assert_eq!(pid.product_type, ProductType::Item);
                assert_eq!(pid.product_id, 8299);
                assert_eq!(num_req, 10);
                assert_eq!(num_avail, 2);
            } else {
                assert!(false);
            }
        } else {
            assert!(false);
        }
    } else {
        assert!(false);
    }
    assert_eq!(outcome.num_processor_calls, 0);
}

#[test]
fn update_failure_chargeline() {
    let time_base = ut_time_base();
    let mock_oid = "d003bea7";
    let mock_merchant_id = 127u32;
    let mock_staff_usr_id = 1551u32;
    let mock_merchant_profile =
        ut_setup_merchant_profile(mock_merchant_id, "NVDA", mock_staff_usr_id, ut_days_before(time_base, 100));
    let mock_charge_ms =
        vec![ut_setup_buyer_charge_inner(mock_oid, ut_minutes_before(time_base, 49), mock_merchant_id)];
    let mock_repo_err = AppRepoError {
        fn_label: AppRepoErrorFnLabel::UpdateChargeLinesRefund,
        code: AppErrorCode::RemoteDbServerFailure,
        detail: AppRepoErrorDetail::DatabaseExec("unit-test".to_string()),
    };
    let mock_rfnd_req_m = ut_setup_order_refund_model(
        mock_oid,
        mock_merchant_id,
        time_base,
        vec![(8299, ProductType::Item, 19, (325, 1), (1625, 1), 5)],
    );
    let mock_cmplt_req =
        ut_setup_refund_cmplt_dto(time_base, vec![(8299, ProductType::Item, 19, 1300, 4, 1, 0)]);
    let (result, _outcome) = ut_execute(
        mock_oid,
        mock_merchant_id,
        mock_staff_usr_id,
        Some(mock_merchant_profile),
        Some(mock_rfnd_req_m),
        Some(mock_charge_ms),
        mock_cmplt_req,
        Some(vec![false]),
        Some(Err(mock_repo_err)),
    );
    assert!(result.is_err());
    if let Err(FinalizeRefundUcError::DataStore(e)) = result {
        assert_eq!(e.code, AppErrorCode::RemoteDbServerFailure);
        if let AppRepoErrorDetail::DatabaseExec(s) = e.detail {
            assert_eq!(s.as_str(), "unit-test");
        } else {
            assert!(false);
        }
    } else {
        assert!(false);
    }
}

#[test]
fn finalize_refund_checks_before_planning() {
    let time_base = ut_time_base();
    let profile = ut_setup_merchant_profile(127, "WallMarrT", 1551, ut_days_before(time_base, 100));
    assert_eq!(
        FinalizeRefundUseCase::authorize(127, 1551, None),
        Err(FinalizeRefundUcError::MerchantNotFound(127))
    );
    assert_eq!(
        FinalizeRefundUseCase::authorize(127, 1552, Some(&profile)),
        Err(FinalizeRefundUcError::PermissionDenied(1552))
    );
    assert_eq!(FinalizeRefundUseCase::authorize(127, 1551, Some(&profile)), Ok(()));
    let req = ut_setup_refund_cmplt_dto(time_base, vec![]);
    let r = FinalizeRefundUseCase::plan("d003bea7".to_string(), 127, None, vec![], req.clone());
    assert_eq!(r.err().unwrap(), FinalizeRefundUcError::MissingRefundReq("d003bea7".to_string()));
    let refund_m = ut_setup_order_refund_model("d003bea7", 127, time_base, vec![]);
    let r = FinalizeRefundUseCase::plan("d003bea7".to_string(), 127, Some(refund_m), vec![], req);
    assert_eq!(r.err().unwrap(), FinalizeRefundUcError::MissingChargeId("d003bea7".to_string()));
}

#[test]
fn finalize_refund_never_settles_more_than_was_asked() {
    let time_base = ut_time_base();
    let charges = vec![
        ut_setup_buyer_charge(
            960,
            ut_minutes_before(time_base, 90),
            "d003bea7".to_string(),
            BuyerPayInState::OrderAppSynced(time_base),
            Charge3partyModel::Stripe,
            vec![(127, ProductType::Item, 8299, (325, 1), (1300, 1), 4, (325, 1), 1, 1, 1)],
            vec![],
        ),
        ut_setup_buyer_charge(
            960,
            ut_minutes_before(time_base, 80),
            "d003bea7".to_string(),
            BuyerPayInState::OrderAppSynced(time_base),
            Charge3partyModel::Stripe,
            vec![(127, ProductType::Item, 8299, (330, 1), (990, 1), 3, (0, 1), 0, 0, 0)],
            vec![],
        ),
    ];
    assert!(charges.iter().all(|c| c.is_wf()));
    let refund_m = ut_setup_order_refund_model(
        "d003bea7",
        127,
        time_base,
        vec![(8299, ProductType::Item, 19, (325, 1), (3250, 1), 10)],
    );
    let req = ut_setup_refund_cmplt_dto(
        time_base,
        vec![
            (8299, ProductType::Item, 19, 0, 6, 1, 0),
            (8299, ProductType::Item, 19, 0, 2, 0, 1),
            (8299, ProductType::Item, 77, 0, 0, 0, 0),
        ],
    );
    let asked: u32 = req.lines.iter().map(|q| q.qty_approved + q.qty_rej_damaged + q.qty_rej_fraud).sum();
    let plan = FinalizeRefundUseCase::plan("d003bea7".to_string(), 127, Some(refund_m), charges, req).unwrap();
    assert_eq!(plan.allocs, vec![vec![1, 0, 0], vec![3, 0, 0]]);
    assert_eq!(plan.debits, vec![vec![1], vec![3]]);
    assert_eq!(plan.pending(), vec![0, 1]);
    let s = FinalizeRefundUseCase::conclude(plan, vec![]);
    let settled: u32 =
        s.response.lines.iter().map(|l| l.qty_approved + l.qty_rej_damaged + l.qty_rej_fraud).sum();
    assert!(settled <= asked);
    assert_eq!(s.response.lines.len(), 2);
    assert_eq!(s.response.lines[0].qty_approved, 4);
    assert_eq!(s.response.lines[0].amount_total, Decimal::new(1300, 1));
    assert_eq!(s.response.lines[1].qty_approved, 0);
    assert_eq!(s.response.lines[1].amount_total, Decimal::new(0, 0));
    assert_eq!(s.refund_m.lines[0].qty, 4);
    for u in s.charge_updates.iter() {
        for l in u.lines.iter() {
            assert!(l.is_wf());
            assert!(l.refunded.qty + l.rejected.qty_damaged + l.rejected.qty_fraud <= l.amount.qty);
            assert!(l.refunded.total.mantissa <= l.amount.total.mantissa);
        }
    }
    assert_eq!(s.charge_updates[0].lines[0].refunded, ChargeLineRefunded { total: Decimal::new(650, 1), qty: 2 });
    assert_eq!(s.charge_updates[1].lines[0].refunded, ChargeLineRefunded { total: Decimal::new(990, 1), qty: 3 });
}

#[test]
fn finalize_refund_ignores_refusals_of_charges_that_gave_nothing() {
    let time_base = ut_time_base();
    let charges = vec![
        ut_setup_buyer_charge_inner("d003bea7", ut_minutes_before(time_base, 49), 127),
        ut_setup_buyer_charge_inner("d003bea7", ut_minutes_before(time_base, 88), 127),
    ];
    let refund_m = ut_setup_order_refund_model(
        "d003bea7",
        127,
        time_base,
        vec![(8299, ProductType::Item, 19, (325, 1), (975, 1), 3)],
    );
    let req = ut_setup_refund_cmplt_dto(time_base, vec![(8299, ProductType::Item, 19, 975, 3, 0, 0)]);
    let plan = FinalizeRefundUseCase::plan("d003bea7".to_string(), 127, Some(refund_m), charges, req).unwrap();
    assert_eq!(plan.pending(), vec![0]);
    let failed = vec![
        (1usize, AppProcessorErrorReason::NotImplemented),
        (9usize, AppProcessorErrorReason::NotSupport),
    ];
    let s = FinalizeRefundUseCase::conclude(plan, failed);
    assert!(s.errors_3party.is_empty());
    assert_eq!(s.response.lines[0].qty_approved, 3);
    assert_eq!(s.charge_updates.len(), 1);
    assert_eq!(FinalizeRefundUseCase::charges_saved(Ok(())), Ok(()));
    let r = FinalizeRefundUseCase::finish(
        s,
        Err(AppRepoError {
            fn_label: AppRepoErrorFnLabel::RefundSaveReq,
            code: AppErrorCode::AcquireLockFailure,
            detail: AppRepoErrorDetail::Unknown,
        }),
    );
    if let Err(FinalizeRefundUcError::DataStore(e)) = r {
        assert_eq!(e.fn_label, AppRepoErrorFnLabel::RefundSaveReq);
    } else {
        assert!(false);
    }
}

#[test]
fn finalize_refund_refuses_charges_that_break_their_invariant() {
    let time_base = ut_time_base();
    let mut charges = vec![
        ut_setup_buyer_charge_inner("d003bea7", ut_minutes_before(time_base, 49), 127),
        ut_setup_buyer_charge_inner("d003bea7", ut_minutes_before(time_base, 88), 127),
    ];
    charges[1].lines[2].refunded.qty = 11;
    assert!(charges[0].is_wf());
    assert!(!charges[1].is_wf());
    let refund_m = ut_setup_order_refund_model(
        "d003bea7",
        127,
        time_base,
        vec![(8299, ProductType::Item, 19, (325, 1), (975, 1), 3)],
    );
    let req = ut_setup_refund_cmplt_dto(time_base, vec![(8299, ProductType::Item, 19, 975, 3, 0, 0)]);
    let r = FinalizeRefundUseCase::plan("d003bea7".to_string(), 127, Some(refund_m), charges, req);
    if let Err(FinalizeRefundUcError::DataStore(e)) = r {
        assert_eq!(e.fn_label, AppRepoErrorFnLabel::FetchChargeByMerchant);
        assert_eq!(e.code, AppErrorCode::DataCorruption);
        assert_eq!(e.detail, AppRepoErrorDetail::Unknown);
    } else {
        assert!(false);
    }
}

#[test]
fn failures_are_answered_by_their_class() {
    let repo_err = AppRepoError {
        fn_label: AppRepoErrorFnLabel::UpdateChargeLinesRefund,
        code: AppErrorCode::RemoteDbServerFailure,
        detail: AppRepoErrorDetail::Unknown,
    };
    let cases = vec![
        (FinalizeRefundUcError::MerchantNotFound(127), HttpStatusClass::NotFound),
        (FinalizeRefundUcError::PermissionDenied(1551), HttpStatusClass::Forbidden),
        (FinalizeRefundUcError::MissingRefundReq("d003bea7".to_string()), HttpStatusClass::NotFound),
        (FinalizeRefundUcError::MissingChargeId("d003bea7".to_string()), HttpStatusClass::NotFound),
        (FinalizeRefundUcError::DataStore(repo_err), HttpStatusClass::ServerError),
    ];
    for (e, class) in cases {
        assert_eq!(e.http_status_class(), class);
    }
    assert_eq!(AppErrorCode::InvalidInput.http_status_class(), Some(HttpStatusClass::BadRequest));
    assert_eq!(AppErrorCode::EmptyInputData.http_status_class(), Some(HttpStatusClass::BadRequest));
    assert_eq!(AppErrorCode::PermissionDenied.http_status_class(), Some(HttpStatusClass::Forbidden));
    assert_eq!(AppErrorCode::AcquireLockFailure.http_status_class(), Some(HttpStatusClass::ServerError));
    assert_eq!(AppErrorCode::RemoteDbServerFailure.http_status_class(), Some(HttpStatusClass::ServerError));
    assert_eq!(AppErrorCode::NotImplemented.http_status_class(), None);
}
