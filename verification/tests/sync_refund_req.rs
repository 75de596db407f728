use ecommerce_core::adapter::repository::{AppRepoError, AppRepoErrorDetail, AppRepoErrorFnLabel};
use ecommerce_core::constant::api::rpc::extract_handler_label;
use ecommerce_core::constant::ProductType;
use ecommerce_core::error::AppErrorCode;
use ecommerce_core::model::money::Decimal;
use ecommerce_core::model::order::BaseProductIdentity;
use ecommerce_core::model::refund::{
    OrderLineReplicaRefundDto, OrderRefundModel, PayAmountDto, RefundModelError,
};
use ecommerce_core::time::Timestamp;
use ecommerce_core::usecase::sync_refund_req::{
    OrderReplicaRefundDto, SyncRefundAction, SyncRefundEvent, SyncRefundReqUcError,
    SyncRefundReqUseCase, SyncRefundState, ROUTE_SYNC_REFUND,
};

fn ut_line(seller_id: u32, product_id: u64, create_time: &str, unit: &str, total: &str, qty: u32) -> OrderLineReplicaRefundDto {
    OrderLineReplicaRefundDto {
        seller_id,
        product_id,
        product_type: ProductType::Item,
        create_time: create_time.to_string(),
        amount: PayAmountDto { unit: unit.to_string(), total: total.to_string() },
        qty,
    }
}

fn ut_reply_ok() -> OrderReplicaRefundDto {
    vec![
        (
            "d003bea7".to_string(),
            vec![
                ut_line(127, 8299, "2024-09-17T20:35:09+00:00", "32.5", "65.0", 2),
                ut_line(127, 8454, "2024-09-17T20:25:09.500+08:00", "90.9", "636.3", 7),
            ],
        ),
        ("a01b738f".to_string(), vec![ut_line(130, 11, "2024-09-17T20:15:09Z", "4", "12", 3)]),
    ]
}

fn ut_repo_error(fn_label: AppRepoErrorFnLabel) -> AppRepoError {
    AppRepoError {
        fn_label,
        code: AppErrorCode::RemoteDbServerFailure,
        detail: AppRepoErrorDetail::DatabaseExec("unit-test".to_string()),
    }
}

struct UTestRun {
    calls: Vec<String>,
    saved: Vec<OrderRefundModel>,
    synced_time: Option<Timestamp>,
    result: Option<Result<(), SyncRefundReqUcError>>,
}

fn ut_run(
    now: Timestamp,
    last_synced: Result<Timestamp, AppRepoError>,
    client_ok: bool,
    sent_ok: bool,
    received_ok: bool,
    decoded: Result<OrderReplicaRefundDto, String>,
    save_result: Result<(), AppRepoError>,
    update_result: Result<(), AppRepoError>,
) -> UTestRun {
    let mut run = UTestRun { calls: vec![], saved: vec![], synced_time: None, result: None };
    let mut last_synced = Some(last_synced);
    let mut decoded = Some(decoded);
    let mut save_result = Some(save_result);
    let mut update_result = Some(update_result);
    let mut state = SyncRefundState::Start;
    let mut event = SyncRefundEvent::Now(now);
    for _ in 0..16 {
        let (next, action) = SyncRefundReqUseCase::step(state, event);
        state = next;
        event = match action {
            SyncRefundAction::FetchLastSynced => {
                run.calls.push("last_time_synced".to_string());
                SyncRefundEvent::LastSynced(last_synced.take().unwrap())
            }
            SyncRefundAction::AcquireClient => {
                run.calls.push("acquire".to_string());
                SyncRefundEvent::ClientAcquired(client_ok)
            }
            SyncRefundAction::SendRequest(req) => {
                run.calls.push(format!(
                    "send {} {} {} {} {}",
                    req.usr_id,
                    req.time.secs,
                    req.route,
                    req.body.start,
                    req.body.end
                ));
                SyncRefundEvent::RequestSent(sent_ok)
            }
            SyncRefundAction::ReceiveReply => {
                run.calls.push("receive".to_string());
                SyncRefundEvent::ReplyReceived(received_ok)
            }
            SyncRefundAction::DecodeReply => {
                run.calls.push("decode".to_string());
                SyncRefundEvent::ReplyDecoded(decoded.take().unwrap())
            }
            SyncRefundAction::SaveRequest(ms) => {
                run.calls.push("save_request".to_string());
                run.saved = ms;
                SyncRefundEvent::RequestSaved(save_result.take().unwrap())
            }
            SyncRefundAction::UpdateSyncedTime(t) => {
                run.calls.push("update_synced_time".to_string());
                run.synced_time = Some(t);
                SyncRefundEvent::SyncedTimeUpdated(update_result.take().unwrap())
            }
            SyncRefundAction::Finish(r) => {
                assert_eq!(state, SyncRefundState::Done);
                run.result = Some(r);
                return run;
            }
        };
    }
    panic!("the synchronisation did not finish");
}

fn ut_t0() -> Timestamp {
    Timestamp::parse_rfc3339("2024-09-17T20:00:00+00:00").unwrap()
}

fn ut_t_end() -> Timestamp {
    Timestamp::parse_rfc3339("2024-09-17T20:54:09.561+00:00").unwrap()
}

#[test]
fn sync_refund_watermark_moves_after_all_was_saved() {
    let run = ut_run(ut_t_end(), Ok(ut_t0()), true, true, true, Ok(ut_reply_ok()), Ok(()), Ok(()));
    assert_eq!(run.result, Some(Ok(())));
    assert_eq!(
        run.calls,
        vec![
            "last_time_synced",
            "acquire",
            "send 0 1726606449 rpc.order.order_returned_replica_refund 2024-09-17T20:00:00+00:00 2024-09-17T20:54:09.561+00:00",
            "receive",
            "decode",
            "save_request",
            "update_synced_time",
        ]
    );
    assert_eq!(run.saved.len(), 2);
    assert_eq!(run.saved[0].order_id, "d003bea7");
    assert_eq!(run.saved[0].lines.len(), 2);
    assert_eq!(run.saved[0].lines[1].amount.total, Decimal::new(6363, 1));
    assert_eq!(run.saved[0].lines[1].create_time.offset, 8 * 3600);
    assert_eq!(run.saved[1].order_id, "a01b738f");
    assert_eq!(run.saved[1].lines[0].qty, 3);
    assert_eq!(run.synced_time, Some(ut_t_end()));
    assert_eq!(extract_handler_label(ROUTE_SYNC_REFUND).unwrap(), "order_returned_replica_refund");
}

#[test]
fn sync_refund_watermark_stays_when_a_line_is_badly_written() {
    let mut reply = ut_reply_ok();
    reply[1].1[0].create_time = "yesterday".to_string();
    reply.push(("ffff".to_string(), vec![ut_line(9, 5, "2024-09-17T20:15:09Z", "x", "12", 3)]));
    let run = ut_run(ut_t_end(), Ok(ut_t0()), true, true, true, Ok(reply), Ok(()), Ok(()));
    let pid = |store_id, product_id| BaseProductIdentity { store_id, product_type: ProductType::Item, product_id };
    assert_eq!(
        run.result,
        Some(Err(SyncRefundReqUcError::ModelFailure(vec![
            RefundModelError::InvalidCreateTime(pid(130, 11)),
            RefundModelError::InvalidAmount(pid(9, 5)),
        ])))
    );
    assert!(run.saved.is_empty());
    assert!(run.synced_time.is_none());
    assert_eq!(run.calls.last().unwrap(), "decode");
}

#[test]
fn sync_refund_failures_end_the_run() {
    let err = ut_repo_error(AppRepoErrorFnLabel::RefundGetTimeSynced);
    let run = ut_run(ut_t_end(), Err(err.clone()), true, true, true, Ok(vec![]), Ok(()), Ok(()));
    assert_eq!(run.result, Some(Err(SyncRefundReqUcError::Datastore(err))));
    assert_eq!(run.calls, vec!["last_time_synced"]);

    let run = ut_run(ut_t_end(), Ok(ut_t0()), false, true, true, Ok(vec![]), Ok(()), Ok(()));
    assert_eq!(run.result, Some(Err(SyncRefundReqUcError::Rpc("client-conn-error".to_string()))));

    let run = ut_run(ut_t_end(), Ok(ut_t0()), true, false, true, Ok(vec![]), Ok(()), Ok(()));
    assert_eq!(run.result, Some(Err(SyncRefundReqUcError::Rpc("send-req-fail".to_string()))));

    let run = ut_run(ut_t_end(), Ok(ut_t0()), true, true, false, Ok(vec![]), Ok(()), Ok(()));
    assert_eq!(run.result, Some(Err(SyncRefundReqUcError::Rpc("recv-resp-fail".to_string()))));

    let why = "expected value at line 1 column 1".to_string();
    let run = ut_run(ut_t_end(), Ok(ut_t0()), true, true, true, Err(why.clone()), Ok(()), Ok(()));
    assert_eq!(run.result, Some(Err(SyncRefundReqUcError::CorruptedRefundReq(why))));
    assert!(run.synced_time.is_none());

    let err = ut_repo_error(AppRepoErrorFnLabel::RefundSaveReq);
    let run = ut_run(ut_t_end(), Ok(ut_t0()), true, true, true, Ok(ut_reply_ok()), Err(err.clone()), Ok(()));
    assert_eq!(run.result, Some(Err(SyncRefundReqUcError::Datastore(err))));
    assert_eq!(run.saved.len(), 2);
    assert!(run.synced_time.is_none());

    let err = ut_repo_error(AppRepoErrorFnLabel::RefundUpdateTimeSynced);
    let run = ut_run(ut_t_end(), Ok(ut_t0()), true, true, true, Ok(ut_reply_ok()), Ok(()), Err(err.clone()));
    assert_eq!(run.result, Some(Err(SyncRefundReqUcError::Datastore(err))));

    let run = ut_run(Timestamp::new(i64::MAX, 0, 0), Ok(ut_t0()), true, true, true, Ok(vec![]), Ok(()), Ok(()));
    assert_eq!(run.result, Some(Err(SyncRefundReqUcError::Rpc("time-range".to_string()))));
}

#[test]
fn sync_refund_refuses_events_out_of_turn() {
    let (state, action) = SyncRefundReqUseCase::step(SyncRefundState::Start, SyncRefundEvent::RequestSaved(Ok(())));
    assert_eq!(state, SyncRefundState::Done);
    match action {
        SyncRefundAction::Finish(Err(SyncRefundReqUcError::Rpc(why))) => assert_eq!(why, "unexpected-event"),
        _ => panic!("the event was accepted"),
    }
    let (state, action) = SyncRefundReqUseCase::step(
        SyncRefundState::AwaitDecoded { time_end: ut_t_end() },
        SyncRefundEvent::SyncedTimeUpdated(Ok(())),
    );
    assert_eq!(state, SyncRefundState::Done);
    assert!(matches!(action, SyncRefundAction::Finish(Err(SyncRefundReqUcError::Rpc(_)))));
    let (state, _) = SyncRefundReqUseCase::step(SyncRefundState::Done, SyncRefundEvent::Now(ut_t_end()));
    assert_eq!(state, SyncRefundState::Done);
}

#[test]
fn try_convert_model_takes_all_or_nothing() {
    let ms = SyncRefundReqUseCase::try_convert_model(ut_reply_ok()).unwrap();
    assert_eq!(ms.len(), 2);
    assert_eq!(ms[0].lines[0].pid, BaseProductIdentity { store_id: 127, product_type: ProductType::Item, product_id: 8299 });
    assert_eq!(ms[0].lines[0].amount.unit, Decimal::new(325, 1));
    assert_eq!(ms[0].lines[0].create_time, Timestamp::parse_rfc3339("2024-09-17T20:35:09+00:00").unwrap());
    assert!(SyncRefundReqUseCase::try_convert_model(vec![]).unwrap().is_empty());
    let empty_order = vec![("d003bea7".to_string(), vec![])];
    assert_eq!(SyncRefundReqUseCase::try_convert_model(empty_order).unwrap()[0].lines.len(), 0);
    let req = SyncRefundReqUseCase::request(&ut_t0(), &ut_t_end()).unwrap();
    assert_eq!(req.body.start, "2024-09-17T20:00:00+00:00");
    assert_eq!(req.time, ut_t_end());
}
