//! Synchronisation of refund requests: the payment service pulls from the
//! order service what was returned since it last asked, and moves its
//! watermark only when all of it was taken in.

use crate::adapter::repository::AppRepoError;
use crate::model::refund::{
    refund_lines_parsed, OLineRefundModel, OrderLineReplicaRefundDto, OrderRefundModel,
    RefundModelError,
};
use crate::time::{rfc3339_text, Timestamp};
use vstd::prelude::*;
use vstd::string::StringExecFns;

verus! {

/// Route of the remote call that asks the order service for refunds.
pub const ROUTE_SYNC_REFUND: &'static str = "rpc.order.order_returned_replica_refund";

/// Why a synchronisation failed.
#[derive(Debug, Clone, PartialEq, Eq)]
pub enum SyncRefundReqUcError {
    Rpc(String),
    Datastore(AppRepoError),
    CorruptedRefundReq(String),
    ModelFailure(Vec<RefundModelError>),
}

/// What the order service sends back: returned lines by order.
pub type OrderReplicaRefundDto = Vec<(String, Vec<OrderLineReplicaRefundDto>)>;

/// The span of time that is asked about, both ends in RFC 3339.
#[derive(Debug, Clone, PartialEq, Eq)]
pub struct OrderReplicaRefundReqDto {
    pub start: String,
    pub end: String,
}

/// A remote call to send: who sends it and when, where it goes, and what
/// it asks.
#[derive(Debug, Clone, PartialEq, Eq)]
pub struct AppRpcClientRequest {
    pub usr_id: u32,
    pub time: Timestamp,
    pub route: String,
    pub body: OrderReplicaRefundReqDto,
}

/// Where a synchronisation stands.
#[derive(Debug, Clone, Copy, PartialEq, Eq, Structural)]
pub enum SyncRefundState {
    Start,
    AwaitLastSynced { time_end: Timestamp },
    AwaitClient { time_start: Timestamp, time_end: Timestamp },
    AwaitSent { time_end: Timestamp },
    AwaitReply { time_end: Timestamp },
    AwaitDecoded { time_end: Timestamp },
    AwaitSaved { time_end: Timestamp },
    AwaitTimeUpdated,
    Done,
}

/// What happened outside since the last step.
#[derive(Debug)]
pub enum SyncRefundEvent {
    /// The clock was read.
    Now(Timestamp),
    /// The repository gave the time of the last synchronisation, or failed.
    LastSynced(Result<Timestamp, AppRepoError>),
    /// A client for remote calls was acquired, or not.
    ClientAcquired(bool),
    /// The request was sent, or not.
    RequestSent(bool),
    /// A reply was received, or not.
    ReplyReceived(bool),
    /// The reply was read, or could not be read for the reason given.
    ReplyDecoded(Result<OrderReplicaRefundDto, String>),
    /// The repository stored the refund requests, or failed.
    RequestSaved(Result<(), AppRepoError>),
    /// The repository moved the watermark, or failed.
    SyncedTimeUpdated(Result<(), AppRepoError>),
}

/// What to do outside next.
#[derive(Debug)]
pub enum SyncRefundAction {
    FetchLastSynced,
    AcquireClient,
    SendRequest(AppRpcClientRequest),
    ReceiveReply,
    DecodeReply,
    SaveRequest(Vec<OrderRefundModel>),
    UpdateSyncedTime(Timestamp),
    Finish(Result<(), SyncRefundReqUcError>),
}

/// The refund request of one order as mathematical content.
pub type RefundRequest = (Seq<char>, Seq<OLineRefundModel>);

/// The refund requests held in a vector.
pub open spec fn requests_view(v: Seq<OrderRefundModel>) -> Seq<RefundRequest> {
    Seq::new(v.len(), |i: int| (v[i].order_id@, v[i].lines@))
}

/// The refund requests that the first `upto` orders of a reply stand for,
/// those left out whose lines are badly written.
pub open spec fn converted(map: Seq<(String, Vec<OrderLineReplicaRefundDto>)>, upto: int) -> Seq<
    RefundRequest,
>
    decreases upto,
{
    if upto <= 0 {
        Seq::empty()
    } else {
        let before = converted(map, upto - 1);
        let (oid, lines) = map[upto - 1];
        match refund_lines_parsed(lines@, lines@.len() as int) {
            Ok(parsed) => before.push((oid@, parsed)),
            Err(_) => before,
        }
    }
}

/// What is wrong with the first `upto` orders of a reply: for each order
/// with a badly written line, the fault of its first such line.
pub open spec fn convert_errors(
    map: Seq<(String, Vec<OrderLineReplicaRefundDto>)>,
    upto: int,
) -> Seq<RefundModelError>
    decreases upto,
{
    if upto <= 0 {
        Seq::empty()
    } else {
        let before = convert_errors(map, upto - 1);
        let (oid, lines) = map[upto - 1];
        match refund_lines_parsed(lines@, lines@.len() as int) {
            Ok(_) => before,
            Err(e) => before.push(e),
        }
    }
}

/// The use case of synchronising refund requests.
#[derive(Debug, Clone, Copy)]
pub struct SyncRefundReqUseCase;

impl SyncRefundReqUseCase {
    /// Turns a reply of the order service into refund requests, all of
    /// them or none: where a line of any order is badly written, the faults
    /// of all such orders are reported.
    pub fn try_convert_model(map: OrderReplicaRefundDto) -> (r: Result<
        Vec<OrderRefundModel>,
        SyncRefundReqUcError,
    >)
        ensures
            match r {
                Ok(ms) => convert_errors(map@, map@.len() as int).len() == 0 && requests_view(ms@)
                    == converted(map@, map@.len() as int),
                Err(e) => e matches SyncRefundReqUcError::ModelFailure(errs) && errs@.len() > 0
                    && errs@ == convert_errors(map@, map@.len() as int),
            },
    {
        let ghost map0 = map@;
        let total = map.len();
        let mut map = map;
        let mut errs: Vec<RefundModelError> = Vec::new();
        let mut refund_ms: Vec<OrderRefundModel> = Vec::new();
        let mut done: usize = 0;
        while map.len() > 0
            invariant
                done + map@.len() == total,
                total == map0.len(),
                map@ == map0.subrange(done as int, total as int),
                errs@ == convert_errors(map0, done as int),
                requests_view(refund_ms@) == converted(map0, done as int),
            decreases map.len(),
        {
            let (oid, refund_d) = map.remove(0);
            match OrderRefundModel::try_from(oid, refund_d) {
                Ok(m) => {
                    refund_ms.push(m);
                },
                Err(e) => {
                    errs.push(e);
                },
            }
            done += 1;
        }
        if errs.len() == 0 {
            Ok(refund_ms)
        } else {
            Err(SyncRefundReqUcError::ModelFailure(errs))
        }
    }

    /// The remote call that asks for the refunds between two times.  There
    /// is none where a time cannot be written as a date.
    pub fn request(time_start: &Timestamp, time_end: &Timestamp) -> (r: Option<AppRpcClientRequest>)
        ensures
            match (
                rfc3339_text(time_start.secs, time_start.nanos, time_start.offset),
                rfc3339_text(time_end.secs, time_end.nanos, time_end.offset),
            ) {
                (Some(start), Some(end)) => r matches Some(req) && req.usr_id == 0 && req.time
                    == *time_end && req.route@ == "rpc.order.order_returned_replica_refund"@
                    && req.body.start@ == start && req.body.end@ == end,
                _ => r is None,
            },
    {
        let start = match time_start.to_rfc3339() {
            Some(t) => t,
            None => {
                return None;
            },
        };
        let end = match time_end.to_rfc3339() {
            Some(t) => t,
            None => {
                return None;
            },
        };
        Some(
            AppRpcClientRequest {
                usr_id: 0,
                time: *time_end,
                route: String::from_str(ROUTE_SYNC_REFUND),
                body: OrderReplicaRefundReqDto { start, end },
            },
        )
    }

    /// Takes the synchronisation one step further: given where it stands
    /// and what happened outside, says where it stands now and what to do
    /// next.
    ///
    /// The steps are: read the clock; fetch the time of the last
    /// synchronisation; acquire a client; send the request for the span
    /// from then to now; receive the reply; read it; store the refund
    /// requests; move the watermark to now.  A failure ends the
    /// synchronisation with its error; so does an event that the state does
    /// not wait for.  The refund requests are stored only if all of them
    /// could be read, and the watermark is moved only once they were
    /// stored.
    pub fn step(state: SyncRefundState, event: SyncRefundEvent) -> (r: (
        SyncRefundState,
        SyncRefundAction,
    ))
        ensures
            match (state, event) {
                (SyncRefundState::Start, SyncRefundEvent::Now(t)) => r.0
                    == (SyncRefundState::AwaitLastSynced { time_end: t }) && r.1
                    == SyncRefundAction::FetchLastSynced,
                (
                    SyncRefundState::AwaitLastSynced { time_end },
                    SyncRefundEvent::LastSynced(Ok(time_start)),
                ) => r.0 == (SyncRefundState::AwaitClient { time_start, time_end }) && r.1
                    == SyncRefundAction::AcquireClient,
                (SyncRefundState::AwaitLastSynced { .. }, SyncRefundEvent::LastSynced(Err(e))) => r.0
                    == SyncRefundState::Done && r.1 == SyncRefundAction::Finish(
                    Err(SyncRefundReqUcError::Datastore(e)),
                ),
                (
                    SyncRefundState::AwaitClient { time_start, time_end },
                    SyncRefundEvent::ClientAcquired(true),
                ) => match (
                    rfc3339_text(time_start.secs, time_start.nanos, time_start.offset),
                    rfc3339_text(time_end.secs, time_end.nanos, time_end.offset),
                ) {
                    (Some(start), Some(end)) => r.0 == (SyncRefundState::AwaitSent { time_end })
                        && (r.1 matches SyncRefundAction::SendRequest(req) && req.usr_id == 0
                        && req.time == time_end && req.route@
                        == "rpc.order.order_returned_replica_refund"@ && req.body.start@ == start
                        && req.body.end@ == end),
                    _ => r.0 == SyncRefundState::Done && is_rpc_failure(r.1, "time-range"@),
                },
                (SyncRefundState::AwaitClient { .. }, SyncRefundEvent::ClientAcquired(false)) => r.0
                    == SyncRefundState::Done && is_rpc_failure(r.1, "client-conn-error"@),
                (SyncRefundState::AwaitSent { time_end }, SyncRefundEvent::RequestSent(true)) => r.0
                    == (SyncRefundState::AwaitReply { time_end }) && r.1
                    == SyncRefundAction::ReceiveReply,
                (SyncRefundState::AwaitSent { .. }, SyncRefundEvent::RequestSent(false)) => r.0
                    == SyncRefundState::Done && is_rpc_failure(r.1, "send-req-fail"@),
                (SyncRefundState::AwaitReply { time_end }, SyncRefundEvent::ReplyReceived(true)) => r.0
                    == (SyncRefundState::AwaitDecoded { time_end }) && r.1
                    == SyncRefundAction::DecodeReply,
                (SyncRefundState::AwaitReply { .. }, SyncRefundEvent::ReplyReceived(false)) => r.0
                    == SyncRefundState::Done && is_rpc_failure(r.1, "recv-resp-fail"@),
                (
                    SyncRefundState::AwaitDecoded { time_end },
                    SyncRefundEvent::ReplyDecoded(Ok(map)),
                ) => if convert_errors(map@, map@.len() as int).len() == 0 {
                    r.0 == (SyncRefundState::AwaitSaved { time_end }) && (
                    r.1 matches SyncRefundAction::SaveRequest(ms) && requests_view(ms@)
                        == converted(map@, map@.len() as int))
                } else {
                    r.0 == SyncRefundState::Done && (r.1 matches SyncRefundAction::Finish(
                        Err(SyncRefundReqUcError::ModelFailure(errs)),
                    ) && errs@ == convert_errors(map@, map@.len() as int))
                },
                (SyncRefundState::AwaitDecoded { .. }, SyncRefundEvent::ReplyDecoded(Err(why))) => r.0
                    == SyncRefundState::Done && r.1 == SyncRefundAction::Finish(
                    Err(SyncRefundReqUcError::CorruptedRefundReq(why)),
                ),
                (SyncRefundState::AwaitSaved { time_end }, SyncRefundEvent::RequestSaved(Ok(_))) => r.0
                    == SyncRefundState::AwaitTimeUpdated && r.1
                    == SyncRefundAction::UpdateSyncedTime(time_end),
                (SyncRefundState::AwaitSaved { .. }, SyncRefundEvent::RequestSaved(Err(e))) => r.0
                    == SyncRefundState::Done && r.1 == SyncRefundAction::Finish(
                    Err(SyncRefundReqUcError::Datastore(e)),
                ),
                (SyncRefundState::AwaitTimeUpdated, SyncRefundEvent::SyncedTimeUpdated(Ok(_))) => r.0
                    == SyncRefundState::Done && r.1 == SyncRefundAction::Finish(Ok(())),
                (SyncRefundState::AwaitTimeUpdated, SyncRefundEvent::SyncedTimeUpdated(Err(e))) => r.0
                    == SyncRefundState::Done && r.1 == SyncRefundAction::Finish(
                    Err(SyncRefundReqUcError::Datastore(e)),
                ),
                _ => r.0 == SyncRefundState::Done && is_rpc_failure(r.1, "unexpected-event"@),
            },
            r.1 is UpdateSyncedTime ==> state is AwaitSaved && (
            event matches SyncRefundEvent::RequestSaved(Ok(_))),
            r.1 is SaveRequest ==> state is AwaitDecoded && (
            event matches SyncRefundEvent::ReplyDecoded(Ok(map)) && convert_errors(
                map@,
                map@.len() as int,
            ).len() == 0),
    {
        match (state, event) {
            (SyncRefundState::Start, SyncRefundEvent::Now(t)) => (
                SyncRefundState::AwaitLastSynced { time_end: t },
                SyncRefundAction::FetchLastSynced,
            ),
            (
                SyncRefundState::AwaitLastSynced { time_end },
                SyncRefundEvent::LastSynced(Ok(time_start)),
            ) => (
                SyncRefundState::AwaitClient { time_start, time_end },
                SyncRefundAction::AcquireClient,
            ),
            (SyncRefundState::AwaitLastSynced { .. }, SyncRefundEvent::LastSynced(Err(e))) => (
                SyncRefundState::Done,
                SyncRefundAction::Finish(Err(SyncRefundReqUcError::Datastore(e))),
            ),
            (
                SyncRefundState::AwaitClient { time_start, time_end },
                SyncRefundEvent::ClientAcquired(true),
            ) => match Self::request(&time_start, &time_end) {
                Some(req) => (
                    SyncRefundState::AwaitSent { time_end },
                    SyncRefundAction::SendRequest(req),
                ),
                None => (SyncRefundState::Done, rpc_failure("time-range")),
            },
            (SyncRefundState::AwaitClient { .. }, SyncRefundEvent::ClientAcquired(false)) => (
                SyncRefundState::Done,
                rpc_failure("client-conn-error"),
            ),
            (SyncRefundState::AwaitSent { time_end }, SyncRefundEvent::RequestSent(true)) => (
                SyncRefundState::AwaitReply { time_end },
                SyncRefundAction::ReceiveReply,
            ),
            (SyncRefundState::AwaitSent { .. }, SyncRefundEvent::RequestSent(false)) => (
                SyncRefundState::Done,
                rpc_failure("send-req-fail"),
            ),
            (SyncRefundState::AwaitReply { time_end }, SyncRefundEvent::ReplyReceived(true)) => (
                SyncRefundState::AwaitDecoded { time_end },
                SyncRefundAction::DecodeReply,
            ),
            (SyncRefundState::AwaitReply { .. }, SyncRefundEvent::ReplyReceived(false)) => (
                SyncRefundState::Done,
                rpc_failure("recv-resp-fail"),
            ),
            (SyncRefundState::AwaitDecoded { time_end }, SyncRefundEvent::ReplyDecoded(Ok(map))) => {
                match Self::try_convert_model(map) {
                    Ok(ms) => (
                        SyncRefundState::AwaitSaved { time_end },
                        SyncRefundAction::SaveRequest(ms),
                    ),
                    Err(e) => (SyncRefundState::Done, SyncRefundAction::Finish(Err(e))),
                }
            },
            (SyncRefundState::AwaitDecoded { .. }, SyncRefundEvent::ReplyDecoded(Err(why))) => (
                SyncRefundState::Done,
                SyncRefundAction::Finish(Err(SyncRefundReqUcError::CorruptedRefundReq(why))),
            ),
            (SyncRefundState::AwaitSaved { time_end }, SyncRefundEvent::RequestSaved(Ok(_))) => (
                SyncRefundState::AwaitTimeUpdated,
                SyncRefundAction::UpdateSyncedTime(time_end),
            ),
            (SyncRefundState::AwaitSaved { .. }, SyncRefundEvent::RequestSaved(Err(e))) => (
                SyncRefundState::Done,
                SyncRefundAction::Finish(Err(SyncRefundReqUcError::Datastore(e))),
            ),
            (SyncRefundState::AwaitTimeUpdated, SyncRefundEvent::SyncedTimeUpdated(Ok(_))) => (
                SyncRefundState::Done,
                SyncRefundAction::Finish(Ok(())),
            ),
            (SyncRefundState::AwaitTimeUpdated, SyncRefundEvent::SyncedTimeUpdated(Err(e))) => (
                SyncRefundState::Done,
                SyncRefundAction::Finish(Err(SyncRefundReqUcError::Datastore(e))),
            ),
            _ => (SyncRefundState::Done, rpc_failure("unexpected-event")),
        }
    }
}

/// Whether the action ends the synchronisation with a failure of the
/// remote call, described by `why`.
pub open spec fn is_rpc_failure(action: SyncRefundAction, why: Seq<char>) -> bool {
    action matches SyncRefundAction::Finish(Err(SyncRefundReqUcError::Rpc(msg))) && msg@ == why
}

fn rpc_failure(why: &str) -> (a: SyncRefundAction)
    ensures
        is_rpc_failure(a, why@),
{
    SyncRefundAction::Finish(Err(SyncRefundReqUcError::Rpc(String::from_str(why))))
}

} // verus!
