use crate::error::AppErrorCode;
use crate::model::refund::RefundModelError;
use vstd::prelude::*;

verus! {

/// The repository operation that failed.
#[derive(Debug, Clone, Copy, PartialEq, Eq, Structural)]
pub enum AppRepoErrorFnLabel {
    CreateOrder,
    CreateCharge,
    FetchChargeMeta,
    FetchAllChargeLines,
    UpdateChargeProgress,
    FetchChargeByMerchant,
    UpdateChargeLinesRefund,
    FetchMerchant,
    RefundGetTimeSynced,
    RefundUpdateTimeSynced,
    RefundSaveReq,
    ResolveRefundReq,
}

/// What a repository says of its failure.
#[derive(Debug, Clone, PartialEq, Eq)]
pub enum AppRepoErrorDetail {
    DatabaseExec(String),
    DatabaseQuery(String),
    DataRowParse(String),
    RefundResolution(Vec<RefundModelError>),
    Unknown,
}

/// An error of a repository.
#[derive(Debug, Clone, PartialEq, Eq)]
pub struct AppRepoError {
    pub fn_label: AppRepoErrorFnLabel,
    pub code: AppErrorCode,
    pub detail: AppRepoErrorDetail,
}

} // verus!
