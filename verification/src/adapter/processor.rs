use vstd::prelude::*;

verus! {

/// Why a payment processor refused a call.
#[derive(Debug, Clone, PartialEq, Eq)]
pub enum AppProcessorErrorReason {
    InvalidMethod(String),
    MissingCurrency(u32),
    CredentialCorrupted,
    LowLvlNet(String),
    InvalidStoreProfileDto(String),
    ThirdParty(String),
    NotImplemented,
    NotSupport,
}

/// An error of a payment processor.
#[derive(Debug, Clone, PartialEq, Eq)]
pub struct AppProcessorError {
    pub reason: AppProcessorErrorReason,
}

} // verus!
