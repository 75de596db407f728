//! Whom an order is billed and shipped to.

use crate::error::{AppError, AppErrorCode};
use vstd::prelude::*;

verus! {

/// A phone number with the code of its nation.
#[derive(Debug, Clone, PartialEq, Eq)]
pub struct PhoneNumberModel {
    pub nation: u16,
    pub number: String,
}

/// A person to contact.
#[derive(Debug, Clone, PartialEq, Eq)]
pub struct ContactModel {
    pub first_name: String,
    pub last_name: String,
    pub emails: Vec<String>,
    pub phones: Vec<PhoneNumberModel>,
}

/// Countries that orders are shipped to.
#[derive(Debug, Clone, Copy, PartialEq, Eq, Hash, Structural)]
pub enum CountryCode {
    TW,
    TH,
    IN,
    ID,
    US,
    Unknown,
}

/// A postal address.
#[derive(Debug, Clone, PartialEq, Eq)]
pub struct PhyAddrModel {
    pub country: CountryCode,
    pub region: String,
    pub city: String,
    pub distinct: String,
    pub street_name: Option<String>,
    pub detail: String,
}

/// Carriers.
#[derive(Debug, Clone, Copy, PartialEq, Eq, Hash, Structural)]
pub enum ShippingMethod {
    UPS,
    FedEx,
    BlackCatExpress,
    Unknown,
}

/// How the goods of one seller are shipped.
#[derive(Debug, Clone, Copy, PartialEq, Eq, Structural)]
pub struct ShippingOptionModel {
    pub seller_id: u32,
    pub method: ShippingMethod,
}

/// Whom an order is billed to.
#[derive(Debug, Clone, PartialEq, Eq)]
pub struct BillingModel {
    pub contact: ContactModel,
    pub address: Option<PhyAddrModel>,
}

/// Whom an order is shipped to, and how.
#[derive(Debug, Clone, PartialEq, Eq)]
pub struct ShippingModel {
    pub contact: ContactModel,
    pub address: Option<PhyAddrModel>,
    pub option: Vec<ShippingOptionModel>,
}

impl ShippingModel {
    /// Accepts shipping with at least one option; shipping without any is
    /// refused as empty input.
    pub fn validate(&self) -> (r: Result<(), AppError>)
        ensures
            self.option@.len() > 0 <==> r is Ok,
            r matches Err(e) ==> e.is(AppErrorCode::EmptyInputData, "shipping-option"@),
    {
        if self.option.len() > 0 {
            Ok(())
        } else {
            Err(AppError::new(AppErrorCode::EmptyInputData, shipping_option_label()))
        }
    }
}

fn shipping_option_label() -> (r: String)
    ensures
        r@ == "shipping-option"@,
{
    "shipping-option".to_owned()
}

} // verus!
