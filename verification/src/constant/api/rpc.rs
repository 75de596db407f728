//! Routes of remote calls: `rpc.<service>.<handler>`.

use crate::error::{AppError, AppErrorCode};
use crate::text::{chars_of, dec_string, dec_text, split_ranges, split_text, str_eq};
use vstd::prelude::*;
use vstd::string::{StrSliceExecFns, StringExecFns};

verus! {

pub const EDIT_PRODUCT_PRICE: &'static str = "update_store_products";

pub const STOCK_LEVEL_EDIT: &'static str = "stock_level_edit";

pub const STOCK_RETURN_CANCELLED: &'static str = "stock_return_cancelled";

pub const ORDER_RSV_READ_INVENTORY: &'static str = "order_reserved_replica_inventory";

pub const ORDER_RSV_READ_PAYMENT: &'static str = "order_reserved_replica_payment";

pub const ORDER_RET_READ_REFUND: &'static str = "order_returned_replica_refund";

pub const ORDER_RSV_UPDATE_PAYMENT: &'static str = "order_reserved_update_payment";

pub const ORDER_RSV_DISCARD_UNPAID: &'static str = "order_reserved_discard_unpaid";

/// Whether `label` names one of the handlers of the order service.
pub open spec fn is_handler_label(label: Seq<char>) -> bool {
    ||| label == "update_store_products"@
    ||| label == "stock_level_edit"@
    ||| label == "stock_return_cancelled"@
    ||| label == "order_reserved_replica_inventory"@
    ||| label == "order_reserved_replica_payment"@
    ||| label == "order_returned_replica_refund"@
    ||| label == "order_reserved_update_payment"@
    ||| label == "order_reserved_discard_unpaid"@
}

/// The handler that a route names, or the detail of the error that says
/// what is wrong with the route.
pub open spec fn route_outcome(path: Seq<char>) -> Result<Seq<char>, Seq<char>> {
    let tokens = split_text(path, '.');
    if tokens.len() != 3 {
        Err("incorrect-format, tokens-length:"@ + dec_text(tokens.len()))
    } else if tokens[0] != "rpc"@ {
        Err("incorrect-header:"@ + tokens[0])
    } else if tokens[1] != "order"@ {
        Err("incorrect-service:"@ + tokens[1])
    } else if !is_handler_label(tokens[2]) {
        Err("incorrect-handler:"@ + tokens[2])
    } else {
        Ok(tokens[2])
    }
}

fn refuse(label: &str, rest: &str) -> (e: AppError)
    ensures
        e.is(AppErrorCode::InvalidInput, label@ + rest@),
{
    AppError::new(AppErrorCode::InvalidInput, String::from_str(label).concat(rest))
}

/// Reads the handler label out of a route.
///
/// A route is three tokens separated by dots.  The first must be `rpc`, the
/// second the label of the order service, the third one of its handlers;
/// any other route is refused as invalid input.
pub fn extract_handler_label<'a>(path: &'a str) -> (r: Result<&'a str, AppError>)
    ensures
        match route_outcome(path@) {
            Ok(h) => r matches Ok(label) && label@ == h,
            Err(d) => r matches Err(e) && e.is(AppErrorCode::InvalidInput, d),
        },
{
    let cs = chars_of(path);
    let tokens = split_ranges(&cs, '.');
    if tokens.len() == 3 {
        let t0 = tokens[0];
        let t1 = tokens[1];
        let t2 = tokens[2];
        match check_header_label(path.substring_char(t0.0, t0.1)) {
            Ok(()) => {},
            Err(e) => {
                return Err(e);
            },
        }
        match check_service_label(path.substring_char(t1.0, t1.1)) {
            Ok(()) => {},
            Err(e) => {
                return Err(e);
            },
        }
        check_hdlr_label(path.substring_char(t2.0, t2.1))
    } else {
        let n = dec_string(tokens.len() as u64);
        Err(refuse("incorrect-format, tokens-length:", n.as_str()))
    }
}

/// Accepts the first token of a route if it is `rpc`.
pub fn check_header_label(label: &str) -> (r: Result<(), AppError>)
    ensures
        label@ == "rpc"@ <==> r is Ok,
        r matches Err(e) ==> e.is(AppErrorCode::InvalidInput, "incorrect-header:"@ + label@),
{
    if str_eq(label, "rpc") {
        Ok(())
    } else {
        Err(refuse("incorrect-header:", label))
    }
}

/// Accepts the second token of a route if it is the label of the order
/// service.
pub fn check_service_label(label: &str) -> (r: Result<(), AppError>)
    ensures
        label@ == "order"@ <==> r is Ok,
        r matches Err(e) ==> e.is(AppErrorCode::InvalidInput, "incorrect-service:"@ + label@),
{
    if str_eq(label, "order") {
        Ok(())
    } else {
        Err(refuse("incorrect-service:", label))
    }
}

/// Accepts the third token of a route if it names a handler, and hands it
/// back.
pub fn check_hdlr_label<'a>(label: &'a str) -> (r: Result<&'a str, AppError>)
    ensures
        is_handler_label(label@) <==> r is Ok,
        r matches Ok(l) ==> l@ == label@,
        r matches Err(e) ==> e.is(AppErrorCode::InvalidInput, "incorrect-handler:"@ + label@),
{
    let valid_labels = [
        "update_store_products",
        "stock_level_edit",
        "stock_return_cancelled",
        "order_reserved_replica_inventory",
        "order_reserved_replica_payment",
        "order_returned_replica_refund",
        "order_reserved_update_payment",
        "order_reserved_discard_unpaid",
    ];
    let mut i: usize = 0;
    while i < 8
        invariant
            i <= 8,
            valid_labels@.len() == 8,
            valid_labels@[0]@ == "update_store_products"@,
            valid_labels@[1]@ == "stock_level_edit"@,
            valid_labels@[2]@ == "stock_return_cancelled"@,
            valid_labels@[3]@ == "order_reserved_replica_inventory"@,
            valid_labels@[4]@ == "order_reserved_replica_payment"@,
            valid_labels@[5]@ == "order_returned_replica_refund"@,
            valid_labels@[6]@ == "order_reserved_update_payment"@,
            valid_labels@[7]@ == "order_reserved_discard_unpaid"@,
            forall|k: int| 0 <= k < i ==> (#[trigger] valid_labels@[k])@ != label@,
        decreases 8 - i,
    {
        if str_eq(valid_labels[i], label) {
            return Ok(label);
        }
        i += 1;
    }
    Err(refuse("incorrect-handler:", label))
}

} // verus!
