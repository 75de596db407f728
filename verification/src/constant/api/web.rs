use vstd::prelude::*;

verus! {

pub const ADD_PRODUCT_POLICY: &'static str = "modify_product_policy";

pub const CREATE_NEW_ORDER: &'static str = "create_new_order";

pub const ACCESS_EXISTING_ORDER: &'static str = "access_existing_order";

pub const RETURN_OLINES_REQ: &'static str = "return_lines_request";

pub const RETRIEVE_CART_LINES: &'static str = "retrieve_cart_lines";

pub const MODIFY_CART_LINES: &'static str = "modify_cart_lines";

pub const DISCARD_CART: &'static str = "discard_cart";

} // verus!
