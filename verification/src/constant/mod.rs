//! Names, limits and small enumerations shared by the services.

pub mod api;
pub mod app_meta;
pub mod limit;
pub mod logging;
pub mod product_type;

pub use product_type::ProductType;

use vstd::prelude::*;

verus! {

/// Media type of request and response bodies.
pub const HTTP_CONTENT_TYPE_JSON: &'static str = "application/json";

} // verus!
