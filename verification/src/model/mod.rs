//! Domain models of the order and payment services.

pub mod charge;
pub mod contact;
pub mod merchant;
pub mod money;
pub mod order;
pub mod product_policy;
pub mod product_price;
pub mod refund;
pub mod stock;
pub mod stock_laws;
