//! How models are laid out in the in-memory data store.

pub mod product_price;
pub mod stock_level;
