//! Transactional core of an e-commerce back office: order identifiers,
//! stock reservation, charge and refund bookkeeping, and the storage
//! encodings that the order, payment and staff-portal services share.

pub mod adapter;
pub mod constant;
pub mod datastore;
pub mod error;
pub mod model;
pub mod oid;
pub mod repository;
pub mod text;
pub mod time;
pub mod usecase;
