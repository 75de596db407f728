//! The decisions of the use cases, apart from the input and output around
//! them.

pub mod create_order;
pub mod discard_unpaid;
pub mod finalize_refund;
pub mod sync_refund_req;
