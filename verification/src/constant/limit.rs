use vstd::prelude::*;

verus! {

pub const MAX_ITEMS_STORED_PER_MODEL: u32 = 2200u32;

pub const MAX_ORDER_LINES_PER_REQUEST: usize = 65535;

pub const MAX_DB_CONNECTIONS: u32 = 10000u32;

pub const MAX_SECONDS_DB_IDLE: u16 = 600u16;

pub const MIN_SECS_INTVL_REQ: u16 = 3;

pub const MAX_NUM_CARTS_PER_USER: u8 = 5;

} // verus!
