use vstd::prelude::*;

verus! {

/// Label of the order service in routes.
pub const LABAL: &'static str = "order";

/// Seed of the identifier generator on this machine.
pub const MACHINE_CODE: u8 = 1;

/// Code of the order service in resource quotas.
pub const RESOURCE_QUOTA_AP_CODE: u8 = 4;

} // verus!
