//! Merchants and the staff that may act for them.

use crate::time::Timestamp;
use vstd::prelude::*;

verus! {

/// Why a merchant profile could not be made.
#[derive(Debug, Clone, Copy, PartialEq, Eq, Structural)]
pub enum MerchantModelError {
    /// The name is empty.
    EmptyName,
    /// The supervisor is not among the staff.
    SupervisorNotStaff,
}

/// The profile of a merchant.  The name is not empty and the supervisor is
/// one of the staff.
#[derive(Debug, Clone)]
pub struct MerchantProfileModel {
    id: u32,
    name: String,
    supervisor_id: u32,
    staff_ids: Vec<u32>,
    last_update: Timestamp,
}

impl MerchantProfileModel {
    pub closed spec fn id(&self) -> u32 {
        self.id
    }

    pub closed spec fn name(&self) -> Seq<char> {
        self.name@
    }

    pub closed spec fn supervisor(&self) -> u32 {
        self.supervisor_id
    }

    /// The users that may act for the merchant.
    pub closed spec fn staff(&self) -> Seq<u32> {
        self.staff_ids@
    }

    pub closed spec fn created(&self) -> Timestamp {
        self.last_update
    }

    /// The invariant of merchant profiles.
    pub open spec fn wf(&self) -> bool {
        self.name().len() > 0 && self.staff().contains(self.supervisor())
    }

    /// Makes the profile of merchant `id`.
    pub fn try_new(
        id: u32,
        name: String,
        supervisor_id: u32,
        staff_ids: Vec<u32>,
        created: Timestamp,
    ) -> (r: Result<MerchantProfileModel, MerchantModelError>)
        ensures
            match r {
                Ok(m) => m.wf() && m.id() == id && m.name() == name@ && m.supervisor()
                    == supervisor_id && m.staff() == staff_ids@ && m.created() == created,
                Err(e) => e == (if name@.len() == 0 {
                    MerchantModelError::EmptyName
                } else {
                    MerchantModelError::SupervisorNotStaff
                }) && (name@.len() == 0 || !staff_ids@.contains(supervisor_id)),
            },
    {
        if name.as_str().unicode_len() == 0 {
            return Err(MerchantModelError::EmptyName);
        }
        if !contains_user(&staff_ids, supervisor_id) {
            return Err(MerchantModelError::SupervisorNotStaff);
        }
        Ok(MerchantProfileModel { id, name, supervisor_id, staff_ids, last_update: created })
    }

    pub fn merchant_id(&self) -> (r: u32)
        ensures
            r == self.id(),
    {
        self.id
    }

    /// Whether user `usr_id` may act for the merchant.
    pub fn valid_staff(&self, usr_id: u32) -> (r: bool)
        ensures
            r == self.staff().contains(usr_id),
    {
        contains_user(&self.staff_ids, usr_id)
    }
}

fn contains_user(ids: &Vec<u32>, usr_id: u32) -> (r: bool)
    ensures
        r == ids@.contains(usr_id),
{
    let mut i: usize = 0;
    while i < ids.len()
        invariant
            i <= ids.len(),
            forall|k: int| 0 <= k < i ==> ids@[k] != usr_id,
        decreases ids.len() - i,
    {
        if ids[i] == usr_id {
            return true;
        }
        i += 1;
    }
    false
}

} // verus!
