//! Teams of the service.
use vstd::prelude::*;

verus! {

/// A team that a user belongs to.
#[derive(Debug)]
pub struct Team {
    pub id: String,
    pub owner_id: String,
    pub path: String,
    pub name: String,
    pub logo: String,
    pub description: String,
    pub visibility: String,
    pub created_at: u64,
}

} // verus!
