//! The user that the service's token belongs to.
use vstd::prelude::*;
use crate::hackmd::team::Team;

verus! {

/// A user of the service and the teams it belongs to.
#[derive(Debug)]
pub struct User {
    pub id: String,
    pub name: String,
    pub email: Option<String>,
    pub user_path: String,
    pub photo: String,
    pub teams: Vec<Team>,
}

} // verus!
