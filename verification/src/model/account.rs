//! Accounts and the departments they belong to.
use vstd::prelude::*;

verus! {

/// A row of the `accounts` table.
#[derive(Debug)]
pub struct AccountModel {
    pub id: i32,
    pub name: String,
    pub account: String,
    pub password: String,
    pub department_id: i32,
}

/// A row of the `departments` table.
#[derive(Debug)]
pub struct DepartmentModel {
    pub id: i32,
    pub name: String,
}

} // verus!
