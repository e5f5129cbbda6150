//! What the service tells about an account.
use crate::model::account::{AccountModel, DepartmentModel};
use vstd::prelude::*;

verus! {

/// An account with the name of its department; the password stays behind.
#[derive(Debug)]
pub struct AccountDto {
    pub id: i32,
    pub name: String,
    pub account: String,
    pub department_id: i32,
    pub department: String,
}

impl AccountDto {
    pub fn from(account: AccountModel, department: DepartmentModel) -> (r: AccountDto)
        ensures
            r.id == account.id,
            r.name == account.name,
            r.account == account.account,
            r.department_id == department.id,
            r.department == department.name,
    {
        AccountDto {
            id: account.id,
            name: account.name,
            account: account.account,
            department_id: department.id,
            department: department.name,
        }
    }
}

} // verus!
