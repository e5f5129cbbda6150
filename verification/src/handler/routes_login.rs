//! Logging in with an account and its password.
use crate::error::{ERPError, ERPErrorView};
use crate::handler::sql::{between, between_i32};
use crate::model::account::AccountModel;
use crate::text::int_str;
use vstd::prelude::*;

verus! {

/// A login: the account name and its password.
#[derive(Debug)]
pub struct LoginPayload {
    pub account: String,
    pub password: String,
}

/// `select * from accounts where account='{account}'`
pub fn account_sql(account: &str) -> (r: String)
    ensures
        r@ == "select * from accounts where account='"@ + account@ + "'"@,
{
    between("select * from accounts where account='", account, "'")
}

/// `select * from departments where id={department_id}`
pub fn department_sql(department_id: i32) -> (r: String)
    ensures
        r@ == "select * from departments where id="@ + int_str(department_id as int),
{
    let r = between_i32("select * from departments where id=", department_id, "");
    proof {
        reveal_strlit("");
    }
    assert(r@ =~= "select * from departments where id="@ + int_str(department_id as int));
    r
}

/// A login succeeds for an account that exists and whose password is the
/// one given.
pub fn check_login(account: Option<AccountModel>, password: &str) -> (r: Result<AccountModel, ERPError>)
    ensures
        match account {
            None => r is Err && r->Err_0@ == ERPErrorView::NotFound("账号不存在"@),
            Some(a) => if a.password@ == password@ {
                r == Ok::<AccountModel, ERPError>(a)
            } else {
                r is Err && r->Err_0@ == ERPErrorView::LoginFailForPasswordIsWrong
            },
        },
{
    match account {
        None => Err(ERPError::NotFound(String::from_str("账号不存在"))),
        Some(a) => {
            if crate::text::str_eq(a.password.as_str(), password) {
                Ok(a)
            } else {
                Err(ERPError::LoginFailForPasswordIsWrong)
            }
        },
    }
}

} // verus!
