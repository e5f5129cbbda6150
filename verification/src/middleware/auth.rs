//! Who is asking: the account named by the request's cookie.
use crate::error::{ERPError, ERPErrorView};
use crate::text::{parse_i32_or_zero, spec_parse_i32};
use vstd::prelude::*;

verus! {

/// The body of a refusal.
#[derive(Debug)]
pub struct ErrorResponse {
    pub status: &'static str,
    pub message: String,
}

/// The account id that the `account_id` cookie names: its value read as
/// a number, 0 where it is not one. A request without the cookie is not
/// authorized.
pub fn account_id_of_cookie(value: Option<&str>) -> (r: Result<i32, ERPError>)
    ensures
        match value {
            None => r is Err && r->Err_0@ == ERPErrorView::NotAuthorized,
            Some(v) => r == Ok::<i32, ERPError>(
                match spec_parse_i32(v@) {
                    Some(x) => x,
                    None => 0,
                },
            ),
        },
{
    match value {
        None => Err(ERPError::NotAuthorized),
        Some(v) => Ok(parse_i32_or_zero(v)),
    }
}

/// The refusal of a request whose account or its department is missing.
pub fn account_missing_err() -> (r: ERPError)
    ensures
        r@ == ERPErrorView::NotFound("账号不存在"@),
{
    ERPError::NotFound(String::from_str("账号不存在"))
}

} // verus!
