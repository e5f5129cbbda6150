//! Errors that the library's decisions can end in.
use vstd::prelude::*;

verus! {

/// The failures that the order, goods, customer and spreadsheet logic
/// reports. Database and request-decoding failures are raised by the
/// service around the library and never reach it.
#[derive(Debug)]
pub enum ERPError {
    LoginFail,
    LoginFailForPasswordIsWrong,
    NotAuthorized,
    AlreadyExists(String),
    NotFound(String),
    ParamNeeded(String),
    ParamError(String),
    SaveFileFailed(String),
    ConvertFailed(String),
    Failed(String),
    Collision(String),
    NoPermission(String),
    ExcelError(String),
}

pub type ERPResult<T> = Result<T, ERPError>;

/// An error with its message taken as a character sequence.
pub enum ERPErrorView {
    LoginFail,
    LoginFailForPasswordIsWrong,
    NotAuthorized,
    AlreadyExists(Seq<char>),
    NotFound(Seq<char>),
    ParamNeeded(Seq<char>),
    ParamError(Seq<char>),
    SaveFileFailed(Seq<char>),
    ConvertFailed(Seq<char>),
    Failed(Seq<char>),
    Collision(Seq<char>),
    NoPermission(Seq<char>),
    ExcelError(Seq<char>),
}

impl View for ERPError {
    type V = ERPErrorView;

    open spec fn view(&self) -> ERPErrorView {
        match self {
            ERPError::LoginFail => ERPErrorView::LoginFail,
            ERPError::LoginFailForPasswordIsWrong => ERPErrorView::LoginFailForPasswordIsWrong,
            ERPError::NotAuthorized => ERPErrorView::NotAuthorized,
            ERPError::AlreadyExists(m) => ERPErrorView::AlreadyExists(m@),
            ERPError::NotFound(m) => ERPErrorView::NotFound(m@),
            ERPError::ParamNeeded(m) => ERPErrorView::ParamNeeded(m@),
            ERPError::ParamError(m) => ERPErrorView::ParamError(m@),
            ERPError::SaveFileFailed(m) => ERPErrorView::SaveFileFailed(m@),
            ERPError::ConvertFailed(m) => ERPErrorView::ConvertFailed(m@),
            ERPError::Failed(m) => ERPErrorView::Failed(m@),
            ERPError::Collision(m) => ERPErrorView::Collision(m@),
            ERPError::NoPermission(m) => ERPErrorView::NoPermission(m@),
            ERPError::ExcelError(m) => ERPErrorView::ExcelError(m@),
        }
    }
}

/// What `format!("{:?}", s)` writes for a text: the text quoted, with
/// the characters that `str`'s `Debug` escapes escaped.
pub uninterp spec fn str_debug(s: Seq<char>) -> Seq<char>;

/// `format!("{:?}", s)`: the `Debug` form of a text. Nothing is claimed of
/// the result beyond that it is a function of the text.
#[verifier::external_body]
fn debug_quoted(s: &str) -> (r: String)
    ensures
        r@ == str_debug(s@),
{
    format!("{:?}", s)
}

/// The text an error is shown with.
pub open spec fn error_message(e: ERPErrorView) -> Seq<char> {
    match e {
        ERPErrorView::LoginFail => "login failed"@,
        ERPErrorView::LoginFailForPasswordIsWrong => "密码错误"@,
        ERPErrorView::NotAuthorized => "not authorized"@,
        ERPErrorView::AlreadyExists(m) => "data already exists: "@ + str_debug(m),
        ERPErrorView::NotFound(m) => "Not Found: "@ + str_debug(m),
        ERPErrorView::ParamNeeded(m) => "parameter lost: "@ + str_debug(m),
        ERPErrorView::ParamError(m) => m,
        ERPErrorView::SaveFileFailed(m) => m,
        ERPErrorView::ConvertFailed(m) => "Param type conversion Failed: "@ + str_debug(m),
        ERPErrorView::Failed(m) => m,
        ERPErrorView::Collision(m) => "collision: "@ + m,
        ERPErrorView::NoPermission(m) => m,
        ERPErrorView::ExcelError(m) => m,
    }
}

fn prefixed(prefix: &str, rest: String) -> (r: String)
    ensures
        r@ == prefix@ + rest@,
{
    let mut r = String::from_str(prefix);
    r.append(rest.as_str());
    r
}

impl ERPError {
    /// The text the error is shown with.
    pub fn message(&self) -> (r: String)
        ensures
            r@ == error_message(self@),
    {
        match self {
            ERPError::LoginFail => String::from_str("login failed"),
            ERPError::LoginFailForPasswordIsWrong => String::from_str("密码错误"),
            ERPError::NotAuthorized => String::from_str("not authorized"),
            ERPError::AlreadyExists(m) => prefixed("data already exists: ", debug_quoted(m.as_str())),
            ERPError::NotFound(m) => prefixed("Not Found: ", debug_quoted(m.as_str())),
            ERPError::ParamNeeded(m) => prefixed("parameter lost: ", debug_quoted(m.as_str())),
            ERPError::ParamError(m) => m.clone(),
            ERPError::SaveFileFailed(m) => m.clone(),
            ERPError::ConvertFailed(m) => prefixed(
                "Param type conversion Failed: ",
                debug_quoted(m.as_str()),
            ),
            ERPError::Failed(m) => m.clone(),
            ERPError::Collision(m) => prefixed("collision: ", m.clone()),
            ERPError::NoPermission(m) => m.clone(),
            ERPError::ExcelError(m) => m.clone(),
        }
    }
}

/// A result with its value and error taken by their views.
pub open spec fn result_view<T: View>(r: Result<T, ERPError>) -> Result<T::V, ERPErrorView> {
    match r {
        Ok(v) => Ok(v@),
        Err(e) => Err(e@),
    }
}

} // verus!
