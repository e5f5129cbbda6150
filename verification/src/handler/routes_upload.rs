//! Where uploaded spreadsheets and pictures are stored, and the address a
//! stored picture is served at; names come from the time of the upload.
use crate::constants::{STORAGE_FILE_PATH, STORAGE_URL_PREFIX};
use crate::error::{ERPError, ERPErrorView};
use crate::text::{int_str, nat_str, parse_i32, push_char, push_i32, push_nat, spec_parse_i32};
use vstd::prelude::*;

verus! {

/// `{:02}`: at least two digits, a leading zero where needed.
pub open spec fn pad2(n: nat) -> Seq<char> {
    if n < 10 {
        seq!['0'] + nat_str(n)
    } else {
        nat_str(n)
    }
}

fn push_pad2(s: &mut String, n: u32)
    ensures
        final(s)@ == old(s)@ + pad2(n as nat),
{
    if n < 10 {
        push_char(s, '0');
    }
    push_nat(s, n as u64);
    assert(final(s)@ =~= old(s)@ + pad2(n as nat));
}

/// A calendar date and time of day as plain numbers.
#[derive(Debug, Clone, Copy, PartialEq, Eq, Structural)]
pub struct Moment {
    pub year: i32,
    pub month: u32,
    pub day: u32,
    pub hour: u32,
    pub minute: u32,
    pub second: u32,
}

/// `{year}{month:02}{day:02}`
pub open spec fn date_part(t: Moment) -> Seq<char> {
    int_str(t.year as int) + pad2(t.month as nat) + pad2(t.day as nat)
}

/// `{year}{month:02}{day:02}{hour:02}{minute:02}{second:02}`
pub open spec fn stamp(t: Moment) -> Seq<char> {
    date_part(t) + pad2(t.hour as nat) + pad2(t.minute as nat) + pad2(t.second as nat)
}

fn push_date_part(s: &mut String, t: Moment)
    ensures
        final(s)@ == old(s)@ + date_part(t),
{
    push_i32(s, t.year);
    push_pad2(s, t.month);
    push_pad2(s, t.day);
    assert(final(s)@ =~= old(s)@ + date_part(t));
}

fn push_stamp(s: &mut String, t: Moment)
    ensures
        final(s)@ == old(s)@ + stamp(t),
{
    push_date_part(s, t);
    push_pad2(s, t.hour);
    push_pad2(s, t.minute);
    push_pad2(s, t.second);
    assert(final(s)@ =~= old(s)@ + stamp(t));
}

/// The directory of the spreadsheets uploaded on the day of `t`.
pub fn excel_dir_path(t: Moment) -> (r: String)
    ensures
        r@ == STORAGE_FILE_PATH@ + date_part(t),
{
    let mut r = String::from_str(STORAGE_FILE_PATH);
    push_date_part(&mut r, t);
    r
}

/// The name of a spreadsheet uploaded at `t`.
pub fn excel_file_name(t: Moment) -> (r: String)
    ensures
        r@ == stamp(t) + ".xlsx"@,
{
    let mut r = String::new();
    push_stamp(&mut r, t);
    r.append(".xlsx");
    assert(r@ =~= stamp(t) + ".xlsx"@);
    r
}

/// The directory of the pictures uploaded on the day of `t`.
pub fn image_dir_path(t: Moment) -> (r: String)
    ensures
        r@ == STORAGE_FILE_PATH@ + "images/"@ + date_part(t),
{
    let mut r = String::from_str(STORAGE_FILE_PATH);
    r.append("images/");
    push_date_part(&mut r, t);
    r
}

/// The name of a picture uploaded at `t`.
pub fn image_file_name(t: Moment) -> (r: String)
    ensures
        r@ == stamp(t) + ".png"@,
{
    let mut r = String::new();
    push_stamp(&mut r, t);
    r.append(".png");
    assert(r@ =~= stamp(t) + ".png"@);
    r
}

/// The address that a stored picture is served at.
pub fn image_url(file_name: &str) -> (r: String)
    ensures
        r@ == STORAGE_URL_PREFIX@ + "images/"@ + file_name@,
{
    let mut r = String::from_str(STORAGE_URL_PREFIX);
    r.append("images/");
    r.append(file_name);
    r
}

/// `{dir}/{name}`
pub fn file_in_dir(dir: &str, name: &str) -> (r: String)
    ensures
        r@ == dir@ + "/"@ + name@,
{
    let mut r = String::from_str(dir);
    r.append("/");
    r.append(name);
    r
}

/// "create {path} failed"
pub fn save_failed_err(path: &str) -> (r: ERPError)
    ensures
        r@ == ERPErrorView::SaveFileFailed("create "@ + path@ + " failed"@),
{
    let mut s = String::from_str("create ");
    s.append(path);
    s.append(" failed");
    ERPError::SaveFileFailed(s)
}

/// "文件存储失败": an upload without a file.
pub fn no_image_err() -> (r: ERPError)
    ensures
        r@ == ERPErrorView::SaveFileFailed("文件存储失败"@),
{
    ERPError::SaveFileFailed(String::from_str("文件存储失败"))
}

/// The template type sent with a spreadsheet, which must be a number.
pub fn upload_type(value: &str) -> (r: Result<i32, ERPError>)
    ensures
        match spec_parse_i32(value@) {
            Some(x) => r == Ok::<i32, ERPError>(x),
            None => r is Err && r->Err_0@ == ERPErrorView::ConvertFailed("type"@),
        },
{
    match parse_i32(value) {
        Some(x) => Ok(x),
        None => Err(ERPError::ConvertFailed(String::from_str("type"))),
    }
}

/// A spreadsheet upload must have stored a file.
pub fn check_upload_saved(file_path: &str) -> (r: Result<(), ERPError>)
    ensures
        file_path@.len() == 0 <==> r is Err,
        r is Err ==> r->Err_0@ == ERPErrorView::Failed("save excel file failed"@),
{
    if file_path.unicode_len() == 0 {
        Err(ERPError::Failed(String::from_str("save excel file failed")))
    } else {
        Ok(())
    }
}

/// A spreadsheet's order must not have been imported before.
pub fn check_not_imported(order_existed: bool) -> (r: Result<(), ERPError>)
    ensures
        order_existed <==> r is Err,
        r is Err ==> r->Err_0@ == ERPErrorView::AlreadyExists("订单已经导入"@),
{
    if order_existed {
        Err(ERPError::AlreadyExists(String::from_str("订单已经导入")))
    } else {
        Ok(())
    }
}

} // verus!
