//! The decisions of importing an order spreadsheet: whether its header is
//! complete, which reader its customer's template asks for, and what the
//! rows come to.
use crate::error::{ERPError, ERPErrorView};
use crate::excel::columns::Layout;
use crate::excel::grouping::{build_groups, spec_build_groups, GroupCheck};
use crate::excel::reading::{
    groups_result_view, indexed_reading, indexed_result, SheetReading,
};
use crate::excel::rows::{read_sheet, read_sheet_exec, ReadOutcome};
use crate::excel::sheet::{downloads_view, Sheet};
use crate::model::order::{ExcelOrderGoodsWithItems, GoodsGroupView, OrderInfo};
use vstd::prelude::*;

verus! {

/// "客户编号未找到，请检查一下excel表格"
pub open spec fn no_customer_msg() -> Seq<char> {
    "客户编号未找到，请检查一下excel表格"@
}

/// "订单编号未找到，请检查一下excel表格"
pub open spec fn no_order_no_msg() -> Seq<char> {
    "订单编号未找到，请检查一下excel表格"@
}

/// A header can be stored only with a customer number and an order
/// number; the customer number is looked at first.
pub fn check_order_info(info: &OrderInfo) -> (r: Result<(), ERPError>)
    ensures
        info.customer_no@.len() == 0 ==> (r is Err && r->Err_0@ == ERPErrorView::Failed(
            no_customer_msg(),
        )),
        info.customer_no@.len() > 0 && info.order_no@.len() == 0 ==> (r is Err && r->Err_0@
            == ERPErrorView::Failed(no_order_no_msg())),
        info.customer_no@.len() > 0 && info.order_no@.len() > 0 ==> r is Ok,
{
    if info.customer_no.unicode_len() == 0 {
        return Err(ERPError::Failed(String::from_str("客户编号未找到，请检查一下excel表格")));
    }
    if info.order_no.unicode_len() == 0 {
        return Err(ERPError::Failed(String::from_str("订单编号未找到，请检查一下excel表格")));
    }
    Ok(())
}

/// "请先配置{customer_no}需要使用什么模版"
pub open spec fn no_template_msg(customer_no: Seq<char>) -> Seq<char> {
    "请先配置"@ + customer_no + "需要使用什么模版"@
}

/// The error for a customer with no spreadsheet template configured.
pub fn template_missing_err(customer_no: &str) -> (r: ERPError)
    ensures
        r@ == ERPErrorView::Failed(no_template_msg(customer_no@)),
{
    let mut s = String::from_str("请先配置");
    s.append(customer_no);
    s.append("需要使用什么模版");
    ERPError::Failed(s)
}

/// "读xlsx文件失败,不支持xls格式"
pub fn unreadable_workbook_err() -> (r: ERPError)
    ensures
        r@ == ERPErrorView::Failed("读xlsx文件失败,不支持xls格式"@),
{
    ERPError::Failed(String::from_str("读xlsx文件失败,不支持xls格式"))
}

/// "插入订单失败": the order of a spreadsheet could not be stored.
pub fn order_insert_failed_err() -> (r: ERPError)
    ensures
        r@ == ERPErrorView::Failed("插入订单失败"@),
{
    ERPError::Failed(String::from_str("插入订单失败"))
}

/// "覆盖订单信息失败": the order of a spreadsheet could not be updated.
pub fn order_update_failed_err() -> (r: ERPError)
    ensures
        r@ == ERPErrorView::Failed("覆盖订单信息失败"@),
{
    ERPError::Failed(String::from_str("覆盖订单信息失败"))
}

/// The layout that template `template_id` reads; any other template is
/// read as template 1.
pub open spec fn template_layout(template_id: i32) -> Layout {
    if template_id == 2 {
        Layout::T2
    } else if template_id == 3 {
        Layout::T3
    } else if template_id == 4 {
        Layout::T4
    } else {
        Layout::T1
    }
}

/// Template 2 has no goods numbers; the styles of every other template
/// need one goods number each.
pub open spec fn template_check(template_id: i32) -> GroupCheck {
    if template_id == 2 {
        GroupCheck::Nothing
    } else {
        GroupCheck::OneGoodsNo
    }
}

/// What the rows of an order sheet come to under template `template_id`:
/// the styles by ascending sequence number, or the first fault.
pub open spec fn order_items_result(sheet: &Sheet, template_id: i32, order_no: Seq<char>) -> Result<
    Seq<GoodsGroupView>,
    ERPErrorView,
> {
    match indexed_result(read_sheet(sheet, template_layout(template_id), order_no)) {
        Err(e) => Err(e),
        Ok(m) => spec_build_groups(m, template_check(template_id)),
    }
}

/// Reads the rows of an order sheet with the reader of its customer's
/// template, and turns them into styles.
pub fn parse_order_items(sheet: &Sheet, template_id: i32, order_no: &str) -> (r: SheetReading<
    Vec<ExcelOrderGoodsWithItems>,
>)
    requires
        sheet.rows < u32::MAX,
        sheet.cols < u32::MAX,
        read_sheet(sheet, template_layout(template_id), order_no@).outcome
            != ReadOutcome::Panicked,
    ensures
        groups_result_view(r.result) == order_items_result(sheet, template_id, order_no@),
        downloads_view(r.downloads@) == read_sheet(
            sheet,
            template_layout(template_id),
            order_no@,
        ).downloads,
{
    let layout = if template_id == 2 {
        Layout::T2
    } else if template_id == 3 {
        Layout::T3
    } else if template_id == 4 {
        Layout::T4
    } else {
        Layout::T1
    };
    let check = if template_id == 2 {
        GroupCheck::Nothing
    } else {
        GroupCheck::OneGoodsNo
    };
    let read = read_sheet_exec(sheet, layout, order_no);
    let indexed = indexed_reading(read);
    let result = match indexed.result {
        Err(e) => Err(e),
        Ok(m) => build_groups(&m, check),
    };
    SheetReading { result, downloads: indexed.downloads }
}


/// Reads the styles of an order sheet, or gives `None` where a row with
/// pictures names neither a goods number nor a SKU number to store them
/// by, so that reading gives up without an answer.
pub fn try_parse_order_items(sheet: &Sheet, template_id: i32, order_no: &str) -> (r: Option<
    SheetReading<Vec<ExcelOrderGoodsWithItems>>,
>)
    requires
        sheet.rows < u32::MAX,
        sheet.cols < u32::MAX,
    ensures
        match r {
            None => read_sheet(sheet, template_layout(template_id), order_no@).outcome
                == ReadOutcome::Panicked,
            Some(reading) => {
                &&& groups_result_view(reading.result) == order_items_result(
                    sheet,
                    template_id,
                    order_no@,
                )
                &&& downloads_view(reading.downloads@) == read_sheet(
                    sheet,
                    template_layout(template_id),
                    order_no@,
                ).downloads
            },
        },
{
    let layout = if template_id == 2 {
        Layout::T2
    } else if template_id == 3 {
        Layout::T3
    } else if template_id == 4 {
        Layout::T4
    } else {
        Layout::T1
    };
    let read = read_sheet_exec(sheet, layout, order_no);
    match read.outcome {
        ReadOutcome::Panicked => None,
        _ => Some(parse_order_items(sheet, template_id, order_no)),
    }
}

} // verus!
