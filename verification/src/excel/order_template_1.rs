//! The first reader of layout 1: every row, in sheet order.
use crate::error::{ERPError, ERPErrorView};
use crate::excel::columns::Layout;
use crate::excel::grouping::{find_mixed_group, mixed_group, repeated_index_err, repeated_index_msg};
use crate::excel::reading::ItemsReading;
use crate::excel::rows::{read_sheet, read_sheet_exec};
use crate::excel::sheet::{downloads_view, Sheet};
use crate::model::order::{items_view, OrderItemExcel};
use vstd::prelude::*;

verus! {

/// Reads every item row of a layout-1 sheet, with the pictures to store.
pub fn parse_order_excel_t1(sheet: &Sheet) -> (r: ItemsReading)
    requires
        sheet.rows < u32::MAX,
        sheet.cols < u32::MAX,
    ensures
        items_view(r.items@) == read_sheet(sheet, Layout::Plain1, Seq::empty()).items,
        downloads_view(r.downloads@) == read_sheet(sheet, Layout::Plain1, Seq::empty()).downloads,
{
    proof {
        reveal_strlit("");
        assert(""@ =~= Seq::<char>::empty());
    }
    let read = read_sheet_exec(sheet, Layout::Plain1, "");
    ItemsReading { items: read.items, downloads: read.downloads }
}

/// Checks that no sequence number is shared by rows of different goods
/// numbers: a repeated number, or a totals row read as an item.
pub fn checking_order_items_excel_1(order_items_excel: &Vec<OrderItemExcel>) -> (r: Result<
    (),
    ERPError,
>)
    ensures
        match r {
            Ok(_) => forall|k: i32| !mixed_group(items_view(order_items_excel@), k),
            Err(e) => exists|k: i32|
                mixed_group(items_view(order_items_excel@), k) && e@ == ERPErrorView::ExcelError(
                    repeated_index_msg(k),
                ),
        },
{
    match find_mixed_group(order_items_excel.as_slice()) {
        Some(k) => Err(repeated_index_err(k)),
        None => Ok(()),
    }
}

} // verus!
