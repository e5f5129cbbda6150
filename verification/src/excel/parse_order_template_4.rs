//! Layout 4: SKU and goods numbers, sizes, and pictures of the goods and
//! of the notes, stored under names that carry the order number.
use crate::error::ERPErrorView;
use crate::excel::columns::Layout;
use crate::excel::reading::{indexed_reading, indexed_result, map_result_view, SheetReading};
use crate::excel::rows::{read_sheet, read_sheet_exec, ReadOutcome};
use crate::excel::sheet::{downloads_view, Sheet};
use crate::model::order::{OrderItemExcel, OrderItemExcelView};
use std::collections::HashMap;
use vstd::prelude::*;

verus! {

/// What a layout-4 sheet of order `order_no` comes to: its rows filed by
/// sequence number, or the row that stops the reading.
pub open spec fn t4_result(sheet: &Sheet, order_no: Seq<char>) -> Result<
    Map<i32, Seq<OrderItemExcelView>>,
    ERPErrorView,
> {
    indexed_result(read_sheet(sheet, Layout::T4, order_no))
}

/// Reads the rows of a layout-4 sheet of order `order_no`, filed by
/// sequence number, with the pictures to store. A row with neither a goods
/// number nor a SKU number is not accepted.
pub fn parse_order_excel_t4(sheet: &Sheet, order_no: &str) -> (r: SheetReading<
    HashMap<i32, Vec<OrderItemExcel>>,
>)
    requires
        sheet.rows < u32::MAX,
        sheet.cols < u32::MAX,
        read_sheet(sheet, Layout::T4, order_no@).outcome != ReadOutcome::Panicked,
    ensures
        map_result_view(r.result) == t4_result(sheet, order_no@),
        downloads_view(r.downloads@) == read_sheet(sheet, Layout::T4, order_no@).downloads,
{
    let read = read_sheet_exec(sheet, Layout::T4, order_no);
    indexed_reading(read)
}

} // verus!
