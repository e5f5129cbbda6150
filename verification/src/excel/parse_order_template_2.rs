//! Layout 2: rows named by SKU number, with any number of pictures of the
//! goods and one of the package card.
use crate::error::ERPErrorView;
use crate::excel::columns::Layout;
use crate::excel::reading::{indexed_reading, indexed_result, map_result_view, SheetReading};
use crate::excel::rows::{read_sheet, read_sheet_exec, ReadOutcome};
use crate::excel::sheet::{downloads_view, Sheet};
use crate::model::order::{OrderItemExcel, OrderItemExcelView};
use std::collections::HashMap;
use vstd::prelude::*;

verus! {

/// What a layout-2 sheet comes to: its rows filed by sequence number, or
/// the row that stops the reading.
pub open spec fn t2_result(sheet: &Sheet) -> Result<Map<i32, Seq<OrderItemExcelView>>, ERPErrorView> {
    indexed_result(read_sheet(sheet, Layout::T2, Seq::empty()))
}

/// Reads the rows of a layout-2 sheet, filed by sequence number, with the
/// pictures to store. A row with neither a goods number nor a SKU number
/// has nothing to name its pictures by, and is not accepted.
pub fn parse_order_excel_t2(sheet: &Sheet) -> (r: SheetReading<HashMap<i32, Vec<OrderItemExcel>>>)
    requires
        sheet.rows < u32::MAX,
        sheet.cols < u32::MAX,
        read_sheet(sheet, Layout::T2, Seq::empty()).outcome != ReadOutcome::Panicked,
    ensures
        map_result_view(r.result) == t2_result(sheet),
        downloads_view(r.downloads@) == read_sheet(sheet, Layout::T2, Seq::empty()).downloads,
{
    proof {
        reveal_strlit("");
        assert(""@ =~= Seq::<char>::empty());
    }
    let read = read_sheet_exec(sheet, Layout::T2, "");
    indexed_reading(read)
}

} // verus!
