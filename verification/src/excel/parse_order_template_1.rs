//! Layout 1: numbered styles with one row per colour. Every style needs a
//! goods number in column 3.
use crate::error::ERPErrorView;
use crate::excel::columns::Layout;
use crate::excel::grouping::GroupCheck;
use crate::excel::reading::{
    grouped_reading, grouped_result, groups_result_view, lemma_read_sheet_never_gives_up,
    SheetReading,
};
use crate::excel::rows::{read_sheet, read_sheet_exec};
use crate::excel::sheet::{downloads_view, Sheet};
use crate::model::order::{ExcelOrderGoodsWithItems, GoodsGroupView};
use vstd::prelude::*;

verus! {

/// What a layout-1 sheet comes to: its styles by ascending sequence
/// number, or the first fault.
pub open spec fn t1_result(sheet: &Sheet) -> Result<Seq<GoodsGroupView>, ERPErrorView> {
    grouped_result(read_sheet(sheet, Layout::T1, Seq::empty()), GroupCheck::HasGoodsNo)
}

/// Reads the styles of a layout-1 sheet, with the pictures to store.
pub fn parse_order_excel_t1(sheet: &Sheet) -> (r: SheetReading<Vec<ExcelOrderGoodsWithItems>>)
    requires
        sheet.rows < u32::MAX,
        sheet.cols < u32::MAX,
    ensures
        groups_result_view(r.result) == t1_result(sheet),
        downloads_view(r.downloads@) == read_sheet(sheet, Layout::T1, Seq::empty()).downloads,
{
    proof {
        reveal_strlit("");
        assert(""@ =~= Seq::<char>::empty());
        lemma_read_sheet_never_gives_up(sheet, Layout::T1, Seq::empty());
    }
    let read = read_sheet_exec(sheet, Layout::T1, "");
    grouped_reading(read, GroupCheck::HasGoodsNo)
}

} // verus!
