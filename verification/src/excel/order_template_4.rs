//! The first reader of layout 4: every row, in sheet order.
use crate::excel::columns::Layout;
use crate::excel::reading::ItemsReading;
use crate::excel::rows::{read_sheet, read_sheet_exec};
use crate::excel::sheet::{downloads_view, Sheet};
use crate::model::order::items_view;
use vstd::prelude::*;

verus! {

/// Reads every item row of a layout-4 sheet, with the pictures to store.
pub fn parse_order_excel_t4(sheet: &Sheet) -> (r: ItemsReading)
    requires
        sheet.rows < u32::MAX,
        sheet.cols < u32::MAX,
    ensures
        items_view(r.items@) == read_sheet(sheet, Layout::Plain4, Seq::empty()).items,
        downloads_view(r.downloads@) == read_sheet(sheet, Layout::Plain4, Seq::empty()).downloads,
{
    proof {
        reveal_strlit("");
        assert(""@ =~= Seq::<char>::empty());
    }
    let read = read_sheet_exec(sheet, Layout::Plain4, "");
    ItemsReading { items: read.items, downloads: read.downloads }
}

} // verus!
