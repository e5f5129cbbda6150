//! The very first order reader: every row, in sheet order, with the
//! customer's own order number in column 3.
use crate::excel::columns::Layout;
use crate::excel::reading::ItemsReading;
use crate::excel::rows::{read_sheet, read_sheet_exec};
use crate::excel::sheet::{downloads_view, Sheet};
use crate::model::order::items_view;
use vstd::prelude::*;

verus! {

/// Reads every item row of the active sheet of a workbook, with the
/// pictures to store.
pub fn read_umya_sheet(sheet: &Sheet) -> (r: ItemsReading)
    requires
        sheet.rows < u32::MAX,
        sheet.cols < u32::MAX,
    ensures
        items_view(r.items@) == read_sheet(sheet, Layout::Umya, Seq::empty()).items,
        downloads_view(r.downloads@) == read_sheet(sheet, Layout::Umya, Seq::empty()).downloads,
{
    proof {
        reveal_strlit("");
        assert(""@ =~= Seq::<char>::empty());
    }
    let read = read_sheet_exec(sheet, Layout::Umya, "");
    ItemsReading { items: read.items, downloads: read.downloads }
}

} // verus!
