//! The outcome of reading a spreadsheet: a result, and the pictures that
//! have to be copied out of the sheet whatever the result.
use crate::error::{ERPError, ERPErrorView};
use crate::excel::columns::Layout;
use crate::excel::grouping::{
    build_groups, group_by_index, index_map_of, index_map_view, spec_build_groups, GroupCheck,
};
use crate::excel::rows::{read_rows, read_sheet, ReadOutcome, RowsOut, RowsRead};
use crate::excel::sheet::{downloads_view, ImageDownload, ImageDownloadView, Sheet};
use crate::text::{nat_str, push_nat};
use crate::model::order::{groups_view, ExcelOrderGoodsWithItems, GoodsGroupView, OrderItemExcel, OrderItemExcelView};
use std::collections::HashMap;
use vstd::prelude::*;

verus! {

/// What reading a sheet gives: the answer, and the pictures to store.
#[derive(Debug)]
pub struct SheetReading<T> {
    pub result: Result<T, ERPError>,
    pub downloads: Vec<ImageDownload>,
}

/// The rows of a sheet that is read whole, and the pictures to store.
#[derive(Debug)]
pub struct ItemsReading {
    pub items: Vec<OrderItemExcel>,
    pub downloads: Vec<ImageDownload>,
}

/// A list of styles or an error, taken by their views.
pub open spec fn groups_result_view(r: Result<Vec<ExcelOrderGoodsWithItems>, ERPError>) -> Result<
    Seq<GoodsGroupView>,
    ERPErrorView,
> {
    match r {
        Ok(v) => Ok(groups_view(v@)),
        Err(e) => Err(e@),
    }
}

/// Rows filed by sequence number, or an error, taken by their views.
pub open spec fn map_result_view(r: Result<HashMap<i32, Vec<OrderItemExcel>>, ERPError>) -> Result<
    Map<i32, Seq<OrderItemExcelView>>,
    ERPErrorView,
> {
    match r {
        Ok(m) => Ok(index_map_view(m@)),
        Err(e) => Err(e@),
    }
}

/// "第{row}行可能有空行，因为没有读到index的数据"
pub open spec fn blank_row_msg(row: u32) -> Seq<char> {
    "第"@ + nat_str(row as nat) + "行可能有空行，因为没有读到index的数据"@
}

pub open spec fn blank_row_error(row: u32) -> ERPErrorView {
    ERPErrorView::ExcelError(blank_row_msg(row))
}

pub fn blank_row_err(row: u32) -> (r: ERPError)
    ensures
        r@ == blank_row_error(row),
{
    let mut s = String::from_str("第");
    push_nat(&mut s, row as u64);
    s.append("行可能有空行，因为没有读到index的数据");
    ERPError::ExcelError(s)
}

/// Layouts whose rows always name their pictures.
pub open spec fn never_gives_up(layout: Layout) -> bool {
    layout == Layout::T1 || layout == Layout::Plain1 || layout == Layout::Plain4 || layout
        == Layout::Umya
}

/// A layout whose rows always name their pictures never gives up on a
/// sheet, however many of its rows are read.
pub proof fn lemma_never_gives_up(sheet: &Sheet, layout: Layout, order_no: Seq<char>, upto: int)
    requires
        never_gives_up(layout),
    ensures
        read_rows(sheet, layout, order_no, upto).outcome != ReadOutcome::Panicked,
    decreases upto,
{
    if upto >= 7 {
        lemma_never_gives_up(sheet, layout, order_no, upto - 1);
    }
}

/// The layouts without sequence-number checks read every row of a sheet.
pub proof fn lemma_reads_all(sheet: &Sheet, layout: Layout, order_no: Seq<char>, upto: int)
    requires
        layout == Layout::Plain1 || layout == Layout::Plain4 || layout == Layout::Umya,
    ensures
        read_rows(sheet, layout, order_no, upto).outcome == ReadOutcome::Running,
    decreases upto,
{
    if upto >= 7 {
        lemma_reads_all(sheet, layout, order_no, upto - 1);
    }
}

/// Reading a whole sheet in a layout whose rows always name their
/// pictures never gives up.
pub proof fn lemma_read_sheet_never_gives_up(sheet: &Sheet, layout: Layout, order_no: Seq<char>)
    requires
        never_gives_up(layout),
    ensures
        read_sheet(sheet, layout, order_no).outcome != ReadOutcome::Panicked,
{
    lemma_never_gives_up(sheet, layout, order_no, sheet.rows as int);
}

/// The rows filed by sequence number, or the row that has none.
pub open spec fn indexed_result(read: RowsRead) -> Result<
    Map<i32, Seq<OrderItemExcelView>>,
    ERPErrorView,
> {
    match read.outcome {
        ReadOutcome::Failed(row) => Err(blank_row_error(row)),
        _ => Ok(index_map_of(read.items)),
    }
}

/// The styles of the rows, by ascending sequence number, or the row that
/// has no sequence number, or the first group that fails `check`.
pub open spec fn grouped_result(read: RowsRead, check: GroupCheck) -> Result<
    Seq<GoodsGroupView>,
    ERPErrorView,
> {
    match read.outcome {
        ReadOutcome::Failed(row) => Err(blank_row_error(row)),
        _ => spec_build_groups(index_map_of(read.items), check),
    }
}

/// Files the rows that were read by sequence number.
pub fn indexed_reading(read: RowsOut) -> (r: SheetReading<HashMap<i32, Vec<OrderItemExcel>>>)
    ensures
        map_result_view(r.result) == indexed_result(read@),
        downloads_view(r.downloads@) == read@.downloads,
{
    let result = match read.outcome {
        ReadOutcome::Failed(row) => Err(blank_row_err(row)),
        _ => Ok(group_by_index(read.items.as_slice())),
    };
    SheetReading { result, downloads: read.downloads }
}

/// Turns the rows that were read into styles, each checked with `check`.
pub fn grouped_reading(read: RowsOut, check: GroupCheck) -> (r: SheetReading<
    Vec<ExcelOrderGoodsWithItems>,
>)
    ensures
        groups_result_view(r.result) == grouped_result(read@, check),
        downloads_view(r.downloads@) == read@.downloads,
{
    let result = match read.outcome {
        ReadOutcome::Failed(row) => Err(blank_row_err(row)),
        _ => {
            let m = group_by_index(read.items.as_slice());
            build_groups(&m, check)
        },
    };
    SheetReading { result, downloads: read.downloads }
}

} // verus!
