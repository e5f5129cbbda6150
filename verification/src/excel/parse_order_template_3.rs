//! Layout 3: rows with a second colour, a barcode and a purchase price.
use crate::error::{ERPError, ERPErrorView};
use crate::excel::grouping::{find_mixed_group, mixed_group, repeated_index_err, repeated_index_msg};
use crate::excel::columns::Layout;
use crate::excel::reading::{indexed_reading, indexed_result, map_result_view, SheetReading};
use crate::excel::rows::{read_sheet, read_sheet_exec, ReadOutcome};
use crate::excel::sheet::{downloads_view, Sheet};
use crate::model::order::{items_view, OrderItemExcel, OrderItemExcelView};
use std::collections::HashMap;
use vstd::prelude::*;

verus! {

/// What a layout-3 sheet comes to: its rows filed by sequence number, or
/// the row that stops the reading.
pub open spec fn t3_result(sheet: &Sheet) -> Result<Map<i32, Seq<OrderItemExcelView>>, ERPErrorView> {
    indexed_result(read_sheet(sheet, Layout::T3, Seq::empty()))
}

/// Reads the rows of a layout-3 sheet, filed by sequence number, with the
/// pictures to store. A row with neither a goods number nor a SKU number
/// has nothing to name its pictures by, and is not accepted.
pub fn parse_order_excel_t3(sheet: &Sheet) -> (r: SheetReading<HashMap<i32, Vec<OrderItemExcel>>>)
    requires
        sheet.rows < u32::MAX,
        sheet.cols < u32::MAX,
        read_sheet(sheet, Layout::T3, Seq::empty()).outcome != ReadOutcome::Panicked,
    ensures
        map_result_view(r.result) == t3_result(sheet),
        downloads_view(r.downloads@) == read_sheet(sheet, Layout::T3, Seq::empty()).downloads,
{
    proof {
        reveal_strlit("");
        assert(""@ =~= Seq::<char>::empty());
    }
    let read = read_sheet_exec(sheet, Layout::T3, "");
    indexed_reading(read)
}

/// `{goods_no}+{color}`: what tells the colours of a style apart.
pub open spec fn sku_key(it: OrderItemExcelView) -> Seq<char> {
    it.goods_no + "+"@ + it.color
}

/// Two rows carry the same goods number and colour.
pub open spec fn repeated_sku(items: Seq<OrderItemExcelView>) -> bool {
    exists|i: int, j: int|
        0 <= i < j < items.len() && #[trigger] sku_key(items[i]) == #[trigger] sku_key(items[j])
}

/// "{sku}可能有重复，或者有多余的总计的行"
pub open spec fn repeated_sku_msg(sku: Seq<char>) -> Seq<char> {
    sku + "可能有重复，或者有多余的总计的行"@
}

fn sku_key_exec(it: &OrderItemExcel) -> (r: String)
    ensures
        r@ == sku_key(it@),
{
    let mut s = it.goods_no.clone();
    s.append("+");
    s.append(it.color.as_str());
    s
}

/// A goods number and colour that two rows share, if any.
fn find_repeated_sku(items: &[OrderItemExcel]) -> (r: Option<String>)
    ensures
        match r {
            Some(s) => exists|i: int, j: int|
                0 <= i < j < items@.len() && sku_key(items_view(items@)[i]) == s@ && sku_key(
                    items_view(items@)[j],
                ) == s@,
            None => !repeated_sku(items_view(items@)),
        },
{
    let ghost iv = items_view(items@);
    let mut keys: Vec<String> = Vec::new();
    let mut j: usize = 0;
    while j < items.len()
        invariant
            iv == items_view(items@),
            j <= items@.len(),
            keys@.len() == j,
            forall|t: int| 0 <= t < j ==> (#[trigger] keys@[t])@ == sku_key(iv[t]),
            forall|a: int, b: int| 0 <= a < b < j ==> sku_key(iv[a]) != sku_key(iv[b]),
        decreases items.len() - j,
    {
        let kj = sku_key_exec(&items[j]);
        assert(kj@ == sku_key(iv[j as int]));
        let mut i: usize = 0;
        while i < keys.len()
            invariant
                iv == items_view(items@),
                j < items@.len(),
                keys@.len() == j,
                i <= j,
                kj@ == sku_key(iv[j as int]),
                forall|t: int| 0 <= t < j ==> (#[trigger] keys@[t])@ == sku_key(iv[t]),
                forall|t: int| 0 <= t < i ==> sku_key(iv[t]) != kj@,
            decreases keys.len() - i,
        {
            if keys[i] == kj {
                assert(keys@[i as int]@ == sku_key(iv[i as int]));
                return Some(kj);
            }
            i = i + 1;
        }
        keys.push(kj);
        j = j + 1;
    }
    assert forall|a: int, b: int| 0 <= a < b < iv.len() implies #[trigger] sku_key(iv[a])
        != #[trigger] sku_key(iv[b]) by {}
    None
}

/// Checks that no sequence number is shared by rows of different goods
/// numbers, and then that no goods number and colour come twice.
pub fn checking_order_items_excel_3(order_items_excel: &[OrderItemExcel]) -> (r: Result<
    (),
    ERPError,
>)
    ensures
        ({
            let iv = items_view(order_items_excel@);
            match r {
                Ok(_) => (forall|k: i32| !mixed_group(iv, k)) && !repeated_sku(iv),
                Err(e) => if exists|k: i32| mixed_group(iv, k) {
                    exists|k: i32|
                        mixed_group(iv, k) && e@ == ERPErrorView::ExcelError(repeated_index_msg(k))
                } else {
                    exists|i: int, j: int|
                        0 <= i < j < iv.len() && sku_key(iv[i]) == sku_key(iv[j]) && e@
                            == ERPErrorView::ExcelError(repeated_sku_msg(sku_key(iv[i])))
                },
            }
        }),
{
    let ghost iv = items_view(order_items_excel@);
    match find_mixed_group(order_items_excel) {
        Some(k) => {
            return Err(repeated_index_err(k));
        },
        None => {},
    }
    match find_repeated_sku(order_items_excel) {
        Some(sku) => {
            let mut msg = sku;
            msg.append("可能有重复，或者有多余的总计的行");
            Err(ERPError::ExcelError(msg))
        },
        None => Ok(()),
    }
}

} // verus!
