//! What each column of an order spreadsheet holds, for each layout that
//! customers send, and how one cell's text is written into a row.
use crate::model::order::{OrderItemExcel, OrderItemExcelView};
use crate::text::{
    parse_i32_or_zero, remove_whitespace_str, spec_parse_i32, strip_ws, trim_seq, trim_to_string,
};
use vstd::prelude::*;

verus! {

/// How the text of a cell is tidied before it is stored.
#[derive(Debug, Clone, Copy, PartialEq, Eq, Structural)]
pub enum Clean {
    /// Kept as it is.
    Raw,
    /// Leading and trailing whitespace removed.
    Trim,
    /// Every whitespace character removed.
    NoSpace,
}

pub open spec fn clean_seq(c: Clean, s: Seq<char>) -> Seq<char> {
    match c {
        Clean::Raw => s,
        Clean::Trim => trim_seq(s),
        Clean::NoSpace => strip_ws(s),
    }
}

pub fn clean_text(c: Clean, s: &str) -> (r: String)
    ensures
        r@ == clean_seq(c, s@),
{
    match c {
        Clean::Raw => String::from_str(s),
        Clean::Trim => trim_to_string(s),
        Clean::NoSpace => remove_whitespace_str(s),
    }
}

/// The part of a row that a column fills in.
#[derive(Debug, Clone, Copy, PartialEq, Eq, Structural)]
pub enum Field {
    Index,
    PackageCardDes(Clean),
    GoodsNo(Clean),
    SkuNo(Clean),
    ImageDes(Clean),
    Name(Clean),
    Plating(Clean),
    Color(Clean),
    Color2(Clean),
    Size(Clean),
    Barcode(Clean),
    PurchasePrice,
    Count,
    Unit(Clean),
    UnitPrice,
    TotalPrice,
    Notes(Clean),
}

/// The number in a cell; a cell that is not a number counts as 0.
pub open spec fn num(s: Seq<char>) -> i32 {
    match spec_parse_i32(s) {
        Some(v) => v,
        None => 0,
    }
}

/// The row after the text `v` of a cell holding `f` has been written into it.
pub open spec fn apply_field(it: OrderItemExcelView, f: Field, v: Seq<char>) -> OrderItemExcelView {
    match f {
        Field::Index => OrderItemExcelView { index: num(v), ..it },
        Field::PackageCardDes(c) => OrderItemExcelView {
            package_card_des: Some(clean_seq(c, v)),
            ..it
        },
        Field::GoodsNo(c) => OrderItemExcelView { goods_no: clean_seq(c, v), ..it },
        Field::SkuNo(c) => OrderItemExcelView { sku_no: Some(clean_seq(c, v)), ..it },
        Field::ImageDes(c) => OrderItemExcelView { image_des: Some(clean_seq(c, v)), ..it },
        Field::Name(c) => OrderItemExcelView { name: clean_seq(c, v), ..it },
        Field::Plating(c) => OrderItemExcelView { plating: clean_seq(c, v), ..it },
        Field::Color(c) => OrderItemExcelView { color: clean_seq(c, v), ..it },
        Field::Color2(c) => OrderItemExcelView { color_2: Some(clean_seq(c, v)), ..it },
        Field::Size(c) => OrderItemExcelView { size: Some(clean_seq(c, v)), ..it },
        Field::Barcode(c) => OrderItemExcelView { barcode: Some(clean_seq(c, v)), ..it },
        Field::PurchasePrice => OrderItemExcelView { purchase_price: Some(num(v)), ..it },
        Field::Count => OrderItemExcelView { count: num(v), ..it },
        Field::Unit(c) => OrderItemExcelView { unit: Some(clean_seq(c, v)), ..it },
        Field::UnitPrice => OrderItemExcelView { unit_price: Some(num(v)), ..it },
        Field::TotalPrice => OrderItemExcelView { total_price: Some(num(v)), ..it },
        Field::Notes(c) => OrderItemExcelView { notes: Some(clean_seq(c, v)), ..it },
    }
}

/// Writes the text `v` of a cell holding `f` into the row.
pub fn apply_field_exec(it: &mut OrderItemExcel, f: Field, v: &str)
    ensures
        final(it)@ == apply_field(old(it)@, f, v@),
{
    match f {
        Field::Index => {
            it.index = parse_i32_or_zero(v);
        },
        Field::PackageCardDes(c) => {
            it.package_card_des = Some(clean_text(c, v));
        },
        Field::GoodsNo(c) => {
            it.goods_no = clean_text(c, v);
        },
        Field::SkuNo(c) => {
            it.sku_no = Some(clean_text(c, v));
        },
        Field::ImageDes(c) => {
            it.image_des = Some(clean_text(c, v));
        },
        Field::Name(c) => {
            it.name = clean_text(c, v);
        },
        Field::Plating(c) => {
            it.plating = clean_text(c, v);
        },
        Field::Color(c) => {
            it.color = clean_text(c, v);
        },
        Field::Color2(c) => {
            it.color_2 = Some(clean_text(c, v));
        },
        Field::Size(c) => {
            it.size = Some(clean_text(c, v));
        },
        Field::Barcode(c) => {
            it.barcode = Some(clean_text(c, v));
        },
        Field::PurchasePrice => {
            it.purchase_price = Some(parse_i32_or_zero(v));
        },
        Field::Count => {
            it.count = parse_i32_or_zero(v);
        },
        Field::Unit(c) => {
            it.unit = Some(clean_text(c, v));
        },
        Field::UnitPrice => {
            it.unit_price = Some(parse_i32_or_zero(v));
        },
        Field::TotalPrice => {
            it.total_price = Some(parse_i32_or_zero(v));
        },
        Field::Notes(c) => {
            it.notes = Some(clean_text(c, v));
        },
    }
    assert(final(it)@ =~= apply_field(old(it)@, f, v@));
}

/// The spreadsheet layouts that customers send.
#[derive(Debug, Clone, Copy, PartialEq, Eq, Structural)]
pub enum Layout {
    /// Numbered styles with one row per colour, goods number in column 3.
    T1,
    /// Rows identified by SKU number, several pictures per style.
    T2,
    /// Rows with colour variants, barcodes and purchase prices.
    T3,
    /// SKU and goods numbers, pictures and note pictures per row.
    T4,
    /// The first version of layout 1, read into a flat list.
    Plain1,
    /// The first version of layout 4, read into a flat list.
    Plain4,
    /// The very first reader's layout.
    Umya,
}

/// What column `col` holds in `layout`.
pub open spec fn field_of(layout: Layout, col: int) -> Option<Field> {
    match layout {
        Layout::T1 | Layout::Plain1 => {
            if col == 1 {
                Some(Field::Index)
            } else if col == 2 {
                Some(Field::PackageCardDes(Clean::Trim))
            } else if col == 3 {
                Some(Field::GoodsNo(Clean::NoSpace))
            } else if col == 4 {
                Some(Field::ImageDes(Clean::Trim))
            } else if col == 5 {
                Some(Field::Name(Clean::Trim))
            } else if col == 6 {
                Some(Field::Plating(Clean::Trim))
            } else if col == 7 {
                Some(Field::Color(Clean::NoSpace))
            } else if col == 8 {
                Some(Field::Count)
            } else if col == 9 {
                Some(Field::Unit(Clean::Trim))
            } else if col == 10 {
                Some(Field::UnitPrice)
            } else if col == 11 {
                Some(Field::TotalPrice)
            } else if col == 12 {
                Some(Field::Notes(Clean::Trim))
            } else {
                None
            }
        },
        Layout::T2 => {
            if col == 1 {
                Some(Field::Index)
            } else if col == 2 {
                Some(Field::PackageCardDes(Clean::Trim))
            } else if col == 3 {
                Some(Field::SkuNo(Clean::NoSpace))
            } else if col == 4 {
                Some(Field::ImageDes(Clean::Trim))
            } else if col == 5 {
                Some(Field::Name(Clean::Trim))
            } else if col == 6 {
                Some(Field::Plating(Clean::Trim))
            } else if col == 7 {
                Some(Field::Color(Clean::Trim))
            } else if col == 8 {
                Some(Field::Count)
            } else if col == 9 {
                Some(Field::Unit(Clean::Trim))
            } else if col == 10 {
                Some(Field::UnitPrice)
            } else if col == 11 {
                Some(Field::TotalPrice)
            } else if col == 12 {
                Some(Field::Notes(Clean::Trim))
            } else {
                None
            }
        },
        Layout::T3 => {
            if col == 1 {
                Some(Field::Index)
            } else if col == 3 {
                Some(Field::GoodsNo(Clean::NoSpace))
            } else if col == 4 {
                Some(Field::Name(Clean::Trim))
            } else if col == 5 {
                Some(Field::Plating(Clean::Trim))
            } else if col == 6 {
                Some(Field::Color(Clean::NoSpace))
            } else if col == 7 {
                Some(Field::Color2(Clean::Trim))
            } else if col == 8 {
                Some(Field::Barcode(Clean::Trim))
            } else if col == 9 {
                Some(Field::PurchasePrice)
            } else if col == 10 {
                Some(Field::Count)
            } else if col == 11 {
                Some(Field::TotalPrice)
            } else if col == 12 {
                Some(Field::Notes(Clean::Trim))
            } else {
                None
            }
        },
        Layout::T4 | Layout::Plain4 => {
            let c = if layout == Layout::T4 {
                Clean::Trim
            } else {
                Clean::Raw
            };
            if col == 1 {
                Some(Field::Index)
            } else if col == 2 {
                Some(Field::PackageCardDes(c))
            } else if col == 3 {
                Some(Field::SkuNo(Clean::NoSpace))
            } else if col == 4 {
                Some(Field::GoodsNo(Clean::NoSpace))
            } else if col == 5 {
                Some(Field::Color(Clean::NoSpace))
            } else if col == 6 {
                Some(Field::Size(c))
            } else if col == 7 {
                Some(Field::ImageDes(c))
            } else if col == 8 {
                Some(Field::Name(c))
            } else if col == 9 {
                Some(Field::Plating(c))
            } else if col == 10 {
                Some(Field::Color2(c))
            } else if col == 11 {
                Some(Field::Count)
            } else if col == 12 {
                Some(Field::Unit(c))
            } else if col == 13 {
                Some(Field::UnitPrice)
            } else if col == 14 {
                Some(Field::TotalPrice)
            } else if col == 15 {
                Some(Field::Notes(c))
            } else {
                None
            }
        },
        Layout::Umya => {
            if col == 1 {
                Some(Field::Index)
            } else if col == 2 {
                Some(Field::PackageCardDes(Clean::Raw))
            } else if col == 4 {
                Some(Field::ImageDes(Clean::Raw))
            } else if col == 5 {
                Some(Field::GoodsNo(Clean::Raw))
            } else if col == 6 {
                Some(Field::Name(Clean::Raw))
            } else if col == 7 {
                Some(Field::Plating(Clean::Raw))
            } else if col == 8 {
                Some(Field::Color(Clean::Raw))
            } else if col == 9 {
                Some(Field::Count)
            } else if col == 10 {
                Some(Field::Unit(Clean::Raw))
            } else if col == 11 {
                Some(Field::UnitPrice)
            } else if col == 12 {
                Some(Field::TotalPrice)
            } else if col == 13 {
                Some(Field::Notes(Clean::Raw))
            } else {
                None
            }
        },
    }
}

pub fn field_of_exec(layout: Layout, col: u32) -> (r: Option<Field>)
    ensures
        r == field_of(layout, col as int),
{
    match layout {
        Layout::T1 | Layout::Plain1 => {
            if col == 1 {
                Some(Field::Index)
            } else if col == 2 {
                Some(Field::PackageCardDes(Clean::Trim))
            } else if col == 3 {
                Some(Field::GoodsNo(Clean::NoSpace))
            } else if col == 4 {
                Some(Field::ImageDes(Clean::Trim))
            } else if col == 5 {
                Some(Field::Name(Clean::Trim))
            } else if col == 6 {
                Some(Field::Plating(Clean::Trim))
            } else if col == 7 {
                Some(Field::Color(Clean::NoSpace))
            } else if col == 8 {
                Some(Field::Count)
            } else if col == 9 {
                Some(Field::Unit(Clean::Trim))
            } else if col == 10 {
                Some(Field::UnitPrice)
            } else if col == 11 {
                Some(Field::TotalPrice)
            } else if col == 12 {
                Some(Field::Notes(Clean::Trim))
            } else {
                None
            }
        },
        Layout::T2 => {
            if col == 1 {
                Some(Field::Index)
            } else if col == 2 {
                Some(Field::PackageCardDes(Clean::Trim))
            } else if col == 3 {
                Some(Field::SkuNo(Clean::NoSpace))
            } else if col == 4 {
                Some(Field::ImageDes(Clean::Trim))
            } else if col == 5 {
                Some(Field::Name(Clean::Trim))
            } else if col == 6 {
                Some(Field::Plating(Clean::Trim))
            } else if col == 7 {
                Some(Field::Color(Clean::Trim))
            } else if col == 8 {
                Some(Field::Count)
            } else if col == 9 {
                Some(Field::Unit(Clean::Trim))
            } else if col == 10 {
                Some(Field::UnitPrice)
            } else if col == 11 {
                Some(Field::TotalPrice)
            } else if col == 12 {
                Some(Field::Notes(Clean::Trim))
            } else {
                None
            }
        },
        Layout::T3 => {
            if col == 1 {
                Some(Field::Index)
            } else if col == 3 {
                Some(Field::GoodsNo(Clean::NoSpace))
            } else if col == 4 {
                Some(Field::Name(Clean::Trim))
            } else if col == 5 {
                Some(Field::Plating(Clean::Trim))
            } else if col == 6 {
                Some(Field::Color(Clean::NoSpace))
            } else if col == 7 {
                Some(Field::Color2(Clean::Trim))
            } else if col == 8 {
                Some(Field::Barcode(Clean::Trim))
            } else if col == 9 {
                Some(Field::PurchasePrice)
            } else if col == 10 {
                Some(Field::Count)
            } else if col == 11 {
                Some(Field::TotalPrice)
            } else if col == 12 {
                Some(Field::Notes(Clean::Trim))
            } else {
                None
            }
        },
        Layout::T4 | Layout::Plain4 => {
            let c = match layout {
                Layout::T4 => Clean::Trim,
                _ => Clean::Raw,
            };
            if col == 1 {
                Some(Field::Index)
            } else if col == 2 {
                Some(Field::PackageCardDes(c))
            } else if col == 3 {
                Some(Field::SkuNo(Clean::NoSpace))
            } else if col == 4 {
                Some(Field::GoodsNo(Clean::NoSpace))
            } else if col == 5 {
                Some(Field::Color(Clean::NoSpace))
            } else if col == 6 {
                Some(Field::Size(c))
            } else if col == 7 {
                Some(Field::ImageDes(c))
            } else if col == 8 {
                Some(Field::Name(c))
            } else if col == 9 {
                Some(Field::Plating(c))
            } else if col == 10 {
                Some(Field::Color2(c))
            } else if col == 11 {
                Some(Field::Count)
            } else if col == 12 {
                Some(Field::Unit(c))
            } else if col == 13 {
                Some(Field::UnitPrice)
            } else if col == 14 {
                Some(Field::TotalPrice)
            } else if col == 15 {
                Some(Field::Notes(c))
            } else {
                None
            }
        },
        Layout::Umya => {
            if col == 1 {
                Some(Field::Index)
            } else if col == 2 {
                Some(Field::PackageCardDes(Clean::Raw))
            } else if col == 4 {
                Some(Field::ImageDes(Clean::Raw))
            } else if col == 5 {
                Some(Field::GoodsNo(Clean::Raw))
            } else if col == 6 {
                Some(Field::Name(Clean::Raw))
            } else if col == 7 {
                Some(Field::Plating(Clean::Raw))
            } else if col == 8 {
                Some(Field::Color(Clean::Raw))
            } else if col == 9 {
                Some(Field::Count)
            } else if col == 10 {
                Some(Field::Unit(Clean::Raw))
            } else if col == 11 {
                Some(Field::UnitPrice)
            } else if col == 12 {
                Some(Field::TotalPrice)
            } else if col == 13 {
                Some(Field::Notes(Clean::Raw))
            } else {
                None
            }
        },
    }
}

} // verus!
