//! The header of an order spreadsheet: the cells of its first five rows
//! that name the customer, the order number, the dates and the flags.
use crate::common::datetime::{parse_date, spec_parse_date};
use crate::excel::sheet::Sheet;
use crate::model::order::{OrderInfo, OrderInfoView};
use crate::text::{seq_contains, str_contains, strip_prefix_or_empty, strip_prefix_or_empty_seq};
use vstd::prelude::*;

verus! {

/// The text after a label written with an ASCII colon, or, where that
/// gives nothing, after the label written with a full-width colon.
pub open spec fn labelled(v: Seq<char>, ascii: Seq<char>, wide: Seq<char>) -> Seq<char> {
    let a = strip_prefix_or_empty_seq(v, ascii);
    if a.len() > 0 {
        a
    } else {
        strip_prefix_or_empty_seq(v, wide)
    }
}

/// The order date a cell gives, when it names one.
pub open spec fn order_date_text(v: Seq<char>) -> Seq<char> {
    labelled(v, "订货日期:"@, "订货日期："@)
}

/// The cell names an order date.
pub open spec fn names_order_date(v: Seq<char>) -> bool {
    seq_contains(v, "订货日期"@) && order_date_text(v).len() > 0
}

/// A cell that names an order date names a readable one.
pub open spec fn cell_date_ok(v: Seq<char>) -> bool {
    names_order_date(v) ==> spec_parse_date(order_date_text(v)) is Some
}

/// What one non-empty header cell does to the header read so far; `None`
/// where it names an order date that cannot be read.
pub open spec fn apply_info_cell(info: OrderInfoView, v: Seq<char>) -> Option<OrderInfoView> {
    let i1 = if seq_contains(v, "客户"@) {
        OrderInfoView { customer_no: labelled(v, "客户:"@, "客户："@), ..info }
    } else {
        info
    };
    let i2 = if seq_contains(v, "供应商"@) {
        OrderInfoView { customer_no: labelled(v, "供应商:"@, "供应商："@), ..i1 }
    } else {
        i1
    };
    let i3 = if seq_contains(v, "单号"@) {
        OrderInfoView { order_no: labelled(v, "单号:"@, "单号："@), ..i2 }
    } else {
        i2
    };
    let dd = labelled(v, "交货日期:"@, "交货日期："@);
    if !cell_date_ok(v) {
        None
    } else {
        let i4 = if names_order_date(v) {
            OrderInfoView { order_date: spec_parse_date(order_date_text(v))->0, ..i3 }
        } else {
            i3
        };
        let i5 = if seq_contains(v, "交货日期"@) && dd.len() > 0 {
            OrderInfoView { delivery_date: spec_parse_date(dd), ..i4 }
        } else {
            i4
        };
        let i6 = if seq_contains(v, "返单"@) {
            OrderInfoView { is_return_order: true, ..i5 }
        } else {
            i5
        };
        let i7 = if seq_contains(v, "加急"@) {
            OrderInfoView { is_urgent: true, ..i6 }
        } else {
            i6
        };
        Some(i7)
    }
}

/// The header after the cells of columns `1..=c` of `row` have been read.
pub open spec fn info_cols(sheet: &Sheet, start: Option<OrderInfoView>, row: int, c: int) -> Option<
    OrderInfoView,
>
    decreases c,
{
    if c <= 0 {
        start
    } else {
        match info_cols(sheet, start, row, c - 1) {
            None => None,
            Some(i) => match sheet.cell_view(c, row) {
                Some(v) => if v.len() > 0 {
                    apply_info_cell(i, v)
                } else {
                    Some(i)
                },
                None => Some(i),
            },
        }
    }
}

/// The header after rows `1..=r` have been read.
pub open spec fn info_rows(sheet: &Sheet, r: int) -> Option<OrderInfoView>
    decreases r,
{
    if r <= 0 {
        Some(OrderInfo::default_view())
    } else {
        info_cols(sheet, info_rows(sheet, r - 1), r, sheet.cols as int)
    }
}

/// The header of an order sheet, read from its first five rows; `None`
/// where an order date cannot be read.
pub open spec fn spec_order_info(sheet: &Sheet) -> Option<OrderInfoView> {
    info_rows(sheet, 5)
}

/// The cell at (`c`, `row`) does not stop the header from being read.
pub open spec fn header_cell_ok(sheet: &Sheet, c: int, row: int) -> bool {
    match sheet.cell_view(c, row) {
        Some(v) => v.len() > 0 ==> cell_date_ok(v),
        None => true,
    }
}

/// Every order date named in the first five rows can be read.
pub open spec fn header_dates_ok(sheet: &Sheet) -> bool {
    forall|r: int, c: int| 1 <= r <= 5 && 1 <= c <= sheet.cols ==> #[trigger] header_cell_ok(sheet, c, r)
}

proof fn lemma_info_cols_some(sheet: &Sheet, start: OrderInfoView, row: int, c: int)
    ensures
        info_cols(sheet, Some(start), row, c) is Some <==> (forall|t: int|
            1 <= t <= c ==> #[trigger] header_cell_ok(sheet, t, row)),
    decreases c,
{
    if c > 0 {
        lemma_info_cols_some(sheet, start, row, c - 1);
        let prev = info_cols(sheet, Some(start), row, c - 1);
        if info_cols(sheet, Some(start), row, c) is Some {
            assert(prev is Some);
            assert(header_cell_ok(sheet, c, row));
            assert forall|t: int| 1 <= t <= c implies #[trigger] header_cell_ok(sheet, t, row) by {
                if t < c {
                    assert(1 <= t <= c - 1);
                }
            }
        }
        if forall|t: int| 1 <= t <= c ==> #[trigger] header_cell_ok(sheet, t, row) {
            assert forall|t: int| 1 <= t <= c - 1 implies #[trigger] header_cell_ok(
                sheet,
                t,
                row,
            ) by {}
            assert(prev is Some);
            assert(header_cell_ok(sheet, c, row));
            let i = prev->0;
            match sheet.cell_view(c, row) {
                Some(v) => {
                    if v.len() > 0 {
                        assert(cell_date_ok(v));
                        assert(apply_info_cell(i, v) is Some);
                    }
                },
                None => {},
            }
        }
    }
}

proof fn lemma_info_cols_none(sheet: &Sheet, row: int, c: int)
    ensures
        info_cols(sheet, None, row, c) is None,
    decreases c,
{
    if c > 0 {
        lemma_info_cols_none(sheet, row, c - 1);
    }
}

proof fn lemma_info_rows_some(sheet: &Sheet, r: int)
    requires
        0 <= r,
    ensures
        info_rows(sheet, r) is Some <==> (forall|t: int, c: int|
            1 <= t <= r && 1 <= c <= sheet.cols ==> #[trigger] header_cell_ok(sheet, c, t)),
    decreases r,
{
    if r > 0 {
        lemma_info_rows_some(sheet, r - 1);
        match info_rows(sheet, r - 1) {
            Some(i) => {
                lemma_info_cols_some(sheet, i, r, sheet.cols as int);
                if info_rows(sheet, r) is Some {
                    assert forall|t: int, c: int|
                        1 <= t <= r && 1 <= c <= sheet.cols implies #[trigger] header_cell_ok(
                        sheet,
                        c,
                        t,
                    ) by {
                        if t == r {
                            assert(1 <= c <= sheet.cols as int);
                        }
                    }
                }
            },
            None => {
                lemma_info_cols_none(sheet, r, sheet.cols as int);
                if forall|t: int, c: int|
                    1 <= t <= r && 1 <= c <= sheet.cols ==> #[trigger] header_cell_ok(sheet, c, t) {
                    assert forall|t: int, c: int|
                        1 <= t <= r - 1 && 1 <= c <= sheet.cols implies #[trigger] header_cell_ok(
                        sheet,
                        c,
                        t,
                    ) by {}
                }
            },
        }
    }
}

proof fn lemma_info_cols_stays_none(
    sheet: &Sheet,
    start: Option<OrderInfoView>,
    row: int,
    j: int,
    c: int,
)
    requires
        j <= c,
        info_cols(sheet, start, row, j) is None,
    ensures
        info_cols(sheet, start, row, c) is None,
    decreases c - j,
{
    if j < c {
        lemma_info_cols_stays_none(sheet, start, row, j, c - 1);
    }
}

proof fn lemma_info_rows_stays_none(sheet: &Sheet, i: int, r: int)
    requires
        i <= r,
        info_rows(sheet, i) is None,
    ensures
        info_rows(sheet, r) is None,
    decreases r - i,
{
    if i < r {
        lemma_info_rows_stays_none(sheet, i, r - 1);
        lemma_info_cols_none(sheet, r, sheet.cols as int);
    }
}

/// The cell at (`c`, `row`) is a non-empty cell whose text contains
/// `word`.
pub open spec fn cell_mentions(sheet: &Sheet, c: int, row: int, word: Seq<char>) -> bool {
    match sheet.cell_view(c, row) {
        Some(v) => v.len() > 0 && seq_contains(v, word),
        None => false,
    }
}

proof fn lemma_info_cols_flags(sheet: &Sheet, start: OrderInfoView, row: int, c: int)
    ensures
        info_cols(sheet, Some(start), row, c) matches Some(i) ==> {
            &&& i.is_return_order <==> (start.is_return_order || exists|t: int|
                1 <= t <= c && #[trigger] cell_mentions(sheet, t, row, "返单"@))
            &&& i.is_urgent <==> (start.is_urgent || exists|t: int|
                1 <= t <= c && #[trigger] cell_mentions(sheet, t, row, "加急"@))
        },
    decreases c,
{
    if c > 0 {
        lemma_info_cols_flags(sheet, start, row, c - 1);
        let prev = info_cols(sheet, Some(start), row, c - 1);
        if let Some(i) = info_cols(sheet, Some(start), row, c) {
            assert(prev is Some);
            let pi = prev->0;
            assert(i.is_return_order <==> (pi.is_return_order || cell_mentions(sheet, c, row, "返单"@)));
            assert(i.is_urgent <==> (pi.is_urgent || cell_mentions(sheet, c, row, "加急"@)));
            if exists|t: int| 1 <= t <= c && #[trigger] cell_mentions(sheet, t, row, "返单"@) {
                let t = choose|t: int| 1 <= t <= c && #[trigger] cell_mentions(sheet, t, row, "返单"@);
                if t < c {
                    assert(1 <= t <= c - 1);
                }
            }
            if exists|t: int| 1 <= t <= c && #[trigger] cell_mentions(sheet, t, row, "加急"@) {
                let t = choose|t: int| 1 <= t <= c && #[trigger] cell_mentions(sheet, t, row, "加急"@);
                if t < c {
                    assert(1 <= t <= c - 1);
                }
            }
        }
    }
}

proof fn lemma_info_rows_flags(sheet: &Sheet, r: int)
    requires
        0 <= r,
    ensures
        info_rows(sheet, r) matches Some(i) ==> {
            &&& i.is_return_order <==> exists|t: int, c: int|
                1 <= t <= r && 1 <= c <= sheet.cols && #[trigger] cell_mentions(sheet, c, t, "返单"@)
            &&& i.is_urgent <==> exists|t: int, c: int|
                1 <= t <= r && 1 <= c <= sheet.cols && #[trigger] cell_mentions(sheet, c, t, "加急"@)
        },
    decreases r,
{
    if r > 0 {
        lemma_info_rows_flags(sheet, r - 1);
        match info_rows(sheet, r - 1) {
            Some(pi) => {
                lemma_info_cols_flags(sheet, pi, r, sheet.cols as int);
                if let Some(i) = info_rows(sheet, r) {
                    if exists|t: int, c: int|
                        1 <= t <= r && 1 <= c <= sheet.cols && #[trigger] cell_mentions(sheet, c, t, "返单"@) {
                        let (t, c) = choose|t: int, c: int|
                            1 <= t <= r && 1 <= c <= sheet.cols && #[trigger] cell_mentions(sheet, c, t, "返单"@);
                        if t < r {
                            assert(1 <= t <= r - 1);
                        } else {
                            assert(1 <= c <= sheet.cols as int);
                        }
                    }
                    if exists|t: int, c: int|
                        1 <= t <= r && 1 <= c <= sheet.cols && #[trigger] cell_mentions(sheet, c, t, "加急"@) {
                        let (t, c) = choose|t: int, c: int|
                            1 <= t <= r && 1 <= c <= sheet.cols && #[trigger] cell_mentions(sheet, c, t, "加急"@);
                        if t < r {
                            assert(1 <= t <= r - 1);
                        } else {
                            assert(1 <= c <= sheet.cols as int);
                        }
                    }
                    if pi.is_return_order {
                        let (t, c) = choose|t: int, c: int|
                            1 <= t <= r - 1 && 1 <= c <= sheet.cols && #[trigger] cell_mentions(sheet, c, t, "返单"@);
                        assert(1 <= t <= r);
                    }
                    if pi.is_urgent {
                        let (t, c) = choose|t: int, c: int|
                            1 <= t <= r - 1 && 1 <= c <= sheet.cols && #[trigger] cell_mentions(sheet, c, t, "加急"@);
                        assert(1 <= t <= r);
                    }
                    if exists|c: int| 1 <= c <= sheet.cols && #[trigger] cell_mentions(sheet, c, r, "返单"@) {
                        let c = choose|c: int| 1 <= c <= sheet.cols && #[trigger] cell_mentions(sheet, c, r, "返单"@);
                        assert(1 <= r <= r);
                    }
                    if exists|c: int| 1 <= c <= sheet.cols && #[trigger] cell_mentions(sheet, c, r, "加急"@) {
                        let c = choose|c: int| 1 <= c <= sheet.cols && #[trigger] cell_mentions(sheet, c, r, "加急"@);
                        assert(1 <= r <= r);
                    }
                }
            },
            None => {
                lemma_info_cols_none(sheet, r, sheet.cols as int);
            },
        }
    }
}

/// The header marks the order as a return order exactly when some
/// non-empty cell of its first five rows mentions 返单, and as urgent
/// exactly when one mentions 加急.
pub proof fn lemma_header_flags(sheet: &Sheet)
    ensures
        spec_order_info(sheet) matches Some(i) ==> {
            &&& i.is_return_order <==> exists|r: int, c: int|
                1 <= r <= 5 && 1 <= c <= sheet.cols && #[trigger] cell_mentions(sheet, c, r, "返单"@)
            &&& i.is_urgent <==> exists|r: int, c: int|
                1 <= r <= 5 && 1 <= c <= sheet.cols && #[trigger] cell_mentions(sheet, c, r, "加急"@)
        },
{
    lemma_info_rows_flags(sheet, 5);
}

/// The header can be read exactly when its order dates can.
pub proof fn lemma_order_info_readable(sheet: &Sheet)
    ensures
        spec_order_info(sheet) is Some <==> header_dates_ok(sheet),
{
    lemma_info_rows_some(sheet, 5);
}

fn labelled_exec(v: &str, ascii: &str, wide: &str) -> (r: String)
    ensures
        r@ == labelled(v@, ascii@, wide@),
{
    let a = strip_prefix_or_empty(v, ascii);
    if a.unicode_len() > 0 {
        a
    } else {
        strip_prefix_or_empty(v, wide)
    }
}

fn cell_date_ok_exec(v: &str) -> (r: bool)
    ensures
        r == cell_date_ok(v@),
{
    if str_contains(v, "订货日期") {
        let od = labelled_exec(v, "订货日期:", "订货日期：");
        if od.unicode_len() > 0 {
            return parse_date(od.as_str()).is_some();
        }
    }
    true
}

/// Reads one non-empty header cell into `info`; false, with `info` left
/// as it was, where the cell names an order date that cannot be read.
fn apply_info_cell_exec(info: &mut OrderInfo, v: &str) -> (ok: bool)
    ensures
        ok ==> apply_info_cell(old(info)@, v@) == Some(final(info)@),
        !ok ==> apply_info_cell(old(info)@, v@) is None,
{
    if !cell_date_ok_exec(v) {
        return false;
    }
    if str_contains(v, "客户") {
        info.customer_no = labelled_exec(v, "客户:", "客户：");
    }
    if str_contains(v, "供应商") {
        info.customer_no = labelled_exec(v, "供应商:", "供应商：");
    }
    if str_contains(v, "单号") {
        info.order_no = labelled_exec(v, "单号:", "单号：");
    }
    if str_contains(v, "订货日期") {
        let od = labelled_exec(v, "订货日期:", "订货日期：");
        if od.unicode_len() > 0 {
            match parse_date(od.as_str()) {
                Some(d) => {
                    info.order_date = d;
                },
                None => {},
            }
        }
    }
    if str_contains(v, "交货日期") {
        let dd = labelled_exec(v, "交货日期:", "交货日期：");
        if dd.unicode_len() > 0 {
            info.delivery_date = parse_date(dd.as_str());
        }
    }
    if str_contains(v, "返单") {
        info.is_return_order = true;
    }
    if str_contains(v, "加急") {
        info.is_urgent = true;
    }
    true
}

/// Reads the header; `None` where an order date cannot be read.
fn read_order_info(sheet: &Sheet) -> (r: Option<OrderInfo>)
    requires
        sheet.cols < u32::MAX,
    ensures
        match r {
            Some(i) => spec_order_info(sheet) == Some(i@),
            None => spec_order_info(sheet) is None,
        },
{
    let mut info = OrderInfo::default();
    let mut i: u32 = 1;
    while i < 6
        invariant
            1 <= i <= 6,
            sheet.cols < u32::MAX,
            info_rows(sheet, i - 1) == Some(info@),
        decreases 6 - i,
    {
        let mut j: u32 = 1;
        while j <= sheet.cols
            invariant
                1 <= i < 6,
                1 <= j <= sheet.cols + 1,
                sheet.cols < u32::MAX,
                info_cols(sheet, info_rows(sheet, i - 1), i as int, j - 1) == Some(info@),
            decreases sheet.cols + 1 - j,
        {
            match sheet.get_cell(j, i) {
                Some(v) => {
                    if v.unicode_len() > 0 {
                        if !apply_info_cell_exec(&mut info, v.as_str()) {
                            proof {
                                lemma_info_cols_stays_none(
                                    sheet,
                                    info_rows(sheet, i - 1),
                                    i as int,
                                    j as int,
                                    sheet.cols as int,
                                );
                                lemma_info_rows_stays_none(sheet, i as int, 5);
                            }
                            return None;
                        }
                    }
                },
                None => {},
            }
            j = j + 1;
        }
        i = i + 1;
    }
    Some(info)
}

/// Whether every order date named in the first five rows can be read.
pub fn order_dates_readable(sheet: &Sheet) -> (r: bool)
    requires
        sheet.cols < u32::MAX,
    ensures
        r == header_dates_ok(sheet),
        r == spec_order_info(sheet) is Some,
{
    proof {
        lemma_order_info_readable(sheet);
    }
    let mut i: u32 = 1;
    while i < 6
        invariant
            1 <= i <= 6,
            sheet.cols < u32::MAX,
            forall|t: int, c: int|
                1 <= t < i && 1 <= c <= sheet.cols ==> #[trigger] header_cell_ok(sheet, c, t),
        decreases 6 - i,
    {
        let mut j: u32 = 1;
        while j <= sheet.cols
            invariant
                1 <= i < 6,
                1 <= j <= sheet.cols + 1,
                sheet.cols < u32::MAX,
                forall|t: int, c: int|
                    1 <= t < i && 1 <= c <= sheet.cols ==> #[trigger] header_cell_ok(sheet, c, t),
                forall|c: int| 1 <= c < j ==> #[trigger] header_cell_ok(sheet, c, i as int),
            decreases sheet.cols + 1 - j,
        {
            match sheet.get_cell(j, i) {
                Some(v) => {
                    if v.unicode_len() > 0 && !cell_date_ok_exec(v.as_str()) {
                        assert(!header_cell_ok(sheet, j as int, i as int));
                        assert(!header_dates_ok(sheet));
                        proof {
                            lemma_order_info_readable(sheet);
                        }
                        return false;
                    }
                },
                None => {},
            }
            j = j + 1;
        }
        i = i + 1;
    }
    true
}

/// Reads the header of an order sheet from its first five rows. Every
/// order date that the header names must be readable.
pub fn parse_order_info(sheet: &Sheet) -> (r: OrderInfo)
    requires
        sheet.cols < u32::MAX,
        spec_order_info(sheet) is Some,
    ensures
        spec_order_info(sheet) == Some(r@),
{
    match read_order_info(sheet) {
        Some(info) => info,
        None => {
            assert(false);
            OrderInfo::default()
        },
    }
}

/// Reads the header of an order sheet, or gives `None` where an order
/// date that it names cannot be read.
pub fn try_parse_order_info(sheet: &Sheet) -> (r: Option<OrderInfo>)
    requires
        sheet.cols < u32::MAX,
    ensures
        match r {
            Some(i) => spec_order_info(sheet) == Some(i@),
            None => spec_order_info(sheet) is None,
        },
{
    if order_dates_readable(sheet) {
        Some(parse_order_info(sheet))
    } else {
        None
    }
}

} // verus!
