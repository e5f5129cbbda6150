//! Reading the item rows of an order spreadsheet: every row from row 7
//! down starts as a copy of the row above, takes the non-empty cells of
//! its own columns, and has its pictures stored under names derived
//! from the goods number.
use crate::constants::{STORAGE_FILE_PATH, STORAGE_URL_PREFIX};
use crate::excel::columns::{apply_field, apply_field_exec, field_of, field_of_exec, Layout};
use crate::excel::sheet::{downloads_view, ImageDownload, ImageDownloadView, Sheet};
use crate::model::order::{items_view, strings_view, OrderItemExcel, OrderItemExcelView};
use crate::text::{nat_str, push_nat};
use vstd::prelude::*;

verus! {

/// Where reading the rows stopped.
#[derive(Debug, Clone, Copy, PartialEq, Eq, Structural)]
pub enum ReadOutcome {
    /// Every row was read.
    Running,
    /// The row with this number has no sequence number.
    Failed(u32),
    /// A row has neither a goods number nor a SKU number to name its
    /// pictures by; the reader gives up there without an answer.
    Panicked,
}

/// The rows read so far, the pictures to store, and where reading stands.
pub struct RowsRead {
    pub items: Seq<OrderItemExcelView>,
    pub downloads: Seq<ImageDownloadView>,
    pub outcome: ReadOutcome,
}

/// What the rows of a sheet came to.
#[derive(Debug)]
pub struct RowsOut {
    pub items: Vec<OrderItemExcel>,
    pub downloads: Vec<ImageDownload>,
    pub outcome: ReadOutcome,
}

impl View for RowsOut {
    type V = RowsRead;

    open spec fn view(&self) -> RowsRead {
        RowsRead {
            items: items_view(self.items@),
            downloads: downloads_view(self.downloads@),
            outcome: self.outcome,
        }
    }
}

/// `{base}{dir}{stem}.png`.
pub open spec fn stored(base: Seq<char>, dir: Seq<char>, stem: Seq<char>) -> Seq<char> {
    base + dir + stem + ".png"@
}

pub open spec fn file_path(dir: Seq<char>, stem: Seq<char>) -> Seq<char> {
    stored(STORAGE_FILE_PATH@, dir, stem)
}

pub open spec fn url_of(dir: Seq<char>, stem: Seq<char>) -> Seq<char> {
    stored(STORAGE_URL_PREFIX@, dir, stem)
}

pub open spec fn one_download(col: u32, row: u32, path: Seq<char>) -> ImageDownloadView {
    ImageDownloadView { col, row, nth: 0, path }
}

/// The name stem of the `k`-th picture of a cell: `{goods_no}-{k}{suffix}`.
pub open spec fn multi_stem(goods_no: Seq<char>, k: nat, suffix: Seq<char>) -> Seq<char> {
    goods_no + "-"@ + nat_str(k) + suffix
}

/// The stores of the `n` pictures at one cell.
pub open spec fn multi_downloads(
    col: u32,
    row: u32,
    dir: Seq<char>,
    goods_no: Seq<char>,
    suffix: Seq<char>,
    n: nat,
) -> Seq<ImageDownloadView> {
    Seq::new(
        n,
        |k: int|
            ImageDownloadView {
                col,
                row,
                nth: k as usize,
                path: file_path(dir, multi_stem(goods_no, k as nat, suffix)),
            },
    )
}

/// The addresses of the `n` pictures at one cell.
pub open spec fn multi_urls(dir: Seq<char>, goods_no: Seq<char>, suffix: Seq<char>, n: nat) -> Seq<
    Seq<char>,
> {
    Seq::new(n, |k: int| url_of(dir, multi_stem(goods_no, k as nat, suffix)))
}

/// A row starts as a copy of the last row read (layout 4 without its note
/// pictures), or empty when it is the first.
pub open spec fn row_start(layout: Layout, items: Seq<OrderItemExcelView>) -> OrderItemExcelView {
    if items.len() == 0 {
        OrderItemExcel::default_view()
    } else if layout == Layout::T4 {
        OrderItemExcelView { notes_images: Seq::empty(), ..items.last() }
    } else {
        items.last()
    }
}

/// The first cell of the row rules out reading it: layout 1 stops at an
/// empty sequence-number cell, layout 3 also at a missing one.
pub open spec fn index_cell_missing(layout: Layout, sheet: &Sheet, row: int) -> bool {
    &&& sheet.cols >= 1
    &&& match layout {
        Layout::T1 => sheet.cell_view(1, row) == Some(Seq::<char>::empty()),
        Layout::T3 => sheet.cell_view(1, row) is None || sheet.cell_view(1, row) == Some(
            Seq::<char>::empty(),
        ),
        _ => false,
    }
}

/// The row after the non-empty cells of columns `1..=c` have been written in.
pub open spec fn fold_cols(
    sheet: &Sheet,
    layout: Layout,
    start: OrderItemExcelView,
    row: int,
    c: int,
) -> OrderItemExcelView
    decreases c,
{
    if c <= 0 {
        start
    } else {
        let it = fold_cols(sheet, layout, start, row, c - 1);
        match sheet.cell_view(c, row) {
            Some(v) => if v.len() > 0 {
                match field_of(layout, c) {
                    Some(f) => apply_field(it, f, v),
                    None => it,
                }
            } else {
                it
            },
            None => it,
        }
    }
}

/// The row once its pictures are named, the pictures to store, and
/// whether the row has to stop the reading.
pub struct PostRow {
    pub item: OrderItemExcelView,
    pub downloads: Seq<ImageDownloadView>,
    pub panics: bool,
    pub index_missing: bool,
}

/// The goods number, or the SKU number where the goods number is empty.
pub open spec fn identifier(cur: OrderItemExcelView) -> Seq<char> {
    if cur.goods_no.len() > 0 {
        cur.goods_no
    } else {
        match cur.sku_no {
            Some(s) => s,
            None => Seq::empty(),
        }
    }
}

pub open spec fn lacks_identifier(cur: OrderItemExcelView) -> bool {
    cur.goods_no.len() == 0 && cur.sku_no is None
}

pub open spec fn post_row(
    layout: Layout,
    sheet: &Sheet,
    row: u32,
    cur: OrderItemExcelView,
    order_no: Seq<char>,
) -> PostRow {
    let gno = cur.goods_no;
    match layout {
        Layout::T1 | Layout::Plain1 | Layout::Plain4 => {
            let gcol: u32 = if layout == Layout::Plain4 {
                7
            } else {
                4
            };
            let g = sheet.seen_images(gcol as int, row as int) > 0;
            let p = sheet.seen_images(2, row as int) > 0;
            let it1 = if g {
                OrderItemExcelView { images: seq![url_of("/sku/"@, gno)], ..cur }
            } else {
                cur
            };
            let it2 = if p {
                OrderItemExcelView { package_card: Some(url_of("/package/"@, gno)), ..it1 }
            } else {
                it1
            };
            let d1 = if g {
                seq![one_download(gcol, row, file_path("/sku/"@, gno))]
            } else {
                Seq::empty()
            };
            let d2 = if p {
                seq![one_download(2, row, file_path("/package/"@, gno))]
            } else {
                Seq::empty()
            };
            PostRow {
                item: it2,
                downloads: d1 + d2,
                panics: false,
                index_missing: layout == Layout::T1 && it2.index == 0,
            }
        },
        Layout::Umya => {
            let g = sheet.seen_images(4, row as int) > 0;
            let p = sheet.seen_images(2, row as int) > 0;
            let it1 = if g {
                OrderItemExcelView { package_card: Some(url_of("/sku/"@, gno)), ..cur }
            } else {
                cur
            };
            let it2 = if p {
                OrderItemExcelView { images: seq![url_of("/package/"@, gno)], ..it1 }
            } else {
                it1
            };
            let d1 = if g {
                seq![one_download(4, row, file_path("/sku/"@, gno))]
            } else {
                Seq::empty()
            };
            let d2 = if p {
                seq![one_download(2, row, file_path("/package/"@, gno))]
            } else {
                Seq::empty()
            };
            PostRow { item: it2, downloads: d1 + d2, panics: false, index_missing: false }
        },
        Layout::T2 => {
            let ident = identifier(cur);
            let n = sheet.seen_images(4, row as int);
            let p = sheet.seen_images(2, row as int) > 0;
            let it1 = OrderItemExcelView {
                images: multi_urls("/sku/"@, gno, Seq::empty(), n),
                ..cur
            };
            let it2 = if p {
                OrderItemExcelView { package_card: Some(url_of("/package/"@, ident)), ..it1 }
            } else {
                it1
            };
            let d2 = if p {
                seq![one_download(2, row, file_path("/package/"@, ident))]
            } else {
                Seq::empty()
            };
            PostRow {
                item: it2,
                downloads: multi_downloads(4, row, "/sku/"@, gno, Seq::empty(), n) + d2,
                panics: lacks_identifier(cur),
                index_missing: it2.index == 0,
            }
        },
        Layout::T3 => {
            let ident = identifier(cur);
            let g = sheet.seen_images(2, row as int) > 0;
            let it1 = if g {
                OrderItemExcelView { images: seq![url_of("/sku/"@, ident)], ..cur }
            } else {
                cur
            };
            let d1 = if g {
                seq![one_download(2, row, file_path("/sku/"@, ident))]
            } else {
                Seq::empty()
            };
            PostRow {
                item: it1,
                downloads: d1,
                panics: lacks_identifier(cur),
                index_missing: false,
            }
        },
        Layout::T4 => {
            let suffix = "-"@ + order_no;
            let n = sheet.seen_images(7, row as int);
            let p = sheet.seen_images(2, row as int) > 0;
            let m = sheet.seen_images(15, row as int);
            let it1 = OrderItemExcelView { images: multi_urls("/sku/"@, gno, suffix, n), ..cur };
            let it2 = if p {
                OrderItemExcelView {
                    package_card: Some(url_of("/package/"@, gno + suffix)),
                    ..it1
                }
            } else {
                it1
            };
            let it3 = OrderItemExcelView {
                notes_images: multi_urls("/notes/"@, gno, suffix, m),
                ..it2
            };
            let d2 = if p {
                seq![one_download(2, row, file_path("/package/"@, gno + suffix))]
            } else {
                Seq::empty()
            };
            PostRow {
                item: it3,
                downloads: multi_downloads(7, row, "/sku/"@, gno, suffix, n) + d2
                    + multi_downloads(15, row, "/notes/"@, gno, suffix, m),
                panics: lacks_identifier(cur),
                index_missing: it3.index == 0,
            }
        },
    }
}

/// Reading one more row.
pub open spec fn step_row(
    st: RowsRead,
    sheet: &Sheet,
    layout: Layout,
    order_no: Seq<char>,
    row: u32,
) -> RowsRead {
    if index_cell_missing(layout, sheet, row as int) {
        RowsRead { outcome: ReadOutcome::Failed(row), ..st }
    } else {
        let cur = fold_cols(sheet, layout, row_start(layout, st.items), row as int, sheet.cols as int);
        let p = post_row(layout, sheet, row, cur, order_no);
        if p.panics {
            RowsRead { outcome: ReadOutcome::Panicked, ..st }
        } else if p.index_missing {
            RowsRead {
                items: st.items,
                downloads: st.downloads + p.downloads,
                outcome: ReadOutcome::Failed(row),
            }
        } else {
            RowsRead {
                items: st.items.push(p.item),
                downloads: st.downloads + p.downloads,
                outcome: ReadOutcome::Running,
            }
        }
    }
}

/// The state after rows `7..=upto`, stopping at the first row that fails.
pub open spec fn read_rows(sheet: &Sheet, layout: Layout, order_no: Seq<char>, upto: int) -> RowsRead
    decreases upto,
{
    if upto < 7 {
        RowsRead { items: Seq::empty(), downloads: Seq::empty(), outcome: ReadOutcome::Running }
    } else {
        let st = read_rows(sheet, layout, order_no, upto - 1);
        if st.outcome == ReadOutcome::Running {
            step_row(st, sheet, layout, order_no, upto as u32)
        } else {
            st
        }
    }
}

/// What reading all the item rows of `sheet` comes to.
pub open spec fn read_sheet(sheet: &Sheet, layout: Layout, order_no: Seq<char>) -> RowsRead {
    read_rows(sheet, layout, order_no, sheet.rows as int)
}

// ---------------------------------------------------------------------
// Executable reading
// ---------------------------------------------------------------------

fn stored_path(base: &str, dir: &str, stem: &str) -> (r: String)
    ensures
        r@ == stored(base@, dir@, stem@),
{
    let mut r = String::from_str(base);
    r.append(dir);
    r.append(stem);
    r.append(".png");
    r
}

fn stem_with_suffix(goods_no: &str, k: usize, suffix: &str) -> (r: String)
    ensures
        r@ == multi_stem(goods_no@, k as nat, suffix@),
{
    let mut r = String::from_str(goods_no);
    r.append("-");
    push_nat(&mut r, k as u64);
    r.append(suffix);
    assert(r@ =~= multi_stem(goods_no@, k as nat, suffix@));
    r
}

/// The stores and addresses of all pictures at (`col`, `row`).
fn multi_images(sheet: &Sheet, col: u32, row: u32, dir: &str, goods_no: &str, suffix: &str) -> (r: (
    Vec<ImageDownload>,
    Vec<String>,
))
    ensures
        downloads_view(r.0@) == multi_downloads(
            col,
            row,
            dir@,
            goods_no@,
            suffix@,
            sheet.seen_images(col as int, row as int),
        ),
        strings_view(r.1) == multi_urls(
            dir@,
            goods_no@,
            suffix@,
            sheet.seen_images(col as int, row as int),
        ),
{
    let n = sheet.seen_image_count(col, row);
    let mut dls: Vec<ImageDownload> = Vec::new();
    let mut urls: Vec<String> = Vec::new();
    let mut k: usize = 0;
    while k < n
        invariant
            n as nat == sheet.seen_images(col as int, row as int),
            k <= n,
            downloads_view(dls@) == multi_downloads(col, row, dir@, goods_no@, suffix@, k as nat),
            strings_view(urls) == multi_urls(dir@, goods_no@, suffix@, k as nat),
        decreases n - k,
    {
        let stem = stem_with_suffix(goods_no, k, suffix);
        let path = stored_path(STORAGE_FILE_PATH, dir, stem.as_str());
        let url = stored_path(STORAGE_URL_PREFIX, dir, stem.as_str());
        let ghost old_dls = dls@;
        let ghost old_urls = urls@;
        assert(downloads_view(old_dls).len() == k);
        assert(old_dls.len() == k);
        assert(strings_view(urls).len() == k);
        assert(old_urls.len() == k);
        let d = ImageDownload { col, row, nth: k, path };
        assert(d@ == multi_downloads(col, row, dir@, goods_no@, suffix@, (k + 1) as nat)[k as int]);
        dls.push(d);
        urls.push(url);
        assert(dls@ == old_dls.push(d));
        assert(urls@ == old_urls.push(url));
        let ghost kk = k as nat;
        assert forall|i: int| 0 <= i < kk implies downloads_view(dls@)[i] == multi_downloads(
            col,
            row,
            dir@,
            goods_no@,
            suffix@,
            kk + 1,
        )[i] by {
            assert(downloads_view(dls@)[i] == downloads_view(old_dls)[i]);
            assert(downloads_view(old_dls)[i] == multi_downloads(col, row, dir@, goods_no@, suffix@, kk)[i]);
        }
        assert forall|i: int| 0 <= i < kk implies strings_view(urls)[i] == multi_urls(
            dir@,
            goods_no@,
            suffix@,
            kk + 1,
        )[i] by {
            assert(strings_view(urls)[i] == old_urls[i]@);
            assert(old_urls.map_values(|s: String| s@)[i] == multi_urls(dir@, goods_no@, suffix@, kk)[i]);
        }
        k = k + 1;
        assert(downloads_view(dls@) =~= multi_downloads(
            col,
            row,
            dir@,
            goods_no@,
            suffix@,
            k as nat,
        ));
        assert(strings_view(urls) =~= multi_urls(dir@, goods_no@, suffix@, k as nat));
    }
    (dls, urls)
}

fn one_image_url(dir: &str, stem: &str) -> (r: Vec<String>)
    ensures
        strings_view(r) == seq![url_of(dir@, stem@)],
{
    let mut v: Vec<String> = Vec::new();
    v.push(stored_path(STORAGE_URL_PREFIX, dir, stem));
    assert(strings_view(v) =~= seq![url_of(dir@, stem@)]);
    v
}

fn push_one_download(dls: &mut Vec<ImageDownload>, col: u32, row: u32, dir: &str, stem: &str)
    ensures
        downloads_view(final(dls)@) == downloads_view(old(dls)@).push(
            one_download(col, row, file_path(dir@, stem@)),
        ),
{
    let path = stored_path(STORAGE_FILE_PATH, dir, stem);
    dls.push(ImageDownload { col, row, nth: 0, path });
    assert(downloads_view(final(dls)@) =~= downloads_view(old(dls)@).push(
        one_download(col, row, file_path(dir@, stem@)),
    ));
}

fn append_downloads(dls: &mut Vec<ImageDownload>, more: Vec<ImageDownload>)
    ensures
        downloads_view(final(dls)@) == downloads_view(old(dls)@) + downloads_view(more@),
{
    let ghost added = more@;
    let mut more = more;
    dls.append(&mut more);
    assert(downloads_view(final(dls)@) =~= downloads_view(old(dls)@) + downloads_view(added));
}

/// The exec counterpart of [`identifier`].
fn identifier_exec(cur: &OrderItemExcel) -> (r: String)
    requires
        !lacks_identifier(cur@),
    ensures
        r@ == identifier(cur@),
{
    if cur.goods_no.unicode_len() > 0 {
        cur.goods_no.clone()
    } else {
        match &cur.sku_no {
            Some(s) => s.clone(),
            None => String::new(),
        }
    }
}

#[derive(Debug)]
pub struct PostRowOut {
    pub item: OrderItemExcel,
    pub downloads: Vec<ImageDownload>,
    pub panics: bool,
    pub index_missing: bool,
}

fn post_row_exec(layout: Layout, sheet: &Sheet, row: u32, cur: OrderItemExcel, order_no: &str) -> (r:
    PostRowOut)
    ensures
        r.panics == post_row(layout, sheet, row, cur@, order_no@).panics,
        !r.panics ==> r.item@ == post_row(layout, sheet, row, cur@, order_no@).item,
        !r.panics ==> downloads_view(r.downloads@) == post_row(
            layout,
            sheet,
            row,
            cur@,
            order_no@,
        ).downloads,
        !r.panics ==> r.index_missing == post_row(layout, sheet, row, cur@, order_no@).index_missing,
{
    let ghost spec_r = post_row(layout, sheet, row, cur@, order_no@);
    let mut cur = cur;
    let ghost cur0 = cur@;
    let mut dls: Vec<ImageDownload> = Vec::new();
    match layout {
        Layout::T1 | Layout::Plain1 | Layout::Plain4 => {
            let gcol: u32 = match layout {
                Layout::Plain4 => 7,
                _ => 4,
            };
            let g = sheet.seen_image_count(gcol, row) > 0;
            let p = sheet.seen_image_count(2, row) > 0;
            let gno = cur.goods_no.clone();
            if g {
                cur.images = one_image_url("/sku/", gno.as_str());
                push_one_download(&mut dls, gcol, row, "/sku/", gno.as_str());
            }
            if p {
                cur.package_card = Some(stored_path(STORAGE_URL_PREFIX, "/package/", gno.as_str()));
                push_one_download(&mut dls, 2, row, "/package/", gno.as_str());
            }
            let index_missing = match layout {
                Layout::T1 => cur.index == 0,
                _ => false,
            };
            assert(cur@ =~= spec_r.item);
            assert(downloads_view(dls@) =~= spec_r.downloads);
            PostRowOut { item: cur, downloads: dls, panics: false, index_missing }
        },
        Layout::Umya => {
            let g = sheet.seen_image_count(4, row) > 0;
            let p = sheet.seen_image_count(2, row) > 0;
            let gno = cur.goods_no.clone();
            if g {
                cur.package_card = Some(stored_path(STORAGE_URL_PREFIX, "/sku/", gno.as_str()));
                push_one_download(&mut dls, 4, row, "/sku/", gno.as_str());
            }
            if p {
                cur.images = one_image_url("/package/", gno.as_str());
                push_one_download(&mut dls, 2, row, "/package/", gno.as_str());
            }
            assert(cur@ =~= spec_r.item);
            assert(downloads_view(dls@) =~= spec_r.downloads);
            PostRowOut { item: cur, downloads: dls, panics: false, index_missing: false }
        },
        Layout::T2 => {
            if cur.goods_no.unicode_len() == 0 && cur.sku_no.is_none() {
                return PostRowOut { item: cur, downloads: dls, panics: true, index_missing: false };
            }
            let ident = identifier_exec(&cur);
            let gno = cur.goods_no.clone();
            let (gdl, urls) = multi_images(sheet, 4, row, "/sku/", gno.as_str(), "");
            proof {
                reveal_strlit("");
                assert(""@ =~= Seq::<char>::empty());
            }
            cur.images = urls;
            append_downloads(&mut dls, gdl);
            let p = sheet.seen_image_count(2, row) > 0;
            if p {
                cur.package_card = Some(
                    stored_path(STORAGE_URL_PREFIX, "/package/", ident.as_str()),
                );
                push_one_download(&mut dls, 2, row, "/package/", ident.as_str());
            }
            let index_missing = cur.index == 0;
            assert(cur@ =~= spec_r.item);
            assert(downloads_view(dls@) =~= spec_r.downloads);
            PostRowOut { item: cur, downloads: dls, panics: false, index_missing }
        },
        Layout::T3 => {
            if cur.goods_no.unicode_len() == 0 && cur.sku_no.is_none() {
                return PostRowOut { item: cur, downloads: dls, panics: true, index_missing: false };
            }
            let ident = identifier_exec(&cur);
            let g = sheet.seen_image_count(2, row) > 0;
            if g {
                cur.images = one_image_url("/sku/", ident.as_str());
                push_one_download(&mut dls, 2, row, "/sku/", ident.as_str());
            }
            assert(cur@ =~= spec_r.item);
            assert(downloads_view(dls@) =~= spec_r.downloads);
            PostRowOut { item: cur, downloads: dls, panics: false, index_missing: false }
        },
        Layout::T4 => {
            if cur.goods_no.unicode_len() == 0 && cur.sku_no.is_none() {
                return PostRowOut { item: cur, downloads: dls, panics: true, index_missing: false };
            }
            let mut suffix = String::from_str("-");
            suffix.append(order_no);
            let gno = cur.goods_no.clone();
            let (gdl, urls) = multi_images(sheet, 7, row, "/sku/", gno.as_str(), suffix.as_str());
            cur.images = urls;
            append_downloads(&mut dls, gdl);
            let p = sheet.seen_image_count(2, row) > 0;
            let mut pstem = gno.clone();
            pstem.append(suffix.as_str());
            if p {
                cur.package_card = Some(
                    stored_path(STORAGE_URL_PREFIX, "/package/", pstem.as_str()),
                );
                push_one_download(&mut dls, 2, row, "/package/", pstem.as_str());
            }
            let (ndl, nurls) = multi_images(
                sheet,
                15,
                row,
                "/notes/",
                gno.as_str(),
                suffix.as_str(),
            );
            cur.notes_images = nurls;
            append_downloads(&mut dls, ndl);
            let index_missing = cur.index == 0;
            assert(cur@ =~= spec_r.item);
            assert(downloads_view(dls@) =~= spec_r.downloads);
            PostRowOut { item: cur, downloads: dls, panics: false, index_missing }
        },
    }
}

fn post_row_checked(layout: Layout, sheet: &Sheet, row: u32, cur: OrderItemExcel, order_no: &str) -> (r:
    PostRowOut)
    ensures
        r.panics == post_row(layout, sheet, row, cur@, order_no@).panics,
        !r.panics ==> r.item@ == post_row(layout, sheet, row, cur@, order_no@).item,
        !r.panics ==> downloads_view(r.downloads@) == post_row(
            layout,
            sheet,
            row,
            cur@,
            order_no@,
        ).downloads,
        !r.panics ==> r.index_missing == post_row(layout, sheet, row, cur@, order_no@).index_missing,
{
    post_row_exec(layout, sheet, row, cur, order_no)
}

fn row_start_exec(layout: Layout, items: &Vec<OrderItemExcel>) -> (r: OrderItemExcel)
    ensures
        r@ == row_start(layout, items_view(items@)),
{
    if items.len() == 0 {
        OrderItemExcel::default()
    } else {
        let mut cur = items[items.len() - 1].clone();
        if layout == Layout::T4 {
            cur.notes_images = Vec::new();
            assert(strings_view(cur.notes_images) =~= Seq::empty());
        }
        assert(cur@ =~= row_start(layout, items_view(items@)));
        cur
    }
}

fn index_cell_missing_exec(layout: Layout, sheet: &Sheet, row: u32) -> (r: bool)
    ensures
        r == index_cell_missing(layout, sheet, row as int),
{
    if sheet.cols < 1 {
        return false;
    }
    let cell = sheet.get_cell(1, row);
    match layout {
        Layout::T1 => match cell {
            Some(v) => {
                let r = v.unicode_len() == 0;
                proof {
                    if r {
                        assert(v@ =~= Seq::<char>::empty());
                    }
                }
                r
            },
            None => false,
        },
        Layout::T3 => match cell {
            Some(v) => {
                let r = v.unicode_len() == 0;
                proof {
                    if r {
                        assert(v@ =~= Seq::<char>::empty());
                    }
                }
                r
            },
            None => true,
        },
        _ => false,
    }
}

fn fold_cols_exec(sheet: &Sheet, layout: Layout, start: OrderItemExcel, row: u32) -> (r: OrderItemExcel)
    requires
        sheet.cols < u32::MAX,
    ensures
        r@ == fold_cols(sheet, layout, start@, row as int, sheet.cols as int),
{
    let mut it = start;
    let mut j: u32 = 1;
    while j <= sheet.cols
        invariant
            1 <= j <= sheet.cols + 1,
            sheet.cols < u32::MAX,
            it@ == fold_cols(sheet, layout, start@, row as int, j - 1),
        decreases sheet.cols + 1 - j,
    {
        match sheet.get_cell(j, row) {
            Some(v) => {
                if v.unicode_len() > 0 {
                    match field_of_exec(layout, j) {
                        Some(f) => apply_field_exec(&mut it, f, v.as_str()),
                        None => {},
                    }
                }
            },
            None => {},
        }
        j = j + 1;
    }
    it
}

proof fn lemma_read_rows_stops(sheet: &Sheet, layout: Layout, order_no: Seq<char>, i: int, upto: int)
    requires
        7 <= i <= upto,
        read_rows(sheet, layout, order_no, i).outcome != ReadOutcome::Running,
    ensures
        read_rows(sheet, layout, order_no, upto) == read_rows(sheet, layout, order_no, i),
    decreases upto - i,
{
    if upto > i {
        lemma_read_rows_stops(sheet, layout, order_no, i, upto - 1);
    }
}

/// Reads the item rows of `sheet` laid out as `layout`.
pub fn read_sheet_exec(sheet: &Sheet, layout: Layout, order_no: &str) -> (r: RowsOut)
    requires
        sheet.rows < u32::MAX,
        sheet.cols < u32::MAX,
    ensures
        r@ == read_sheet(sheet, layout, order_no@),
{
    let mut out = RowsOut { items: Vec::new(), downloads: Vec::new(), outcome: ReadOutcome::Running };
    assert(out@.items =~= Seq::empty());
    assert(out@.downloads =~= Seq::empty());
    assert(out@ =~= read_rows(sheet, layout, order_no@, 6));
    if sheet.rows < 7 {
        return out;
    }
    let mut i: u32 = 7;
    while i <= sheet.rows
        invariant
            7 <= i <= sheet.rows + 1,
            sheet.rows < u32::MAX,
            sheet.cols < u32::MAX,
            out@ == read_rows(sheet, layout, order_no@, i - 1),
            out.outcome == ReadOutcome::Running,
        decreases sheet.rows + 1 - i,
    {
        let ghost st = out@;
        if index_cell_missing_exec(layout, sheet, i) {
            out.outcome = ReadOutcome::Failed(i);
            assert(out@ =~= read_rows(sheet, layout, order_no@, i as int));
            proof {
                lemma_read_rows_stops(sheet, layout, order_no@, i as int, sheet.rows as int);
            }
            return out;
        }
        let start = row_start_exec(layout, &out.items);
        let cur = fold_cols_exec(sheet, layout, start, i);
        let p = post_row_checked(layout, sheet, i, cur, order_no);
        if p.panics {
            out.outcome = ReadOutcome::Panicked;
            assert(out@ =~= read_rows(sheet, layout, order_no@, i as int));
            proof {
                lemma_read_rows_stops(sheet, layout, order_no@, i as int, sheet.rows as int);
            }
            return out;
        }
        let ghost pdl = downloads_view(p.downloads@);
        let ghost pitem = p.item@;
        append_downloads(&mut out.downloads, p.downloads);
        if p.index_missing {
            out.outcome = ReadOutcome::Failed(i);
            assert(out@ =~= read_rows(sheet, layout, order_no@, i as int));
            proof {
                lemma_read_rows_stops(sheet, layout, order_no@, i as int, sheet.rows as int);
            }
            return out;
        }
        out.items.push(p.item);
        assert(out@.items =~= st.items.push(pitem));
        assert(out@ =~= read_rows(sheet, layout, order_no@, i as int));
        i = i + 1;
    }
    out
}

} // verus!
