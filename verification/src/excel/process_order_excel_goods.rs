//! Storing an imported order: which goods, SKUs, order goods and order
//! items are new. The store is asked for what it already holds, and
//! these functions decide, from its answers, what has to be added.
use crate::common::assoc::{
    contains_i32, distinct_vals, int_id_or_zero, int_ids, last_val, text_id_or_zero, text_pairs,
    val_or_zero,
};
use crate::common::string::{clone_strings, opt_string_or_empty};
use crate::model::goods::{skus_view, SKUModel, SkuView};
use crate::model::order::{
    groups_view, seq_or_empty, ExcelOrderGoods, ExcelOrderGoodsView, ExcelOrderGoodsWithItems,
    GoodsGroupView, OrderGoodsModel, OrderGoodsView, OrderItemExcel, OrderItemExcelView,
    OrderItemModel, OrderItemView,
};
use vstd::prelude::*;

pub use crate::excel::grouping::convert_index_vec_order_item_excel_to_vec_excel_order_goods_with_items;

verus! {

// ---------------------------------------------------------------------
// Goods
// ---------------------------------------------------------------------

/// The goods numbers of the styles, in order.
pub fn goods_nos_of(groups: &Vec<ExcelOrderGoodsWithItems>) -> (r: Vec<String>)
    ensures
        r@.map_values(|s: String| s@) == groups_view(groups@).map_values(
            |g: GoodsGroupView| g.goods.goods_no,
        ),
{
    let mut r: Vec<String> = Vec::new();
    let mut i: usize = 0;
    while i < groups.len()
        invariant
            i <= groups@.len(),
            r@.map_values(|s: String| s@) == groups_view(groups@).take(i as int).map_values(
                |g: GoodsGroupView| g.goods.goods_no,
            ),
        decreases groups.len() - i,
    {
        let ghost old_r = r@;
        let g = groups[i].goods.goods_no.clone();
        r.push(g);
        assert(groups_view(groups@)[i as int] == groups@[i as int]@);
        assert(r@.map_values(|s: String| s@) =~= old_r.map_values(|s: String| s@).push(g@));
        assert(groups_view(groups@).take(i + 1) =~= groups_view(groups@).take(i as int).push(
            groups_view(groups@)[i as int],
        ));
        i = i + 1;
        assert(r@.map_values(|s: String| s@) =~= groups_view(groups@).take(i as int).map_values(
            |g: GoodsGroupView| g.goods.goods_no,
        ));
    }
    assert(groups_view(groups@).take(groups@.len() as int) =~= groups_view(groups@));
    r
}

/// The styles whose goods number the store does not know, in order.
pub open spec fn spec_goods_to_add(gs: Seq<GoodsGroupView>, known: Seq<(Seq<char>, i32)>) -> Seq<
    ExcelOrderGoodsView,
>
    decreases gs.len(),
{
    if gs.len() == 0 {
        Seq::empty()
    } else {
        let r = spec_goods_to_add(gs.drop_last(), known);
        if last_val(known, gs.last().goods.goods_no) is None {
            r.push(gs.last().goods)
        } else {
            r
        }
    }
}

/// The styles to add are exactly those whose goods number the store does
/// not know: each of them has an unknown goods number, and every style
/// with an unknown goods number is among them.
pub proof fn lemma_goods_to_add_are_unknown(
    gs: Seq<GoodsGroupView>,
    known: Seq<(Seq<char>, i32)>,
)
    ensures
        forall|j: int|
            0 <= j < spec_goods_to_add(gs, known).len() ==> last_val(
                known,
                (#[trigger] spec_goods_to_add(gs, known)[j]).goods_no,
            ) is None,
        forall|i: int|
            0 <= i < gs.len() && last_val(known, (#[trigger] gs[i]).goods.goods_no) is None
                ==> spec_goods_to_add(gs, known).contains(gs[i].goods),
    decreases gs.len(),
{
    if gs.len() > 0 {
        let d = gs.drop_last();
        lemma_goods_to_add_are_unknown(d, known);
        let r = spec_goods_to_add(d, known);
        let last = gs.last();
        assert forall|i: int|
            0 <= i < gs.len() && last_val(known, (#[trigger] gs[i]).goods.goods_no) is None
                implies spec_goods_to_add(gs, known).contains(gs[i].goods) by {
            if i < gs.len() - 1 {
                assert(d[i] == gs[i]);
                assert(r.contains(gs[i].goods));
                let t = choose|t: int| 0 <= t < r.len() && r[t] == gs[i].goods;
                if last_val(known, last.goods.goods_no) is None {
                    assert(r.push(last.goods)[t] == gs[i].goods);
                }
            } else {
                assert(gs[i] == last);
                assert(r.push(last.goods)[r.len() as int] == gs[i].goods);
            }
        }
        if last_val(known, last.goods.goods_no) is None {
            assert forall|j: int| 0 <= j < r.push(last.goods).len() implies last_val(
                known,
                (#[trigger] r.push(last.goods)[j]).goods_no,
            ) is None by {
                if j < r.len() {
                    assert(r.push(last.goods)[j] == r[j]);
                }
            }
        }
    }
}

proof fn lemma_last_val_append<K, V>(a: Seq<(K, V)>, b: Seq<(K, V)>, k: K)
    ensures
        last_val(b, k) is Some ==> last_val(a + b, k) == last_val(b, k),
        last_val(b, k) is None ==> last_val(a + b, k) == last_val(a, k),
    decreases b.len(),
{
    if b.len() == 0 {
        assert(a + b =~= a);
    } else {
        assert((a + b).drop_last() =~= a + b.drop_last());
        assert((a + b).last() == b.last());
        lemma_last_val_append(a, b.drop_last(), k);
    }
}

/// Once the styles to add are stored and their (goods number, id) pairs
/// are added to those the store knew, every style's goods number has an
/// id.
pub proof fn lemma_stored_goods_resolve(
    gs: Seq<GoodsGroupView>,
    known: Seq<(Seq<char>, i32)>,
    added: Seq<(Seq<char>, i32)>,
    i: int,
)
    requires
        0 <= i < gs.len(),
        forall|j: int|
            0 <= j < spec_goods_to_add(gs, known).len() ==> last_val(
                added,
                (#[trigger] spec_goods_to_add(gs, known)[j]).goods_no,
            ) is Some,
    ensures
        last_val(known + added, gs[i].goods.goods_no) is Some,
{
    lemma_goods_to_add_are_unknown(gs, known);
    let g = gs[i].goods.goods_no;
    lemma_last_val_append(known, added, g);
    if last_val(known, g) is None {
        let r = spec_goods_to_add(gs, known);
        assert(r.contains(gs[i].goods));
        let t = choose|t: int| 0 <= t < r.len() && r[t] == gs[i].goods;
        assert(last_val(added, r[t].goods_no) is Some);
    }
}

proof fn lemma_all_known_adds_nothing(gs: Seq<GoodsGroupView>, known: Seq<(Seq<char>, i32)>)
    requires
        forall|i: int| 0 <= i < gs.len() ==> last_val(known, (#[trigger] gs[i]).goods.goods_no) is Some,
    ensures
        spec_goods_to_add(gs, known).len() == 0,
    decreases gs.len(),
{
    if gs.len() > 0 {
        let d = gs.drop_last();
        assert forall|i: int| 0 <= i < d.len() implies last_val(known, (#[trigger] d[i]).goods.goods_no)
            is Some by {
            assert(d[i] == gs[i]);
        }
        lemma_all_known_adds_nothing(d, known);
        assert(gs[gs.len() - 1] == gs.last());
    }
}

/// Importing settles the goods: once the styles to add are stored and
/// their (goods number, id) pairs are added to those the store knew, a
/// second import of the same sheet adds no style.
pub proof fn lemma_goods_import_settles(
    gs: Seq<GoodsGroupView>,
    known: Seq<(Seq<char>, i32)>,
    added: Seq<(Seq<char>, i32)>,
)
    requires
        forall|j: int|
            0 <= j < spec_goods_to_add(gs, known).len() ==> last_val(
                added,
                (#[trigger] spec_goods_to_add(gs, known)[j]).goods_no,
            ) is Some,
    ensures
        spec_goods_to_add(gs, known + added).len() == 0,
{
    assert forall|i: int| 0 <= i < gs.len() implies last_val(
        known + added,
        (#[trigger] gs[i]).goods.goods_no,
    ) is Some by {
        lemma_stored_goods_resolve(gs, known, added, i);
    }
    lemma_all_known_adds_nothing(gs, known + added);
}

/// The styles to add to the store: those whose goods number is not among
/// the (goods number, id) pairs that it already holds.
pub fn goods_to_add(groups: &Vec<ExcelOrderGoodsWithItems>, known: &Vec<(String, i32)>) -> (r: Vec<
    ExcelOrderGoods,
>)
    ensures
        r@.map_values(|g: ExcelOrderGoods| g@) == spec_goods_to_add(
            groups_view(groups@),
            text_pairs(known@),
        ),
{
    let ghost gs = groups_view(groups@);
    let ghost kv = text_pairs(known@);
    let mut r: Vec<ExcelOrderGoods> = Vec::new();
    let mut i: usize = 0;
    assert(gs.take(0) =~= Seq::<GoodsGroupView>::empty());
    while i < groups.len()
        invariant
            gs == groups_view(groups@),
            kv == text_pairs(known@),
            i <= groups@.len(),
            r@.map_values(|g: ExcelOrderGoods| g@) == spec_goods_to_add(gs.take(i as int), kv),
        decreases groups.len() - i,
    {
        assert(gs.take(i + 1).drop_last() =~= gs.take(i as int));
        assert(gs.take(i + 1).last() == groups@[i as int]@);
        let ghost old_r = r@;
        if crate::common::assoc::find_text_id(known, &groups[i].goods.goods_no).is_none() {
            let g = groups[i].goods.clone();
            r.push(g);
            assert(r@.map_values(|g: ExcelOrderGoods| g@) =~= old_r.map_values(
                |g: ExcelOrderGoods| g@,
            ).push(g@));
        }
        i = i + 1;
    }
    assert(gs.take(groups@.len() as int) =~= gs);
    r
}

// ---------------------------------------------------------------------
// SKUs
// ---------------------------------------------------------------------

/// The SKUs of the store as ((goods id, colour), id) pairs.
pub open spec fn sku_color_pairs(skus: Seq<SkuView>) -> Seq<((i32, Seq<char>), i32)> {
    skus.map_values(|s: SkuView| ((s.goods_id, s.color), s.id))
}

/// The SKUs of the store as (SKU number, id) pairs.
pub open spec fn sku_no_pairs(skus: Seq<SkuView>) -> Seq<(Seq<char>, i32)> {
    skus.map_values(|s: SkuView| (s.sku_no, s.id))
}

/// The SKU that a row adds to the style with id `gid`.
pub open spec fn new_sku(gid: i32, it: OrderItemExcelView) -> SkuView {
    SkuView {
        id: 0,
        goods_id: gid,
        sku_no: seq_or_empty(it.sku_no),
        color: it.color,
        color2: seq_or_empty(it.color_2),
        notes: None,
    }
}

/// The rows of style `gid` whose colour the store has no SKU for.
pub open spec fn skus_of_rows_by_color(
    gid: i32,
    items: Seq<OrderItemExcelView>,
    skus: Seq<SkuView>,
) -> Seq<SkuView>
    decreases items.len(),
{
    if items.len() == 0 {
        Seq::empty()
    } else {
        let r = skus_of_rows_by_color(gid, items.drop_last(), skus);
        if last_val(sku_color_pairs(skus), (gid, items.last().color)) is None {
            r.push(new_sku(gid, items.last()))
        } else {
            r
        }
    }
}

/// The SKUs to add, style by style: a row whose style and colour the
/// store has no SKU for.
pub open spec fn spec_skus_to_add_by_color(
    gs: Seq<GoodsGroupView>,
    known: Seq<(Seq<char>, i32)>,
    skus: Seq<SkuView>,
) -> Seq<SkuView>
    decreases gs.len(),
{
    if gs.len() == 0 {
        Seq::empty()
    } else {
        spec_skus_to_add_by_color(gs.drop_last(), known, skus) + skus_of_rows_by_color(
            val_or_zero(known, gs.last().goods.goods_no),
            gs.last().items,
            skus,
        )
    }
}

/// The SKUs to add for the rows of a style cover exactly the colours the
/// store has no SKU for: each new SKU is of the style, and every such row
/// has one with its colour.
pub proof fn lemma_row_skus_cover(gid: i32, items: Seq<OrderItemExcelView>, skus: Seq<SkuView>)
    ensures
        forall|j: int|
            0 <= j < skus_of_rows_by_color(gid, items, skus).len() ==> (
            #[trigger] skus_of_rows_by_color(gid, items, skus)[j]).goods_id == gid,
        forall|i: int|
            0 <= i < items.len() && last_val(sku_color_pairs(skus), (gid, (#[trigger] items[i]).color))
                is None ==> exists|j: int|
                0 <= j < skus_of_rows_by_color(gid, items, skus).len() && skus_of_rows_by_color(
                    gid,
                    items,
                    skus,
                )[j].color == items[i].color,
    decreases items.len(),
{
    if items.len() > 0 {
        let d = items.drop_last();
        lemma_row_skus_cover(gid, d, skus);
        let r = skus_of_rows_by_color(gid, d, skus);
        let last = items.last();
        let add = last_val(sku_color_pairs(skus), (gid, last.color)) is None;
        let full = skus_of_rows_by_color(gid, items, skus);
        assert(full == if add { r.push(new_sku(gid, last)) } else { r });
        assert forall|j: int| 0 <= j < full.len() implies (#[trigger] full[j]).goods_id == gid by {
            if j < r.len() {
                assert(full[j] == r[j]);
            }
        }
        assert forall|i: int|
            0 <= i < items.len() && last_val(sku_color_pairs(skus), (gid, (#[trigger] items[i]).color))
                is None implies exists|j: int| 0 <= j < full.len() && full[j].color == items[i].color by {
            if i < items.len() - 1 {
                assert(d[i] == items[i]);
                let j = choose|j: int| 0 <= j < r.len() && r[j].color == d[i].color;
                assert(full[j] == r[j]);
            } else {
                assert(items[i] == last);
                assert(full[r.len() as int].color == last.color);
            }
        }
    }
}

/// The SKUs a style's rows add are among those the sheet adds.
proof fn lemma_rows_skus_in_sheet(
    gs: Seq<GoodsGroupView>,
    known: Seq<(Seq<char>, i32)>,
    skus: Seq<SkuView>,
    k: int,
    j: int,
)
    requires
        0 <= k < gs.len(),
        0 <= j < skus_of_rows_by_color(val_or_zero(known, gs[k].goods.goods_no), gs[k].items, skus).len(),
    ensures
        spec_skus_to_add_by_color(gs, known, skus).contains(
            skus_of_rows_by_color(val_or_zero(known, gs[k].goods.goods_no), gs[k].items, skus)[j],
        ),
    decreases gs.len(),
{
    let d = gs.drop_last();
    let head = spec_skus_to_add_by_color(d, known, skus);
    let tail = skus_of_rows_by_color(val_or_zero(known, gs.last().goods.goods_no), gs.last().items, skus);
    let all = spec_skus_to_add_by_color(gs, known, skus);
    assert(all == head + tail);
    if k == gs.len() - 1 {
        assert(gs[k] == gs.last());
        assert(all[head.len() + j] == tail[j]);
    } else {
        assert(d[k] == gs[k]);
        lemma_rows_skus_in_sheet(d, known, skus, k, j);
        let t = choose|t: int| 0 <= t < head.len() && head[t] == skus_of_rows_by_color(
            val_or_zero(known, gs[k].goods.goods_no),
            gs[k].items,
            skus,
        )[j];
        assert(all[t] == head[t]);
    }
}

proof fn lemma_colors_known_add_nothing(gid: i32, items: Seq<OrderItemExcelView>, skus: Seq<SkuView>)
    requires
        forall|i: int|
            0 <= i < items.len() ==> last_val(sku_color_pairs(skus), (gid, (#[trigger] items[i]).color))
                is Some,
    ensures
        skus_of_rows_by_color(gid, items, skus).len() == 0,
    decreases items.len(),
{
    if items.len() > 0 {
        let d = items.drop_last();
        assert forall|i: int| 0 <= i < d.len() implies last_val(
            sku_color_pairs(skus),
            (gid, (#[trigger] d[i]).color),
        ) is Some by {
            assert(d[i] == items[i]);
        }
        lemma_colors_known_add_nothing(gid, d, skus);
        assert(items[items.len() - 1] == items.last());
    }
}

proof fn lemma_sheet_colors_known_add_nothing(
    gs: Seq<GoodsGroupView>,
    known: Seq<(Seq<char>, i32)>,
    skus: Seq<SkuView>,
)
    requires
        forall|k: int, i: int|
            0 <= k < gs.len() && 0 <= i < gs[k].items.len() ==> last_val(
                sku_color_pairs(skus),
                (val_or_zero(known, gs[k].goods.goods_no), (#[trigger] gs[k].items[i]).color),
            ) is Some,
    ensures
        spec_skus_to_add_by_color(gs, known, skus).len() == 0,
    decreases gs.len(),
{
    if gs.len() > 0 {
        let d = gs.drop_last();
        assert forall|k: int, i: int| 0 <= k < d.len() && 0 <= i < d[k].items.len() implies last_val(
            sku_color_pairs(skus),
            (val_or_zero(known, d[k].goods.goods_no), (#[trigger] d[k].items[i]).color),
        ) is Some by {
            assert(d[k] == gs[k]);
        }
        lemma_sheet_colors_known_add_nothing(d, known, skus);
        let last = gs.last();
        assert(gs[gs.len() - 1] == last);
        lemma_colors_known_add_nothing(val_or_zero(known, last.goods.goods_no), last.items, skus);
    }
}

/// Importing settles the SKUs: once the SKUs to add are stored, each
/// found again among the stored ones by its style and colour, a second
/// import of the same sheet adds no SKU.
pub proof fn lemma_skus_import_settles(
    gs: Seq<GoodsGroupView>,
    known: Seq<(Seq<char>, i32)>,
    skus: Seq<SkuView>,
    added: Seq<SkuView>,
)
    requires
        forall|j: int|
            0 <= j < spec_skus_to_add_by_color(gs, known, skus).len() ==> last_val(
                sku_color_pairs(added),
                ((#[trigger] spec_skus_to_add_by_color(gs, known, skus)[j]).goods_id,
                spec_skus_to_add_by_color(gs, known, skus)[j].color),
            ) is Some,
    ensures
        spec_skus_to_add_by_color(gs, known, skus + added).len() == 0,
{
    assert(sku_color_pairs(skus + added) =~= sku_color_pairs(skus) + sku_color_pairs(added));
    let all = spec_skus_to_add_by_color(gs, known, skus);
    assert forall|k: int, i: int| 0 <= k < gs.len() && 0 <= i < gs[k].items.len() implies last_val(
        sku_color_pairs(skus + added),
        (val_or_zero(known, gs[k].goods.goods_no), (#[trigger] gs[k].items[i]).color),
    ) is Some by {
        let gid = val_or_zero(known, gs[k].goods.goods_no);
        let key = (gid, gs[k].items[i].color);
        lemma_last_val_append(sku_color_pairs(skus), sku_color_pairs(added), key);
        if last_val(sku_color_pairs(skus), key) is None {
            let rows = skus_of_rows_by_color(gid, gs[k].items, skus);
            lemma_row_skus_cover(gid, gs[k].items, skus);
            let j = choose|j: int| 0 <= j < rows.len() && rows[j].color == gs[k].items[i].color;
            assert(rows[j].goods_id == gid);
            lemma_rows_skus_in_sheet(gs, known, skus, k, j);
            let t = choose|t: int| 0 <= t < all.len() && all[t] == rows[j];
            assert(last_val(sku_color_pairs(added), (all[t].goods_id, all[t].color)) is Some);
        }
    }
    lemma_sheet_colors_known_add_nothing(gs, known, skus + added);
}

/// The id of the last SKU of style `gid` in colour `color`.
pub fn find_sku_id_by_color(skus: &Vec<SKUModel>, gid: i32, color: &String) -> (r: Option<i32>)
    ensures
        r == last_val(sku_color_pairs(skus_view(skus@)), (gid, color@)),
{
    let ghost s = sku_color_pairs(skus_view(skus@));
    let mut i: usize = skus.len();
    assert(s.take(i as int) =~= s);
    while i > 0
        invariant
            s == sku_color_pairs(skus_view(skus@)),
            i <= skus@.len(),
            last_val(s, (gid, color@)) == last_val(s.take(i as int), (gid, color@)),
        decreases i,
    {
        assert(s.take(i as int).drop_last() =~= s.take(i - 1));
        assert(s.take(i as int).last() == s[i - 1]);
        if skus[i - 1].goods_id == gid && skus[i - 1].color == *color {
            return Some(skus[i - 1].id);
        }
        i = i - 1;
    }
    assert(s.take(0) =~= Seq::<((i32, Seq<char>), i32)>::empty());
    None
}

fn new_sku_exec(gid: i32, it: &OrderItemExcel) -> (r: SKUModel)
    ensures
        r@ == new_sku(gid, it@),
{
    SKUModel {
        id: 0,
        goods_id: gid,
        sku_no: opt_string_or_empty(&it.sku_no),
        color: it.color.clone(),
        color2: opt_string_or_empty(&it.color_2),
        notes: None,
    }
}

fn push_skus_of_rows_by_color(
    out: &mut Vec<SKUModel>,
    gid: i32,
    items: &Vec<OrderItemExcel>,
    skus: &Vec<SKUModel>,
)
    ensures
        skus_view(final(out)@) == skus_view(old(out)@) + skus_of_rows_by_color(
            gid,
            crate::model::order::items_view(items@),
            skus_view(skus@),
        ),
{
    let ghost iv = crate::model::order::items_view(items@);
    let ghost start = skus_view(out@);
    let mut i: usize = 0;
    assert(iv.take(0) =~= Seq::<OrderItemExcelView>::empty());
    assert(start + Seq::<SkuView>::empty() =~= start);
    while i < items.len()
        invariant
            iv == crate::model::order::items_view(items@),
            i <= items@.len(),
            skus_view(out@) == start + skus_of_rows_by_color(gid, iv.take(i as int), skus_view(skus@)),
        decreases items.len() - i,
    {
        assert(iv.take(i + 1).drop_last() =~= iv.take(i as int));
        assert(iv.take(i + 1).last() == items@[i as int]@);
        let ghost old_out = skus_view(out@);
        if find_sku_id_by_color(skus, gid, &items[i].color).is_none() {
            let s = new_sku_exec(gid, &items[i]);
            out.push(s);
            assert(skus_view(out@) =~= old_out.push(s@));
        }
        i = i + 1;
        assert(skus_view(out@) =~= start + skus_of_rows_by_color(gid, iv.take(i as int), skus_view(skus@)));
    }
    assert(iv.take(items@.len() as int) =~= iv);
}

/// The SKUs to add to the store: for every row, in order, whose style
/// (by the id its goods number has among `known`, 0 if none) and colour
/// match none of the SKUs the store holds.
pub fn skus_to_add_by_color(
    groups: &Vec<ExcelOrderGoodsWithItems>,
    known: &Vec<(String, i32)>,
    skus: &Vec<SKUModel>,
) -> (r: Vec<SKUModel>)
    ensures
        skus_view(r@) == spec_skus_to_add_by_color(
            groups_view(groups@),
            text_pairs(known@),
            skus_view(skus@),
        ),
{
    let ghost gs = groups_view(groups@);
    let ghost kv = text_pairs(known@);
    let mut r: Vec<SKUModel> = Vec::new();
    let mut i: usize = 0;
    assert(gs.take(0) =~= Seq::<GoodsGroupView>::empty());
    assert(skus_view(r@) =~= Seq::<SkuView>::empty());
    while i < groups.len()
        invariant
            gs == groups_view(groups@),
            kv == text_pairs(known@),
            i <= groups@.len(),
            skus_view(r@) == spec_skus_to_add_by_color(gs.take(i as int), kv, skus_view(skus@)),
        decreases groups.len() - i,
    {
        assert(gs.take(i + 1).drop_last() =~= gs.take(i as int));
        assert(gs.take(i + 1).last() == groups@[i as int]@);
        let gid = text_id_or_zero(known, &groups[i].goods.goods_no);
        push_skus_of_rows_by_color(&mut r, gid, &groups[i].items, skus);
        i = i + 1;
    }
    assert(gs.take(groups@.len() as int) =~= gs);
    r
}

// ---------------------------------------------------------------------
// Order goods
// ---------------------------------------------------------------------

/// Order goods taken by their views.
pub open spec fn order_goods_view(v: Seq<OrderGoodsModel>) -> Seq<OrderGoodsView> {
    v.map_values(|o: OrderGoodsModel| o@)
}

/// (goods id, order goods id) pairs.
pub open spec fn order_goods_pairs(v: Seq<OrderGoodsView>) -> Seq<(i32, i32)> {
    v.map_values(|o: OrderGoodsView| (o.goods_id, o.id))
}

/// The order goods that a style of order `order_id` adds for goods `gid`.
pub open spec fn new_order_goods(g: GoodsGroupView, gid: i32, order_id: i32) -> OrderGoodsView {
    OrderGoodsView {
        id: 0,
        index: g.goods.index,
        images: g.goods.images,
        image_des: seq_or_empty(g.goods.image_des),
        package_card: seq_or_empty(g.goods.package_card),
        package_card_des: seq_or_empty(g.goods.package_card_des),
        order_id,
        goods_id: gid,
    }
}

/// The styles whose goods the order does not hold yet, as order goods.
pub open spec fn spec_order_goods_to_add(
    gs: Seq<GoodsGroupView>,
    known: Seq<(Seq<char>, i32)>,
    existing: Seq<(i32, i32)>,
    order_id: i32,
) -> Seq<OrderGoodsView>
    decreases gs.len(),
{
    if gs.len() == 0 {
        Seq::empty()
    } else {
        let r = spec_order_goods_to_add(gs.drop_last(), known, existing, order_id);
        let gid = val_or_zero(known, gs.last().goods.goods_no);
        if last_val(existing, gid) is None {
            r.push(new_order_goods(gs.last(), gid, order_id))
        } else {
            r
        }
    }
}

proof fn lemma_order_goods_of_style_added(
    gs: Seq<GoodsGroupView>,
    known: Seq<(Seq<char>, i32)>,
    existing: Seq<(i32, i32)>,
    order_id: i32,
    k: int,
)
    requires
        0 <= k < gs.len(),
        last_val(existing, val_or_zero(known, gs[k].goods.goods_no)) is None,
    ensures
        exists|j: int|
            0 <= j < spec_order_goods_to_add(gs, known, existing, order_id).len()
                && (#[trigger] spec_order_goods_to_add(gs, known, existing, order_id)[j]).goods_id
                == val_or_zero(known, gs[k].goods.goods_no),
    decreases gs.len(),
{
    let d = gs.drop_last();
    let r = spec_order_goods_to_add(d, known, existing, order_id);
    let all = spec_order_goods_to_add(gs, known, existing, order_id);
    if k == gs.len() - 1 {
        assert(gs[k] == gs.last());
        assert(all[r.len() as int].goods_id == val_or_zero(known, gs[k].goods.goods_no));
    } else {
        assert(d[k] == gs[k]);
        lemma_order_goods_of_style_added(d, known, existing, order_id, k);
        let j = choose|j: int|
            0 <= j < r.len() && (#[trigger] r[j]).goods_id == val_or_zero(known, gs[k].goods.goods_no);
        assert(all[j] == r[j]);
    }
}

proof fn lemma_order_goods_known_add_nothing(
    gs: Seq<GoodsGroupView>,
    known: Seq<(Seq<char>, i32)>,
    existing: Seq<(i32, i32)>,
    order_id: i32,
)
    requires
        forall|k: int|
            0 <= k < gs.len() ==> last_val(existing, val_or_zero(known, (#[trigger] gs[k]).goods.goods_no))
                is Some,
    ensures
        spec_order_goods_to_add(gs, known, existing, order_id).len() == 0,
    decreases gs.len(),
{
    if gs.len() > 0 {
        let d = gs.drop_last();
        assert forall|k: int| 0 <= k < d.len() implies last_val(
            existing,
            val_or_zero(known, (#[trigger] d[k]).goods.goods_no),
        ) is Some by {
            assert(d[k] == gs[k]);
        }
        lemma_order_goods_known_add_nothing(d, known, existing, order_id);
        assert(gs[gs.len() - 1] == gs.last());
    }
}

/// Importing settles the order goods: once the order goods to add are
/// stored, each found again among the stored ones by its goods id, a
/// second import of the same sheet adds no order goods.
pub proof fn lemma_order_goods_import_settles(
    gs: Seq<GoodsGroupView>,
    known: Seq<(Seq<char>, i32)>,
    existing: Seq<(i32, i32)>,
    added: Seq<(i32, i32)>,
    order_id: i32,
)
    requires
        forall|j: int|
            0 <= j < spec_order_goods_to_add(gs, known, existing, order_id).len() ==> last_val(
                added,
                (#[trigger] spec_order_goods_to_add(gs, known, existing, order_id)[j]).goods_id,
            ) is Some,
    ensures
        spec_order_goods_to_add(gs, known, existing + added, order_id).len() == 0,
{
    assert forall|k: int| 0 <= k < gs.len() implies last_val(
        existing + added,
        val_or_zero(known, (#[trigger] gs[k]).goods.goods_no),
    ) is Some by {
        let gid = val_or_zero(known, gs[k].goods.goods_no);
        lemma_last_val_append(existing, added, gid);
        if last_val(existing, gid) is None {
            lemma_order_goods_of_style_added(gs, known, existing, order_id, k);
        }
    }
    lemma_order_goods_known_add_nothing(gs, known, existing + added, order_id);
}

/// The (goods id, id) pairs of order goods.
pub fn order_goods_pairs_of(v: &Vec<OrderGoodsModel>) -> (r: Vec<(i32, i32)>)
    ensures
        r@ == order_goods_pairs(order_goods_view(v@)),
{
    let mut r: Vec<(i32, i32)> = Vec::new();
    let mut i: usize = 0;
    while i < v.len()
        invariant
            i <= v@.len(),
            r@ == order_goods_pairs(order_goods_view(v@)).take(i as int),
        decreases v.len() - i,
    {
        r.push((v[i].goods_id, v[i].id));
        i = i + 1;
        assert(r@ =~= order_goods_pairs(order_goods_view(v@)).take(i as int));
    }
    assert(order_goods_pairs(order_goods_view(v@)).take(v@.len() as int) =~= order_goods_pairs(
        order_goods_view(v@),
    ));
    r
}

/// The order goods ids of an order, one per goods id.
pub fn order_goods_ids_of(v: &Vec<OrderGoodsModel>) -> (r: Vec<i32>)
    ensures
        r@ == distinct_vals(order_goods_pairs(order_goods_view(v@))),
{
    let pairs = order_goods_pairs_of(v);
    int_ids(&pairs)
}

fn new_order_goods_exec(g: &ExcelOrderGoodsWithItems, gid: i32, order_id: i32) -> (r: OrderGoodsModel)
    ensures
        r@ == new_order_goods(g@, gid, order_id),
{
    OrderGoodsModel {
        id: 0,
        index: g.goods.index,
        images: clone_strings(&g.goods.images),
        image_des: opt_string_or_empty(&g.goods.image_des),
        package_card: opt_string_or_empty(&g.goods.package_card),
        package_card_des: opt_string_or_empty(&g.goods.package_card_des),
        order_id,
        goods_id: gid,
    }
}

/// The order goods to add to order `order_id`. Nothing is added when the
/// order already holds at least `goods_id_count` order goods (the number
/// of distinct goods of the spreadsheet); otherwise every style, in
/// order, whose goods id (by `known`, 0 if none) has no order goods yet.
pub fn order_goods_to_add(
    groups: &Vec<ExcelOrderGoodsWithItems>,
    known: &Vec<(String, i32)>,
    existing: &Vec<OrderGoodsModel>,
    goods_id_count: usize,
    order_id: i32,
) -> (r: Vec<OrderGoodsModel>)
    ensures
        order_goods_view(r@) == if existing@.len() < goods_id_count {
            spec_order_goods_to_add(
                groups_view(groups@),
                text_pairs(known@),
                order_goods_pairs(order_goods_view(existing@)),
                order_id,
            )
        } else {
            Seq::empty()
        },
{
    let mut r: Vec<OrderGoodsModel> = Vec::new();
    assert(order_goods_view(r@) =~= Seq::<OrderGoodsView>::empty());
    if existing.len() >= goods_id_count {
        return r;
    }
    let ghost gs = groups_view(groups@);
    let ghost kv = text_pairs(known@);
    let pairs = order_goods_pairs_of(existing);
    let mut i: usize = 0;
    assert(gs.take(0) =~= Seq::<GoodsGroupView>::empty());
    while i < groups.len()
        invariant
            gs == groups_view(groups@),
            kv == text_pairs(known@),
            pairs@ == order_goods_pairs(order_goods_view(existing@)),
            i <= groups@.len(),
            order_goods_view(r@) == spec_order_goods_to_add(gs.take(i as int), kv, pairs@, order_id),
        decreases groups.len() - i,
    {
        assert(gs.take(i + 1).drop_last() =~= gs.take(i as int));
        assert(gs.take(i + 1).last() == groups@[i as int]@);
        let gid = text_id_or_zero(known, &groups[i].goods.goods_no);
        let ghost old_r = order_goods_view(r@);
        if crate::common::assoc::find_int_id(&pairs, gid).is_none() {
            let o = new_order_goods_exec(&groups[i], gid, order_id);
            r.push(o);
            assert(order_goods_view(r@) =~= old_r.push(o@));
        }
        i = i + 1;
    }
    assert(gs.take(groups@.len() as int) =~= gs);
    r
}

// ---------------------------------------------------------------------
// Order items
// ---------------------------------------------------------------------

pub open spec fn or_zero(v: Option<i32>) -> i32 {
    match v {
        Some(x) => x,
        None => 0,
    }
}

/// The order item that a row adds.
pub open spec fn new_order_item(ogid: i32, order_id: i32, sid: i32, it: OrderItemExcelView) -> OrderItemView {
    OrderItemView {
        id: 0,
        order_goods_id: ogid,
        order_id,
        sku_id: sid,
        count: it.count,
        unit: Some(seq_or_empty(it.unit)),
        unit_price: Some(or_zero(it.unit_price)),
        total_price: Some(or_zero(it.total_price)),
        notes_images: it.notes_images,
        notes: seq_or_empty(it.notes),
    }
}

/// The rows of style `gid` whose SKU the order does not hold yet.
pub open spec fn items_of_rows(
    gid: i32,
    ogid: i32,
    items: Seq<OrderItemExcelView>,
    skus: Seq<SkuView>,
    existing_sku_ids: Seq<i32>,
    order_id: i32,
) -> Seq<OrderItemView>
    decreases items.len(),
{
    if items.len() == 0 {
        Seq::empty()
    } else {
        let r = items_of_rows(gid, ogid, items.drop_last(), skus, existing_sku_ids, order_id);
        let sid = val_or_zero(sku_color_pairs(skus), (gid, items.last().color));
        if !existing_sku_ids.contains(sid) {
            r.push(new_order_item(ogid, order_id, sid, items.last()))
        } else {
            r
        }
    }
}

/// The order items to add, style by style.
pub open spec fn spec_order_items_to_add(
    gs: Seq<GoodsGroupView>,
    known: Seq<(Seq<char>, i32)>,
    skus: Seq<SkuView>,
    order_goods: Seq<(i32, i32)>,
    existing_sku_ids: Seq<i32>,
    order_id: i32,
) -> Seq<OrderItemView>
    decreases gs.len(),
{
    if gs.len() == 0 {
        Seq::empty()
    } else {
        let gid = val_or_zero(known, gs.last().goods.goods_no);
        spec_order_items_to_add(gs.drop_last(), known, skus, order_goods, existing_sku_ids, order_id)
            + items_of_rows(
            gid,
            val_or_zero(order_goods, gid),
            gs.last().items,
            skus,
            existing_sku_ids,
            order_id,
        )
    }
}

/// Order items taken by their views.
pub open spec fn order_items_view(v: Seq<OrderItemModel>) -> Seq<OrderItemView> {
    v.map_values(|o: OrderItemModel| o@)
}

fn or_zero_exec(v: Option<i32>) -> (r: i32)
    ensures
        r == or_zero(v),
{
    match v {
        Some(x) => x,
        None => 0,
    }
}

fn new_order_item_exec(ogid: i32, order_id: i32, sid: i32, it: &OrderItemExcel) -> (r: OrderItemModel)
    ensures
        r@ == new_order_item(ogid, order_id, sid, it@),
{
    OrderItemModel {
        id: 0,
        order_goods_id: ogid,
        order_id,
        sku_id: sid,
        count: it.count,
        unit: Some(opt_string_or_empty(&it.unit)),
        unit_price: Some(or_zero_exec(it.unit_price)),
        total_price: Some(or_zero_exec(it.total_price)),
        notes_images: clone_strings(&it.notes_images),
        notes: opt_string_or_empty(&it.notes),
    }
}

fn push_items_of_rows(
    out: &mut Vec<OrderItemModel>,
    gid: i32,
    ogid: i32,
    items: &Vec<OrderItemExcel>,
    skus: &Vec<SKUModel>,
    existing_sku_ids: &Vec<i32>,
    order_id: i32,
)
    ensures
        order_items_view(final(out)@) == order_items_view(old(out)@) + items_of_rows(
            gid,
            ogid,
            crate::model::order::items_view(items@),
            skus_view(skus@),
            existing_sku_ids@,
            order_id,
        ),
{
    let ghost iv = crate::model::order::items_view(items@);
    let ghost start = order_items_view(out@);
    let mut i: usize = 0;
    assert(iv.take(0) =~= Seq::<OrderItemExcelView>::empty());
    assert(start + Seq::<OrderItemView>::empty() =~= start);
    while i < items.len()
        invariant
            iv == crate::model::order::items_view(items@),
            i <= items@.len(),
            order_items_view(out@) == start + items_of_rows(
                gid,
                ogid,
                iv.take(i as int),
                skus_view(skus@),
                existing_sku_ids@,
                order_id,
            ),
        decreases items.len() - i,
    {
        assert(iv.take(i + 1).drop_last() =~= iv.take(i as int));
        assert(iv.take(i + 1).last() == items@[i as int]@);
        let ghost old_out = order_items_view(out@);
        let sid = match find_sku_id_by_color(skus, gid, &items[i].color) {
            Some(x) => x,
            None => 0,
        };
        if !contains_i32(existing_sku_ids, sid) {
            let o = new_order_item_exec(ogid, order_id, sid, &items[i]);
            out.push(o);
            assert(order_items_view(out@) =~= old_out.push(o@));
        }
        i = i + 1;
        assert(order_items_view(out@) =~= start + items_of_rows(
            gid,
            ogid,
            iv.take(i as int),
            skus_view(skus@),
            existing_sku_ids@,
            order_id,
        ));
    }
    assert(iv.take(items@.len() as int) =~= iv);
}

proof fn lemma_row_item_added(
    gid: i32,
    ogid: i32,
    items: Seq<OrderItemExcelView>,
    skus: Seq<SkuView>,
    existing_sku_ids: Seq<i32>,
    order_id: i32,
    i: int,
)
    requires
        0 <= i < items.len(),
        !existing_sku_ids.contains(val_or_zero(sku_color_pairs(skus), (gid, items[i].color))),
    ensures
        exists|j: int|
            0 <= j < items_of_rows(gid, ogid, items, skus, existing_sku_ids, order_id).len()
                && (#[trigger] items_of_rows(gid, ogid, items, skus, existing_sku_ids, order_id)[j]).sku_id
                == val_or_zero(sku_color_pairs(skus), (gid, items[i].color)),
    decreases items.len(),
{
    let d = items.drop_last();
    let r = items_of_rows(gid, ogid, d, skus, existing_sku_ids, order_id);
    let all = items_of_rows(gid, ogid, items, skus, existing_sku_ids, order_id);
    if i == items.len() - 1 {
        assert(items[i] == items.last());
        assert(all[r.len() as int].sku_id == val_or_zero(sku_color_pairs(skus), (gid, items[i].color)));
    } else {
        assert(d[i] == items[i]);
        lemma_row_item_added(gid, ogid, d, skus, existing_sku_ids, order_id, i);
        let j = choose|j: int|
            0 <= j < r.len() && (#[trigger] r[j]).sku_id == val_or_zero(
                sku_color_pairs(skus),
                (gid, items[i].color),
            );
        assert(all[j] == r[j]);
    }
}

proof fn lemma_style_item_added(
    gs: Seq<GoodsGroupView>,
    known: Seq<(Seq<char>, i32)>,
    skus: Seq<SkuView>,
    order_goods: Seq<(i32, i32)>,
    existing_sku_ids: Seq<i32>,
    order_id: i32,
    k: int,
    i: int,
)
    requires
        0 <= k < gs.len(),
        0 <= i < gs[k].items.len(),
        !existing_sku_ids.contains(
            val_or_zero(
                sku_color_pairs(skus),
                (val_or_zero(known, gs[k].goods.goods_no), gs[k].items[i].color),
            ),
        ),
    ensures
        exists|j: int|
            0 <= j < spec_order_items_to_add(gs, known, skus, order_goods, existing_sku_ids, order_id).len()
                && (#[trigger] spec_order_items_to_add(
                gs,
                known,
                skus,
                order_goods,
                existing_sku_ids,
                order_id,
            )[j]).sku_id == val_or_zero(
                sku_color_pairs(skus),
                (val_or_zero(known, gs[k].goods.goods_no), gs[k].items[i].color),
            ),
    decreases gs.len(),
{
    let d = gs.drop_last();
    let head = spec_order_items_to_add(d, known, skus, order_goods, existing_sku_ids, order_id);
    let all = spec_order_items_to_add(gs, known, skus, order_goods, existing_sku_ids, order_id);
    let sid = val_or_zero(
        sku_color_pairs(skus),
        (val_or_zero(known, gs[k].goods.goods_no), gs[k].items[i].color),
    );
    if k == gs.len() - 1 {
        assert(gs[k] == gs.last());
        let gid = val_or_zero(known, gs.last().goods.goods_no);
        let tail = items_of_rows(
            gid,
            val_or_zero(order_goods, gid),
            gs.last().items,
            skus,
            existing_sku_ids,
            order_id,
        );
        assert(all == head + tail);
        lemma_row_item_added(
            gid,
            val_or_zero(order_goods, gid),
            gs.last().items,
            skus,
            existing_sku_ids,
            order_id,
            i,
        );
        let j = choose|j: int| 0 <= j < tail.len() && (#[trigger] tail[j]).sku_id == sid;
        assert(all[head.len() + j] == tail[j]);
    } else {
        assert(d[k] == gs[k]);
        lemma_style_item_added(d, known, skus, order_goods, existing_sku_ids, order_id, k, i);
        let j = choose|j: int| 0 <= j < head.len() && (#[trigger] head[j]).sku_id == sid;
        assert(all[j] == head[j]);
    }
}

proof fn lemma_rows_held_add_nothing(
    gid: i32,
    ogid: i32,
    items: Seq<OrderItemExcelView>,
    skus: Seq<SkuView>,
    existing_sku_ids: Seq<i32>,
    order_id: i32,
)
    requires
        forall|i: int|
            0 <= i < items.len() ==> existing_sku_ids.contains(
                val_or_zero(sku_color_pairs(skus), (gid, (#[trigger] items[i]).color)),
            ),
    ensures
        items_of_rows(gid, ogid, items, skus, existing_sku_ids, order_id).len() == 0,
    decreases items.len(),
{
    if items.len() > 0 {
        let d = items.drop_last();
        assert forall|i: int| 0 <= i < d.len() implies existing_sku_ids.contains(
            val_or_zero(sku_color_pairs(skus), (gid, (#[trigger] d[i]).color)),
        ) by {
            assert(d[i] == items[i]);
        }
        lemma_rows_held_add_nothing(gid, ogid, d, skus, existing_sku_ids, order_id);
        assert(items[items.len() - 1] == items.last());
    }
}

proof fn lemma_sheet_rows_held_add_nothing(
    gs: Seq<GoodsGroupView>,
    known: Seq<(Seq<char>, i32)>,
    skus: Seq<SkuView>,
    order_goods: Seq<(i32, i32)>,
    existing_sku_ids: Seq<i32>,
    order_id: i32,
)
    requires
        forall|k: int, i: int|
            0 <= k < gs.len() && 0 <= i < gs[k].items.len() ==> existing_sku_ids.contains(
                val_or_zero(
                    sku_color_pairs(skus),
                    (val_or_zero(known, gs[k].goods.goods_no), (#[trigger] gs[k].items[i]).color),
                ),
            ),
    ensures
        spec_order_items_to_add(gs, known, skus, order_goods, existing_sku_ids, order_id).len() == 0,
    decreases gs.len(),
{
    if gs.len() > 0 {
        let d = gs.drop_last();
        assert forall|k: int, i: int| 0 <= k < d.len() && 0 <= i < d[k].items.len() implies existing_sku_ids.contains(
            val_or_zero(
                sku_color_pairs(skus),
                (val_or_zero(known, d[k].goods.goods_no), (#[trigger] d[k].items[i]).color),
            ),
        ) by {
            assert(d[k] == gs[k]);
        }
        lemma_sheet_rows_held_add_nothing(d, known, skus, order_goods, existing_sku_ids, order_id);
        let last = gs.last();
        assert(gs[gs.len() - 1] == last);
        let gid = val_or_zero(known, last.goods.goods_no);
        lemma_rows_held_add_nothing(
            gid,
            val_or_zero(order_goods, gid),
            last.items,
            skus,
            existing_sku_ids,
            order_id,
        );
    }
}

/// Importing settles the order items: once the order items to add are
/// stored and their SKU ids join those the order held, a second import of
/// the same sheet adds no order item.
pub proof fn lemma_order_items_import_settles(
    gs: Seq<GoodsGroupView>,
    known: Seq<(Seq<char>, i32)>,
    skus: Seq<SkuView>,
    order_goods: Seq<(i32, i32)>,
    existing_sku_ids: Seq<i32>,
    added_sku_ids: Seq<i32>,
    order_id: i32,
)
    requires
        forall|j: int|
            0 <= j < spec_order_items_to_add(gs, known, skus, order_goods, existing_sku_ids, order_id).len()
                ==> added_sku_ids.contains(
                (#[trigger] spec_order_items_to_add(
                    gs,
                    known,
                    skus,
                    order_goods,
                    existing_sku_ids,
                    order_id,
                )[j]).sku_id,
            ),
    ensures
        spec_order_items_to_add(
            gs,
            known,
            skus,
            order_goods,
            existing_sku_ids + added_sku_ids,
            order_id,
        ).len() == 0,
{
    let after = existing_sku_ids + added_sku_ids;
    let all = spec_order_items_to_add(gs, known, skus, order_goods, existing_sku_ids, order_id);
    assert forall|k: int, i: int| 0 <= k < gs.len() && 0 <= i < gs[k].items.len() implies after.contains(
        val_or_zero(
            sku_color_pairs(skus),
            (val_or_zero(known, gs[k].goods.goods_no), (#[trigger] gs[k].items[i]).color),
        ),
    ) by {
        let sid = val_or_zero(
            sku_color_pairs(skus),
            (val_or_zero(known, gs[k].goods.goods_no), gs[k].items[i].color),
        );
        if existing_sku_ids.contains(sid) {
            let t = choose|t: int| 0 <= t < existing_sku_ids.len() && existing_sku_ids[t] == sid;
            assert(after[t] == sid);
        } else {
            lemma_style_item_added(gs, known, skus, order_goods, existing_sku_ids, order_id, k, i);
            let j = choose|j: int| 0 <= j < all.len() && (#[trigger] all[j]).sku_id == sid;
            assert(added_sku_ids.contains(all[j].sku_id));
            let t = choose|t: int| 0 <= t < added_sku_ids.len() && added_sku_ids[t] == sid;
            assert(after[existing_sku_ids.len() + t] == sid);
        }
    }
    lemma_sheet_rows_held_add_nothing(gs, known, skus, order_goods, after, order_id);
}

/// `item` is the order item that spreadsheet row `row` makes: no id yet,
/// in order goods `ogid` of order `order_id`, of SKU `sid`, with the row's
/// count, unit, unit price, total price (0 where a price is missing), note
/// pictures and notes.
pub open spec fn item_carries_row(
    item: OrderItemView,
    row: OrderItemExcelView,
    sid: i32,
    ogid: i32,
    order_id: i32,
) -> bool {
    &&& item.id == 0
    &&& item.order_goods_id == ogid
    &&& item.order_id == order_id
    &&& item.sku_id == sid
    &&& item.count == row.count
    &&& item.unit == Some(
        match row.unit {
            Some(u) => u,
            None => Seq::<char>::empty(),
        },
    )
    &&& item.unit_price == Some(
        match row.unit_price {
            Some(x) => x,
            None => 0i32,
        },
    )
    &&& item.total_price == Some(
        match row.total_price {
            Some(x) => x,
            None => 0i32,
        },
    )
    &&& item.notes_images == row.notes_images
    &&& item.notes == match row.notes {
        Some(n) => n,
        None => Seq::<char>::empty(),
    }
}

/// `item` is made by one of the rows `items` of the style with id `gid`,
/// one whose SKU the order did not hold.
pub open spec fn made_by_style_row(
    item: OrderItemView,
    gid: i32,
    ogid: i32,
    items: Seq<OrderItemExcelView>,
    skus: Seq<SkuView>,
    existing_sku_ids: Seq<i32>,
    order_id: i32,
) -> bool {
    exists|i: int|
        0 <= i < items.len() && !existing_sku_ids.contains(
            val_or_zero(sku_color_pairs(skus), (gid, items[i].color)),
        ) && #[trigger] item_carries_row(
            item,
            items[i],
            val_or_zero(sku_color_pairs(skus), (gid, items[i].color)),
            ogid,
            order_id,
        )
}

/// `item` is made by a row of the sheet `gs` whose SKU the order did not
/// hold: in the order goods of the row's style, of the SKU of the row's
/// style and colour.
pub open spec fn made_by_sheet_row(
    item: OrderItemView,
    gs: Seq<GoodsGroupView>,
    known: Seq<(Seq<char>, i32)>,
    skus: Seq<SkuView>,
    order_goods: Seq<(i32, i32)>,
    existing_sku_ids: Seq<i32>,
    order_id: i32,
) -> bool {
    exists|k: int|
        0 <= k < gs.len() && #[trigger] made_by_style_row(
            item,
            val_or_zero(known, gs[k].goods.goods_no),
            val_or_zero(order_goods, val_or_zero(known, gs[k].goods.goods_no)),
            gs[k].items,
            skus,
            existing_sku_ids,
            order_id,
        )
}

proof fn lemma_row_items_carry_rows(
    gid: i32,
    ogid: i32,
    items: Seq<OrderItemExcelView>,
    skus: Seq<SkuView>,
    existing_sku_ids: Seq<i32>,
    order_id: i32,
)
    ensures
        forall|j: int|
            0 <= j < items_of_rows(gid, ogid, items, skus, existing_sku_ids, order_id).len()
                ==> #[trigger] made_by_style_row(
                items_of_rows(gid, ogid, items, skus, existing_sku_ids, order_id)[j],
                gid,
                ogid,
                items,
                skus,
                existing_sku_ids,
                order_id,
            ),
    decreases items.len(),
{
    if items.len() > 0 {
        let d = items.drop_last();
        lemma_row_items_carry_rows(gid, ogid, d, skus, existing_sku_ids, order_id);
        let r = items_of_rows(gid, ogid, d, skus, existing_sku_ids, order_id);
        let last = items.last();
        assert(items[items.len() - 1] == last);
        assert forall|j: int|
            0 <= j < items_of_rows(gid, ogid, items, skus, existing_sku_ids, order_id).len()
                implies #[trigger] made_by_style_row(
                items_of_rows(gid, ogid, items, skus, existing_sku_ids, order_id)[j],
                gid,
                ogid,
                items,
                skus,
                existing_sku_ids,
                order_id,
            ) by {
            let all = items_of_rows(gid, ogid, items, skus, existing_sku_ids, order_id);
            if j < r.len() {
                assert(all[j] == r[j]);
                assert(made_by_style_row(r[j], gid, ogid, d, skus, existing_sku_ids, order_id));
                let i = choose|i: int|
                    0 <= i < d.len() && !existing_sku_ids.contains(
                        val_or_zero(sku_color_pairs(skus), (gid, d[i].color)),
                    ) && #[trigger] item_carries_row(
                        r[j],
                        d[i],
                        val_or_zero(sku_color_pairs(skus), (gid, d[i].color)),
                        ogid,
                        order_id,
                    );
                assert(d[i] == items[i]);
                assert(item_carries_row(
                    all[j],
                    items[i],
                    val_or_zero(sku_color_pairs(skus), (gid, items[i].color)),
                    ogid,
                    order_id,
                ));
            } else {
                let li = items.len() - 1;
                assert(item_carries_row(
                    all[j],
                    items[li],
                    val_or_zero(sku_color_pairs(skus), (gid, items[li].color)),
                    ogid,
                    order_id,
                ));
            }
        }
    }
}

/// Every order item an import adds is made by a row of the sheet whose
/// SKU the order did not hold, and carries that row's own count, unit,
/// unit price and total price (0 for a missing price), notes and note
/// pictures, in the order goods of the row's style, of the SKU of the
/// row's style and colour.
pub proof fn lemma_added_items_carry_their_rows(
    gs: Seq<GoodsGroupView>,
    known: Seq<(Seq<char>, i32)>,
    skus: Seq<SkuView>,
    order_goods: Seq<(i32, i32)>,
    existing_sku_ids: Seq<i32>,
    order_id: i32,
)
    ensures
        forall|j: int|
            0 <= j < spec_order_items_to_add(gs, known, skus, order_goods, existing_sku_ids, order_id).len()
                ==> #[trigger] made_by_sheet_row(
                spec_order_items_to_add(gs, known, skus, order_goods, existing_sku_ids, order_id)[j],
                gs,
                known,
                skus,
                order_goods,
                existing_sku_ids,
                order_id,
            ),
    decreases gs.len(),
{
    if gs.len() > 0 {
        let d = gs.drop_last();
        lemma_added_items_carry_their_rows(d, known, skus, order_goods, existing_sku_ids, order_id);
        let head = spec_order_items_to_add(d, known, skus, order_goods, existing_sku_ids, order_id);
        let last = gs.last();
        let gid = val_or_zero(known, last.goods.goods_no);
        let ogid = val_or_zero(order_goods, gid);
        let tail = items_of_rows(gid, ogid, last.items, skus, existing_sku_ids, order_id);
        lemma_row_items_carry_rows(gid, ogid, last.items, skus, existing_sku_ids, order_id);
        let kl = gs.len() - 1;
        assert(gs[kl] == last);
        assert forall|j: int|
            0 <= j < spec_order_items_to_add(gs, known, skus, order_goods, existing_sku_ids, order_id).len()
                implies #[trigger] made_by_sheet_row(
                spec_order_items_to_add(gs, known, skus, order_goods, existing_sku_ids, order_id)[j],
                gs,
                known,
                skus,
                order_goods,
                existing_sku_ids,
                order_id,
            ) by {
            let all = spec_order_items_to_add(gs, known, skus, order_goods, existing_sku_ids, order_id);
            assert(all == head + tail);
            if j < head.len() {
                assert(all[j] == head[j]);
                assert(made_by_sheet_row(head[j], d, known, skus, order_goods, existing_sku_ids, order_id));
                let k = choose|k: int|
                    0 <= k < d.len() && #[trigger] made_by_style_row(
                        head[j],
                        val_or_zero(known, d[k].goods.goods_no),
                        val_or_zero(order_goods, val_or_zero(known, d[k].goods.goods_no)),
                        d[k].items,
                        skus,
                        existing_sku_ids,
                        order_id,
                    );
                assert(d[k] == gs[k]);
                assert(made_by_style_row(
                    all[j],
                    val_or_zero(known, gs[k].goods.goods_no),
                    val_or_zero(order_goods, val_or_zero(known, gs[k].goods.goods_no)),
                    gs[k].items,
                    skus,
                    existing_sku_ids,
                    order_id,
                ));
            } else {
                let jt = j - head.len();
                assert(all[j] == tail[jt]);
                assert(made_by_style_row(tail[jt], gid, ogid, last.items, skus, existing_sku_ids, order_id));
                assert(made_by_style_row(
                    all[j],
                    val_or_zero(known, gs[kl].goods.goods_no),
                    val_or_zero(order_goods, val_or_zero(known, gs[kl].goods.goods_no)),
                    gs[kl].items,
                    skus,
                    existing_sku_ids,
                    order_id,
                ));
            }
        }
    }
}

/// The order items to add to order `order_id`: for every row, in order,
/// the SKU of its style and colour (0 if the store has none), unless the
/// order already holds an item of that SKU. `order_goods` gives the order
/// goods id of each goods id.
pub fn order_items_to_add(
    groups: &Vec<ExcelOrderGoodsWithItems>,
    known: &Vec<(String, i32)>,
    skus: &Vec<SKUModel>,
    order_goods: &Vec<OrderGoodsModel>,
    existing_sku_ids: &Vec<i32>,
    order_id: i32,
) -> (r: Vec<OrderItemModel>)
    ensures
        order_items_view(r@) == spec_order_items_to_add(
            groups_view(groups@),
            text_pairs(known@),
            skus_view(skus@),
            order_goods_pairs(order_goods_view(order_goods@)),
            existing_sku_ids@,
            order_id,
        ),
{
    let ghost gs = groups_view(groups@);
    let ghost kv = text_pairs(known@);
    let pairs = order_goods_pairs_of(order_goods);
    let mut r: Vec<OrderItemModel> = Vec::new();
    let mut i: usize = 0;
    assert(gs.take(0) =~= Seq::<GoodsGroupView>::empty());
    assert(order_items_view(r@) =~= Seq::<OrderItemView>::empty());
    while i < groups.len()
        invariant
            gs == groups_view(groups@),
            kv == text_pairs(known@),
            pairs@ == order_goods_pairs(order_goods_view(order_goods@)),
            i <= groups@.len(),
            order_items_view(r@) == spec_order_items_to_add(
                gs.take(i as int),
                kv,
                skus_view(skus@),
                pairs@,
                existing_sku_ids@,
                order_id,
            ),
        decreases groups.len() - i,
    {
        assert(gs.take(i + 1).drop_last() =~= gs.take(i as int));
        assert(gs.take(i + 1).last() == groups@[i as int]@);
        let gid = text_id_or_zero(known, &groups[i].goods.goods_no);
        let ogid = int_id_or_zero(&pairs, gid);
        push_items_of_rows(&mut r, gid, ogid, &groups[i].items, skus, existing_sku_ids, order_id);
        i = i + 1;
    }
    assert(gs.take(groups@.len() as int) =~= gs);
    r
}

} // verus!
