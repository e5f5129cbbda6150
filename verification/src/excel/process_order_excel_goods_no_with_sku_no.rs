//! Storing an imported order whose rows carry SKU numbers: the SKUs are
//! told apart by their numbers instead of their colours.
use crate::common::assoc::{text_id_or_zero, text_pairs, val_or_zero};
use crate::excel::process_order_excel_goods::new_sku;
use crate::model::goods::{skus_view, SKUModel, SkuView};
use crate::model::order::{
    groups_view, items_view, seq_or_empty, ExcelOrderGoodsWithItems, GoodsGroupView, OrderItemExcel,
    OrderItemExcelView,
};
use crate::common::string::opt_string_or_empty;
use vstd::prelude::*;

verus! {

/// The SKU numbers that the store holds.
pub open spec fn sku_nos(skus: Seq<SkuView>) -> Seq<Seq<char>> {
    skus.map_values(|s: SkuView| s.sku_no)
}

/// The rows of style `gid` whose SKU number (empty if none) the store
/// does not hold.
pub open spec fn skus_of_rows_by_sku_no(
    gid: i32,
    items: Seq<OrderItemExcelView>,
    nos: Seq<Seq<char>>,
) -> Seq<SkuView>
    decreases items.len(),
{
    if items.len() == 0 {
        Seq::empty()
    } else {
        let r = skus_of_rows_by_sku_no(gid, items.drop_last(), nos);
        if !nos.contains(seq_or_empty(items.last().sku_no)) {
            r.push(new_sku(gid, items.last()))
        } else {
            r
        }
    }
}

/// The SKUs to add, style by style.
pub open spec fn spec_skus_to_add_by_sku_no(
    gs: Seq<GoodsGroupView>,
    known: Seq<(Seq<char>, i32)>,
    nos: Seq<Seq<char>>,
) -> Seq<SkuView>
    decreases gs.len(),
{
    if gs.len() == 0 {
        Seq::empty()
    } else {
        spec_skus_to_add_by_sku_no(gs.drop_last(), known, nos) + skus_of_rows_by_sku_no(
            val_or_zero(known, gs.last().goods.goods_no),
            gs.last().items,
            nos,
        )
    }
}

fn sku_no_known(skus: &Vec<SKUModel>, no: &String) -> (r: bool)
    ensures
        r == sku_nos(skus_view(skus@)).contains(no@),
{
    let ghost nos = sku_nos(skus_view(skus@));
    let mut i: usize = 0;
    while i < skus.len()
        invariant
            nos == sku_nos(skus_view(skus@)),
            i <= skus@.len(),
            forall|t: int| 0 <= t < i ==> nos[t] != no@,
        decreases skus.len() - i,
    {
        if skus[i].sku_no == *no {
            assert(nos[i as int] == no@);
            return true;
        }
        i = i + 1;
    }
    false
}

fn push_skus_of_rows_by_sku_no(
    out: &mut Vec<SKUModel>,
    gid: i32,
    items: &Vec<OrderItemExcel>,
    skus: &Vec<SKUModel>,
)
    ensures
        skus_view(final(out)@) == skus_view(old(out)@) + skus_of_rows_by_sku_no(
            gid,
            items_view(items@),
            sku_nos(skus_view(skus@)),
        ),
{
    let ghost iv = items_view(items@);
    let ghost nos = sku_nos(skus_view(skus@));
    let ghost start = skus_view(out@);
    let mut i: usize = 0;
    assert(iv.take(0) =~= Seq::<OrderItemExcelView>::empty());
    assert(start + Seq::<SkuView>::empty() =~= start);
    while i < items.len()
        invariant
            iv == items_view(items@),
            nos == sku_nos(skus_view(skus@)),
            i <= items@.len(),
            skus_view(out@) == start + skus_of_rows_by_sku_no(gid, iv.take(i as int), nos),
        decreases items.len() - i,
    {
        assert(iv.take(i + 1).drop_last() =~= iv.take(i as int));
        assert(iv.take(i + 1).last() == items@[i as int]@);
        let ghost old_out = skus_view(out@);
        let no = opt_string_or_empty(&items[i].sku_no);
        if !sku_no_known(skus, &no) {
            let s = SKUModel {
                id: 0,
                goods_id: gid,
                sku_no: no,
                color: items[i].color.clone(),
                color2: opt_string_or_empty(&items[i].color_2),
                notes: None,
            };
            assert(s@ == new_sku(gid, iv[i as int]));
            out.push(s);
            assert(skus_view(out@) =~= old_out.push(s@));
        }
        i = i + 1;
        assert(skus_view(out@) =~= start + skus_of_rows_by_sku_no(gid, iv.take(i as int), nos));
    }
    assert(iv.take(items@.len() as int) =~= iv);
}

/// The SKUs to add to the store: for every row, in order, whose SKU
/// number (empty if none) the store does not hold, a SKU of its style (by
/// the id its goods number has among `known`, 0 if none).
pub fn skus_to_add_by_sku_no(
    groups: &Vec<ExcelOrderGoodsWithItems>,
    known: &Vec<(String, i32)>,
    skus: &Vec<SKUModel>,
) -> (r: Vec<SKUModel>)
    ensures
        skus_view(r@) == spec_skus_to_add_by_sku_no(
            groups_view(groups@),
            text_pairs(known@),
            sku_nos(skus_view(skus@)),
        ),
{
    let ghost gs = groups_view(groups@);
    let ghost kv = text_pairs(known@);
    let mut r: Vec<SKUModel> = Vec::new();
    let mut i: usize = 0;
    assert(gs.take(0) =~= Seq::<GoodsGroupView>::empty());
    assert(skus_view(r@) =~= Seq::<SkuView>::empty());
    while i < groups.len()
        invariant
            gs == groups_view(groups@),
            kv == text_pairs(known@),
            i <= groups@.len(),
            skus_view(r@) == spec_skus_to_add_by_sku_no(gs.take(i as int), kv, sku_nos(skus_view(skus@))),
        decreases groups.len() - i,
    {
        assert(gs.take(i + 1).drop_last() =~= gs.take(i as int));
        assert(gs.take(i + 1).last() == groups@[i as int]@);
        let gid = text_id_or_zero(known, &groups[i].goods.goods_no);
        push_skus_of_rows_by_sku_no(&mut r, gid, &groups[i].items, skus);
        i = i + 1;
    }
    assert(gs.take(groups@.len() as int) =~= gs);
    r
}

} // verus!
