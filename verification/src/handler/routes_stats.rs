//! Statistics of goods and SKUs that come back on several orders.
use crate::common::assoc::{find_pair_val, last_val};
use crate::dto::dto_goods::{same_goods_dto, same_sku_dto, GoodsDto, SKUModelDto};
use crate::dto::dto_stats::{ReturnOrderGoodsStat, ReturnOrderItemStat};
use vstd::prelude::*;

verus! {

/// A listing of order statistics.
#[derive(Debug)]
pub struct OrderStatParam {
    pub customer_no: Option<String>,
    pub page: Option<i32>,
    pub page_size: Option<i32>,
}

/// A listing of statistics of returned orders.
#[derive(Debug)]
pub struct ReturnOrderStatParam {
    pub customer_no: Option<String>,
    pub sorter_field: Option<String>,
    pub sorter_order: Option<String>,
    pub page: Option<i32>,
    pub page_size: Option<i32>,
}

/// The last style with id `id`.
pub open spec fn last_goods(goods: Seq<GoodsDto>, id: i32) -> Option<GoodsDto>
    decreases goods.len(),
{
    if goods.len() == 0 {
        None
    } else if goods.last().id == id {
        Some(goods.last())
    } else {
        last_goods(goods.drop_last(), id)
    }
}

/// The last SKU with id `id`.
pub open spec fn last_sku(skus: Seq<SKUModelDto>, id: i32) -> Option<SKUModelDto>
    decreases skus.len(),
{
    if skus.len() == 0 {
        None
    } else if skus.last().id == id {
        Some(skus.last())
    } else {
        last_sku(skus.drop_last(), id)
    }
}

/// The ids of the SKUs of goods `gid`, in order.
pub open spec fn sku_ids_of_goods(skus: Seq<SKUModelDto>, gid: i32) -> Seq<i32>
    decreases skus.len(),
{
    if skus.len() == 0 {
        Seq::empty()
    } else {
        let r = sku_ids_of_goods(skus.drop_last(), gid);
        if skus.last().goods_id == gid {
            r.push(skus.last().id)
        } else {
            r
        }
    }
}

/// The (count, sum) of `k`, or (0, 0).
pub open spec fn count_sum(rows: Seq<(i32, (i32, i32))>, k: i32) -> (i32, i32) {
    match last_val(rows, k) {
        Some(v) => v,
        None => (0, 0),
    }
}

/// `r` is the statistic of SKU `id`: the last SKU with that id, and its
/// count and sum.
pub open spec fn item_stat_matches(
    r: ReturnOrderItemStat,
    id: i32,
    skus: Seq<SKUModelDto>,
    sku_rows: Seq<(i32, (i32, i32))>,
) -> bool {
    &&& last_sku(skus, id) is Some
    &&& same_sku_dto(r.sku, last_sku(skus, id)->0)
    &&& r.count == count_sum(sku_rows, id).0
    &&& r.sum == count_sum(sku_rows, id).1
}

/// `r` is the statistic of goods `gid`: the last style with that id, its
/// count and sum, and the statistic of each of its SKUs in order.
pub open spec fn goods_stat_matches(
    r: ReturnOrderGoodsStat,
    gid: i32,
    goods: Seq<GoodsDto>,
    goods_rows: Seq<(i32, (i32, i32))>,
    skus: Seq<SKUModelDto>,
    sku_rows: Seq<(i32, (i32, i32))>,
) -> bool {
    &&& last_goods(goods, gid) is Some
    &&& same_goods_dto(r.goods, last_goods(goods, gid)->0)
    &&& r.count == count_sum(goods_rows, gid).0
    &&& r.sum == count_sum(goods_rows, gid).1
    &&& r.skus@.len() == sku_ids_of_goods(skus, gid).len()
    &&& forall|j: int|
        0 <= j < r.skus@.len() ==> item_stat_matches(
            #[trigger] r.skus@[j],
            sku_ids_of_goods(skus, gid)[j],
            skus,
            sku_rows,
        )
}

fn find_goods(goods: &Vec<GoodsDto>, id: i32) -> (r: Option<GoodsDto>)
    ensures
        match last_goods(goods@, id) {
            Some(g) => r is Some && same_goods_dto(r->0, g),
            None => r is None,
        },
{
    let mut i: usize = goods.len();
    assert(goods@.take(i as int) =~= goods@);
    while i > 0
        invariant
            i <= goods@.len(),
            last_goods(goods@, id) == last_goods(goods@.take(i as int), id),
        decreases i,
    {
        assert(goods@.take(i as int).drop_last() =~= goods@.take(i - 1));
        assert(goods@.take(i as int).last() == goods@[i - 1]);
        if goods[i - 1].id == id {
            return Some(goods[i - 1].copy());
        }
        i = i - 1;
    }
    assert(goods@.take(0) =~= Seq::<GoodsDto>::empty());
    None
}

fn find_sku(skus: &Vec<SKUModelDto>, id: i32) -> (r: Option<SKUModelDto>)
    ensures
        match last_sku(skus@, id) {
            Some(s) => r is Some && same_sku_dto(r->0, s),
            None => r is None,
        },
{
    let mut i: usize = skus.len();
    assert(skus@.take(i as int) =~= skus@);
    while i > 0
        invariant
            i <= skus@.len(),
            last_sku(skus@, id) == last_sku(skus@.take(i as int), id),
        decreases i,
    {
        assert(skus@.take(i as int).drop_last() =~= skus@.take(i - 1));
        assert(skus@.take(i as int).last() == skus@[i - 1]);
        if skus[i - 1].id == id {
            return Some(skus[i - 1].copy());
        }
        i = i - 1;
    }
    assert(skus@.take(0) =~= Seq::<SKUModelDto>::empty());
    None
}

proof fn lemma_sku_of_goods_found(skus: Seq<SKUModelDto>, gid: i32, j: int)
    requires
        0 <= j < sku_ids_of_goods(skus, gid).len(),
    ensures
        last_sku(skus, sku_ids_of_goods(skus, gid)[j]) is Some,
    decreases skus.len(),
{
    let r = sku_ids_of_goods(skus.drop_last(), gid);
    if j < r.len() {
        lemma_sku_of_goods_found(skus.drop_last(), gid, j);
        let id = r[j];
        if skus.last().id != id {
        }
    }
}

fn sku_stats_of_goods(
    gid: i32,
    skus: &Vec<SKUModelDto>,
    sku_rows: &Vec<(i32, (i32, i32))>,
) -> (r: Vec<ReturnOrderItemStat>)
    ensures
        r@.len() == sku_ids_of_goods(skus@, gid).len(),
        forall|j: int|
            0 <= j < r@.len() ==> item_stat_matches(
                #[trigger] r@[j],
                sku_ids_of_goods(skus@, gid)[j],
                skus@,
                sku_rows@,
            ),
{
    let ghost ids = sku_ids_of_goods(skus@, gid);
    let mut r: Vec<ReturnOrderItemStat> = Vec::new();
    let mut i: usize = 0;
    let ghost count: int = 0;
    assert(skus@.take(0) =~= Seq::<SKUModelDto>::empty());
    while i < skus.len()
        invariant
            ids == sku_ids_of_goods(skus@, gid),
            i <= skus@.len(),
            sku_ids_of_goods(skus@.take(i as int), gid) == ids.take(r@.len() as int),
            r@.len() <= ids.len(),
            forall|j: int|
                0 <= j < r@.len() ==> item_stat_matches(#[trigger] r@[j], ids[j], skus@, sku_rows@),
        decreases skus.len() - i,
    {
        proof {
            lemma_prefix_ids(skus@, gid, i as int);
        }
        assert(skus@.take(i + 1).drop_last() =~= skus@.take(i as int));
        assert(skus@.take(i + 1).last() == skus@[i as int]);
        if skus[i].goods_id == gid {
            let id = skus[i].id;
            let n = r.len();
            proof {
                lemma_prefix_ids(skus@, gid, i + 1);
                let b = sku_ids_of_goods(skus@.take(i + 1), gid);
                assert(b == ids.take(n as int).push(id));
                assert(b.len() == n + 1);
                assert(b == ids.take(n + 1));
                assert(ids.take(n + 1)[n as int] == ids[n as int]);
            }
            assert(ids[n as int] == id);
            proof {
                lemma_sku_of_goods_found(skus@, gid, n as int);
            }
            let sku = match find_sku(skus, id) {
                Some(s) => s,
                None => {
                    assert(false);
                    skus[i].copy()
                },
            };
            let (c, s) = match find_pair_val(sku_rows, id) {
                Some(v) => v,
                None => (0, 0),
            };
            r.push(ReturnOrderItemStat { sku, count: c, sum: s });
            assert(ids.take(r@.len() as int) =~= ids.take(n as int).push(id));
        }
        i = i + 1;
    }
    assert(skus@.take(skus@.len() as int) =~= skus@);
    proof {
        lemma_prefix_ids(skus@, gid, skus@.len() as int);
        assert(ids.take(r@.len() as int).len() == ids.len());
    }
    r
}

proof fn lemma_prefix_ids(skus: Seq<SKUModelDto>, gid: i32, i: int)
    requires
        0 <= i <= skus.len(),
    ensures
        sku_ids_of_goods(skus.take(i), gid).len() <= sku_ids_of_goods(skus, gid).len(),
        sku_ids_of_goods(skus.take(i), gid) == sku_ids_of_goods(skus, gid).take(
            sku_ids_of_goods(skus.take(i), gid).len() as int,
        ),
    decreases skus.len() - i,
{
    if i < skus.len() {
        lemma_prefix_ids(skus, gid, i + 1);
        assert(skus.take(i + 1).drop_last() =~= skus.take(i));
        let a = sku_ids_of_goods(skus.take(i), gid);
        let b = sku_ids_of_goods(skus.take(i + 1), gid);
        let full = sku_ids_of_goods(skus, gid);
        assert(b == full.take(b.len() as int));
        if b.len() == a.len() + 1 {
            assert(a =~= b.drop_last());
            assert(a =~= full.take(a.len() as int));
        } else {
            assert(a == b);
        }
    } else {
        assert(skus.take(i) =~= skus);
        assert(sku_ids_of_goods(skus, gid).take(sku_ids_of_goods(skus, gid).len() as int)
            =~= sku_ids_of_goods(skus, gid));
    }
}

/// Whether every counted style is among the goods looked up.
pub fn all_goods_known(goods_rows: &Vec<(i32, (i32, i32))>, goods: &Vec<GoodsDto>) -> (r: bool)
    ensures
        r == forall|i: int| 0 <= i < goods_rows@.len() ==> last_goods(goods@, #[trigger] goods_rows@[i].0) is Some,
{
    let mut i: usize = 0;
    while i < goods_rows.len()
        invariant
            i <= goods_rows@.len(),
            forall|t: int| 0 <= t < i ==> last_goods(goods@, #[trigger] goods_rows@[t].0) is Some,
        decreases goods_rows.len() - i,
    {
        match find_goods(goods, goods_rows[i].0) {
            Some(_) => {},
            None => {
                return false;
            },
        }
        i = i + 1;
    }
    true
}

/// The statistics of returned goods, in the order of `goods_rows`: each
/// style (which `goods` must hold) with its count and sum, and the count
/// and sum of each of its SKUs.
pub fn goods_stats(
    goods_rows: &Vec<(i32, (i32, i32))>,
    goods: &Vec<GoodsDto>,
    skus: &Vec<SKUModelDto>,
    sku_rows: &Vec<(i32, (i32, i32))>,
) -> (r: Vec<ReturnOrderGoodsStat>)
    requires
        forall|i: int| 0 <= i < goods_rows@.len() ==> last_goods(goods@, #[trigger] goods_rows@[i].0) is Some,
    ensures
        r@.len() == goods_rows@.len(),
        forall|i: int|
            0 <= i < r@.len() ==> goods_stat_matches(
                #[trigger] r@[i],
                goods_rows@[i].0,
                goods@,
                goods_rows@,
                skus@,
                sku_rows@,
            ),
{
    let mut r: Vec<ReturnOrderGoodsStat> = Vec::new();
    let mut i: usize = 0;
    while i < goods_rows.len()
        invariant
            i <= goods_rows@.len(),
            r@.len() == i,
            forall|t: int| 0 <= t < goods_rows@.len() ==> last_goods(goods@, #[trigger] goods_rows@[t].0) is Some,
            forall|t: int|
                0 <= t < i ==> goods_stat_matches(
                    #[trigger] r@[t],
                    goods_rows@[t].0,
                    goods@,
                    goods_rows@,
                    skus@,
                    sku_rows@,
                ),
        decreases goods_rows.len() - i,
    {
        let gid = goods_rows[i].0;
        assert(last_goods(goods@, goods_rows@[i as int].0) is Some);
        let g = match find_goods(goods, gid) {
            Some(g) => g,
            None => {
                assert(false);
                return r;
            },
        };
        let (c, s) = match find_pair_val(goods_rows, gid) {
            Some(v) => v,
            None => (0, 0),
        };
        let stats = sku_stats_of_goods(gid, skus, sku_rows);
        r.push(ReturnOrderGoodsStat { goods: g, skus: stats, count: c, sum: s });
        i = i + 1;
    }
    r
}

/// The ids of `rows` whose SKU `skus` holds, in order.
pub open spec fn known_sku_ids(rows: Seq<(i32, (i32, i32))>, skus: Seq<SKUModelDto>) -> Seq<i32>
    decreases rows.len(),
{
    if rows.len() == 0 {
        Seq::empty()
    } else {
        let r = known_sku_ids(rows.drop_last(), skus);
        if last_sku(skus, rows.last().0) is Some {
            r.push(rows.last().0)
        } else {
            r
        }
    }
}

/// The statistics of returned SKUs, in the order of `sku_rows`, leaving
/// out the SKUs that `skus` does not hold.
pub fn item_stats(sku_rows: &Vec<(i32, (i32, i32))>, skus: &Vec<SKUModelDto>) -> (r: Vec<
    ReturnOrderItemStat,
>)
    ensures
        r@.len() == known_sku_ids(sku_rows@, skus@).len(),
        forall|j: int|
            0 <= j < r@.len() ==> item_stat_matches(
                #[trigger] r@[j],
                known_sku_ids(sku_rows@, skus@)[j],
                skus@,
                sku_rows@,
            ),
{
    let ghost rows = sku_rows@;
    let mut r: Vec<ReturnOrderItemStat> = Vec::new();
    let mut i: usize = 0;
    assert(rows.take(0) =~= Seq::<(i32, (i32, i32))>::empty());
    while i < sku_rows.len()
        invariant
            rows == sku_rows@,
            i <= rows.len(),
            r@.len() == known_sku_ids(rows.take(i as int), skus@).len(),
            forall|j: int|
                0 <= j < r@.len() ==> item_stat_matches(
                    #[trigger] r@[j],
                    known_sku_ids(rows.take(i as int), skus@)[j],
                    skus@,
                    rows,
                ),
        decreases sku_rows.len() - i,
    {
        assert(rows.take(i + 1).drop_last() =~= rows.take(i as int));
        assert(rows.take(i + 1).last() == rows[i as int]);
        let id = sku_rows[i].0;
        let ghost before = known_sku_ids(rows.take(i as int), skus@);
        match find_sku(skus, id) {
            Some(sku) => {
                let (c, s) = match find_pair_val(sku_rows, id) {
                    Some(v) => v,
                    None => (0, 0),
                };
                r.push(ReturnOrderItemStat { sku, count: c, sum: s });
                assert forall|j: int| 0 <= j < r@.len() implies item_stat_matches(
                    #[trigger] r@[j],
                    known_sku_ids(rows.take(i + 1), skus@)[j],
                    skus@,
                    rows,
                ) by {
                    if j < before.len() {
                        assert(known_sku_ids(rows.take(i + 1), skus@)[j] == before[j]);
                    }
                }
            },
            None => {},
        }
        i = i + 1;
    }
    assert(rows.take(rows.len() as int) =~= rows);
    r
}

} // verus!
