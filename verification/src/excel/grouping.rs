//! Grouping spreadsheet rows by their sequence number, and turning each
//! group into one style of goods with its colours.
use crate::error::{ERPError, ERPErrorView};
use crate::model::order::{
    groups_view, items_view, picked_goods, ExcelOrderGoodsWithItems, GoodsGroupView,
    OrderItemExcel, OrderItemExcelView,
};
use crate::text::{int_str, push_i32};
use itertools::Itertools;
use std::collections::HashMap;
use vstd::prelude::*;

verus! {

broadcast use vstd::std_specs::hash::group_hash_axioms;

/// The rows of `items` with sequence number `k`, in their order.
pub open spec fn with_index(items: Seq<OrderItemExcelView>, k: i32) -> Seq<OrderItemExcelView>
    decreases items.len(),
{
    if items.len() == 0 {
        Seq::empty()
    } else {
        let r = with_index(items.drop_last(), k);
        if items.last().index == k {
            r.push(items.last())
        } else {
            r
        }
    }
}

/// Some row of `items` has sequence number `k`.
pub open spec fn has_index(items: Seq<OrderItemExcelView>, k: i32) -> bool {
    exists|i: int| 0 <= i < items.len() && (#[trigger] items[i]).index == k
}

/// A map from sequence numbers to rows, the rows taken by their views.
pub open spec fn index_map_view(m: Map<i32, Vec<OrderItemExcel>>) -> Map<
    i32,
    Seq<OrderItemExcelView>,
> {
    m.map_values(|v: Vec<OrderItemExcel>| items_view(v@))
}

/// `m` files every row of `items` under its sequence number, in order.
pub open spec fn groups_rows(m: Map<i32, Seq<OrderItemExcelView>>, items: Seq<OrderItemExcelView>) -> bool {
    &&& forall|k: i32| #[trigger] m.contains_key(k) <==> has_index(items, k)
    &&& forall|k: i32| #[trigger] m.contains_key(k) ==> m[k] == with_index(items, k)
}

proof fn lemma_with_index_empty(items: Seq<OrderItemExcelView>, k: i32)
    requires
        !has_index(items, k),
    ensures
        with_index(items, k) == Seq::<OrderItemExcelView>::empty(),
    decreases items.len(),
{
    if items.len() > 0 {
        assert(!has_index(items.drop_last(), k)) by {
            if has_index(items.drop_last(), k) {
                let i = choose|i: int|
                    0 <= i < items.drop_last().len() && (#[trigger] items.drop_last()[i]).index == k;
                assert(items[i].index == k);
            }
        }
        lemma_with_index_empty(items.drop_last(), k);
        assert(items[items.len() - 1].index != k);
    }
}

/// The rows filed under their sequence numbers.
pub open spec fn index_map_of(items: Seq<OrderItemExcelView>) -> Map<i32, Seq<OrderItemExcelView>> {
    Map::new(|k: i32| has_index(items, k), |k: i32| with_index(items, k))
}

/// Every row is filed under its own sequence number, and the rows filed
/// under a number all carry it.
pub proof fn lemma_rows_in_own_group(items: Seq<OrderItemExcelView>, i: int, k: i32)
    requires
        0 <= i < items.len(),
    ensures
        index_map_of(items).contains_key(items[i].index),
        index_map_of(items)[items[i].index].contains(items[i]),
        index_map_of(items).contains_key(k) ==> forall|t: int|
            0 <= t < index_map_of(items)[k].len() ==> (#[trigger] index_map_of(items)[k][t]).index == k,
    decreases items.len(),
{
    assert(has_index(items, items[i].index));
    lemma_with_index_members(items, items[i].index);
    lemma_with_index_members(items, k);
    lemma_with_index_contains(items, i);
}

proof fn lemma_with_index_members(items: Seq<OrderItemExcelView>, k: i32)
    ensures
        forall|t: int| 0 <= t < with_index(items, k).len() ==> (#[trigger] with_index(items, k)[t]).index == k,
    decreases items.len(),
{
    if items.len() > 0 {
        lemma_with_index_members(items.drop_last(), k);
        let r = with_index(items.drop_last(), k);
        if items.last().index == k {
            assert forall|t: int| 0 <= t < r.push(items.last()).len() implies (#[trigger] r.push(items.last())[t]).index == k by {
                if t < r.len() {
                    assert(r.push(items.last())[t] == r[t]);
                }
            }
        }
    }
}

proof fn lemma_with_index_contains(items: Seq<OrderItemExcelView>, i: int)
    requires
        0 <= i < items.len(),
    ensures
        with_index(items, items[i].index).contains(items[i]),
    decreases items.len(),
{
    let k = items[i].index;
    let r = with_index(items.drop_last(), k);
    if i < items.len() - 1 {
        assert(items.drop_last()[i] == items[i]);
        lemma_with_index_contains(items.drop_last(), i);
        if items.last().index == k {
            let t = choose|t: int| 0 <= t < r.len() && r[t] == items[i];
            assert(r.push(items.last())[t] == items[i]);
        }
    } else {
        assert(items.last() == items[i]);
        assert(r.push(items.last())[r.len() as int] == items[i]);
    }
}

/// Files the rows under their sequence numbers.
pub fn group_by_index(items: &[OrderItemExcel]) -> (m: HashMap<i32, Vec<OrderItemExcel>>)
    ensures
        groups_rows(index_map_view(m@), items_view(items@)),
        index_map_view(m@) == index_map_of(items_view(items@)),
{
    let ghost iv = items_view(items@);
    let mut m: HashMap<i32, Vec<OrderItemExcel>> = HashMap::new();
    let mut i: usize = 0;
    assert(iv.take(0) =~= Seq::<OrderItemExcelView>::empty());
    while i < items.len()
        invariant
            iv == items_view(items@),
            i <= items@.len(),
            groups_rows(index_map_view(m@), iv.take(i as int)),
        decreases items.len() - i,
    {
        let k = items[i].index;
        let ghost pre = iv.take(i as int);
        let ghost post = iv.take(i + 1);
        assert(post.drop_last() =~= pre);
        assert(post.last() == iv[i as int]);
        let ghost old_m = index_map_view(m@);
        let ghost raw_old = m@;
        let mut v = match m.remove(&k) {
            Some(v) => v,
            None => Vec::new(),
        };
        proof {
            if !old_m.contains_key(k) {
                lemma_with_index_empty(pre, k);
            }
        }
        assert(items_view(v@) == with_index(pre, k));
        let ghost v_old = v@;
        v.push(items[i].clone());
        assert(items_view(v@) =~= items_view(v_old).push(iv[i as int]));
        let ghost v_new = v;
        m.insert(k, v);
        assert(m@ =~= raw_old.insert(k, v_new));
        assert(index_map_view(m@) =~= old_m.insert(k, items_view(v_new@)));
        assert forall|j: i32| #[trigger] index_map_view(m@).contains_key(j) <==> has_index(post, j) by {
            if has_index(pre, j) {
                let t = choose|t: int| 0 <= t < pre.len() && (#[trigger] pre[t]).index == j;
                assert(post[t] == pre[t]);
            }
            if has_index(post, j) && j != k {
                let t = choose|t: int| 0 <= t < post.len() && (#[trigger] post[t]).index == j;
                assert(t < pre.len());
                assert(pre[t] == post[t]);
            }
            if j == k {
                assert(post[i as int].index == k);
            }
        }
        assert forall|j: i32| #[trigger] index_map_view(m@).contains_key(j) implies index_map_view(
            m@,
        )[j] == with_index(post, j) by {
            if j != k {
                assert(index_map_view(m@)[j] == old_m[j]);
            }
        }
        i = i + 1;
    }
    assert(iv.take(items@.len() as int) =~= iv);
    assert(index_map_view(m@) =~= index_map_of(iv));
    m
}

// ---------------------------------------------------------------------
// Sorted sequence numbers
// ---------------------------------------------------------------------

pub open spec fn strictly_sorted(s: Seq<i32>) -> bool {
    forall|i: int, j: int| 0 <= i < j < s.len() ==> s[i] < s[j]
}

/// The keys of a map in ascending order.
pub open spec fn sorted_keys_of(dom: Set<i32>) -> Seq<i32> {
    choose|s: Seq<i32>| strictly_sorted(s) && (forall|x: i32| s.contains(x) <==> dom.contains(x))
}

proof fn lemma_sorted_unique(a: Seq<i32>, b: Seq<i32>)
    requires
        strictly_sorted(a),
        strictly_sorted(b),
        forall|x: i32| a.contains(x) <==> b.contains(x),
    ensures
        a == b,
    decreases a.len(),
{
    if a.len() == 0 {
        if b.len() > 0 {
            assert(b.contains(b[0]));
        }
        assert(a =~= b);
    } else {
        assert(a.contains(a[0]));
        assert(b.len() > 0);
        assert(b.contains(b[0]));
        let i = choose|i: int| 0 <= i < a.len() && a[i] == b[0];
        let j = choose|j: int| 0 <= j < b.len() && b[j] == a[0];
        assert(a[0] == b[0]) by {
            if i > 0 {
                assert(a[0] < a[i]);
            }
            if j > 0 {
                assert(b[0] < b[j]);
            }
        }
        let a1 = a.drop_first();
        let b1 = b.drop_first();
        assert forall|x: i32| a1.contains(x) <==> b1.contains(x) by {
            if a1.contains(x) {
                let p = choose|p: int| 0 <= p < a1.len() && a1[p] == x;
                assert(a[p + 1] == x);
                assert(a[0] < a[p + 1]);
                assert(a.contains(x));
                assert(b.contains(x));
                let q = choose|q: int| 0 <= q < b.len() && b[q] == x;
                assert(q != 0);
                assert(b1[q - 1] == x);
            }
            if b1.contains(x) {
                let p = choose|p: int| 0 <= p < b1.len() && b1[p] == x;
                assert(b[p + 1] == x);
                assert(b[0] < b[p + 1]);
                assert(b.contains(x));
                assert(a.contains(x));
                let q = choose|q: int| 0 <= q < a.len() && a[q] == x;
                assert(q != 0);
                assert(a1[q - 1] == x);
            }
        }
        lemma_sorted_unique(a1, b1);
        assert(a =~= b) by {
            assert forall|t: int| 0 <= t < a.len() implies a[t] == b[t] by {
                if t > 0 {
                    assert(a[t] == a1[t - 1]);
                    assert(b[t] == b1[t - 1]);
                }
            }
        }
    }
}

/// `itertools::Itertools::sorted` applied to the keys of the map: the keys
/// in ascending order.
#[verifier::external_body]
fn sorted_keys<V>(m: &HashMap<i32, V>) -> (r: Vec<i32>)
    ensures
        strictly_sorted(r@),
        forall|x: i32| r@.contains(x) <==> m@.contains_key(x),
{
    m.keys().copied().sorted().collect()
}

fn keys_ascending<V>(m: &HashMap<i32, V>) -> (r: Vec<i32>)
    ensures
        r@ == sorted_keys_of(m@.dom()),
        strictly_sorted(r@),
        forall|x: i32| r@.contains(x) <==> m@.contains_key(x),
{
    let r = sorted_keys(m);
    proof {
        assert(strictly_sorted(r@) && (forall|x: i32| r@.contains(x) <==> m@.dom().contains(x)));
        let c = sorted_keys_of(m@.dom());
        lemma_sorted_unique(r@, c);
    }
    r
}

// ---------------------------------------------------------------------
// Styles out of groups
// ---------------------------------------------------------------------

/// Which checks a group of rows must pass to become a style.
#[derive(Debug, Clone, Copy, PartialEq, Eq, Structural)]
pub enum GroupCheck {
    /// None.
    Nothing,
    /// Some row of the group has a goods number.
    HasGoodsNo,
    /// Some row has a goods number, and all rows have the same one.
    OneGoodsNo,
}

pub open spec fn all_goods_no_empty(items: Seq<OrderItemExcelView>) -> bool {
    forall|i: int| 0 <= i < items.len() ==> (#[trigger] items[i]).goods_no.len() == 0
}

pub open spec fn one_goods_no(items: Seq<OrderItemExcelView>) -> bool {
    forall|i: int| 0 <= i < items.len() ==> (#[trigger] items[i]).goods_no == items[0].goods_no
}

/// "Excel内序号#{k},没有读到商品编号"
pub open spec fn missing_goods_no_msg(k: i32) -> Seq<char> {
    "Excel内序号#"@ + int_str(k as int) + ",没有读到商品编号"@
}

/// "请检查Excel内序号#{k}，有重复数据, 或者序号重复"
pub open spec fn mixed_goods_no_msg(k: i32) -> Seq<char> {
    "请检查Excel内序号#"@ + int_str(k as int) + "，有重复数据, 或者序号重复"@
}

/// The error a group of rows with number `k` is refused with, if any.
pub open spec fn group_fault(items: Seq<OrderItemExcelView>, k: i32, check: GroupCheck) -> Option<
    ERPErrorView,
> {
    if check != GroupCheck::Nothing && all_goods_no_empty(items) {
        Some(ERPErrorView::ExcelError(missing_goods_no_msg(k)))
    } else if check == GroupCheck::OneGoodsNo && !one_goods_no(items) {
        Some(ERPErrorView::ExcelError(mixed_goods_no_msg(k)))
    } else {
        None
    }
}

/// The styles of the groups filed under `keys`, in that order, or the
/// first refusal.
pub open spec fn groups_of(
    m: Map<i32, Seq<OrderItemExcelView>>,
    keys: Seq<i32>,
    check: GroupCheck,
) -> Result<Seq<GoodsGroupView>, ERPErrorView>
    decreases keys.len(),
{
    if keys.len() == 0 {
        Ok(Seq::empty())
    } else {
        match groups_of(m, keys.drop_last(), check) {
            Err(e) => Err(e),
            Ok(gs) => {
                let k = keys.last();
                match group_fault(m[k], k, check) {
                    Some(e) => Err(e),
                    None => Ok(gs.push(GoodsGroupView { goods: picked_goods(m[k]), items: m[k] })),
                }
            },
        }
    }
}

/// The styles of all groups of the map, by ascending sequence number.
proof fn lemma_groups_err_stays(
    m: Map<i32, Seq<OrderItemExcelView>>,
    keys: Seq<i32>,
    i: int,
    check: GroupCheck,
)
    requires
        0 <= i <= keys.len(),
        groups_of(m, keys.take(i), check) is Err,
    ensures
        groups_of(m, keys, check) == groups_of(m, keys.take(i), check),
    decreases keys.len() - i,
{
    if i < keys.len() {
        assert(keys.take(i + 1).drop_last() =~= keys.take(i));
        lemma_groups_err_stays(m, keys, i + 1, check);
    } else {
        assert(keys.take(i) =~= keys);
    }
}

pub open spec fn spec_build_groups(m: Map<i32, Seq<OrderItemExcelView>>, check: GroupCheck) -> Result<
    Seq<GoodsGroupView>,
    ERPErrorView,
> {
    groups_of(m, sorted_keys_of(m.dom()), check)
}

fn clone_items(v: &Vec<OrderItemExcel>) -> (r: Vec<OrderItemExcel>)
    ensures
        items_view(r@) == items_view(v@),
{
    let mut r: Vec<OrderItemExcel> = Vec::new();
    let mut i: usize = 0;
    while i < v.len()
        invariant
            i <= v@.len(),
            items_view(r@) == items_view(v@).take(i as int),
        decreases v.len() - i,
    {
        let ghost old_r = r@;
        let c = v[i].clone();
        r.push(c);
        assert(r@ == old_r.push(c));
        assert(items_view(old_r).len() == i);
        assert forall|t: int| 0 <= t < i implies items_view(r@)[t] == items_view(v@).take(i + 1)[t] by {
            assert(items_view(r@)[t] == old_r[t]@);
            assert(items_view(old_r)[t] == items_view(v@).take(i as int)[t]);
        }
        i = i + 1;
        assert(items_view(r@) =~= items_view(v@).take(i as int));
    }
    assert(items_view(v@).take(v@.len() as int) =~= items_view(v@));
    r
}

fn all_goods_no_empty_exec(items: &Vec<OrderItemExcel>) -> (r: bool)
    ensures
        r == all_goods_no_empty(items_view(items@)),
{
    let mut i: usize = 0;
    while i < items.len()
        invariant
            i <= items@.len(),
            forall|t: int| 0 <= t < i ==> (#[trigger] items_view(items@)[t]).goods_no.len() == 0,
        decreases items.len() - i,
    {
        if items[i].goods_no.unicode_len() > 0 {
            assert(items_view(items@)[i as int].goods_no.len() > 0);
            return false;
        }
        i = i + 1;
    }
    true
}

fn one_goods_no_exec(items: &Vec<OrderItemExcel>) -> (r: bool)
    ensures
        r == one_goods_no(items_view(items@)),
{
    let mut i: usize = 0;
    while i < items.len()
        invariant
            i <= items@.len(),
            forall|t: int| 0 <= t < i ==> (#[trigger] items_view(items@)[t]).goods_no == items_view(
                items@,
            )[0].goods_no,
        decreases items.len() - i,
    {
        if items[i].goods_no != items[0].goods_no {
            assert(items_view(items@)[i as int].goods_no != items_view(items@)[0].goods_no);
            return false;
        }
        i = i + 1;
    }
    true
}

fn goods_no_msg(prefix: &str, k: i32, suffix: &str) -> (r: String)
    ensures
        r@ == prefix@ + int_str(k as int) + suffix@,
{
    let mut s = String::from_str(prefix);
    push_i32(&mut s, k);
    s.append(suffix);
    s
}

/// Turns every group of rows of the map into a style with its rows, by
/// ascending sequence number, refusing the first group that fails `check`.
pub fn build_groups(m: &HashMap<i32, Vec<OrderItemExcel>>, check: GroupCheck) -> (r: Result<
    Vec<ExcelOrderGoodsWithItems>,
    ERPError,
>)
    ensures
        match r {
            Ok(v) => spec_build_groups(index_map_view(m@), check) == Ok::<
                Seq<GoodsGroupView>,
                ERPErrorView,
            >(groups_view(v@)),
            Err(e) => spec_build_groups(index_map_view(m@), check) == Err::<
                Seq<GoodsGroupView>,
                ERPErrorView,
            >(e@),
        },
{
    let ghost mv = index_map_view(m@);
    assert(mv.dom() =~= m@.dom());
    let keys = keys_ascending(m);
    let ghost ks = keys@;
    let mut res: Vec<ExcelOrderGoodsWithItems> = Vec::new();
    let mut i: usize = 0;
    assert(ks.take(0) =~= Seq::<i32>::empty());
    assert(groups_view(res@) =~= Seq::empty());
    while i < keys.len()
        invariant
            mv == index_map_view(m@),
            mv.dom() == m@.dom(),
            ks == keys@,
            ks == sorted_keys_of(m@.dom()),
            forall|x: i32| ks.contains(x) <==> m@.contains_key(x),
            i <= ks.len(),
            groups_of(mv, ks.take(i as int), check) == Ok::<Seq<GoodsGroupView>, ERPErrorView>(
                groups_view(res@),
            ),
        decreases keys.len() - i,
    {
        let k = keys[i];
        assert(ks.take(i + 1).drop_last() =~= ks.take(i as int));
        assert(ks.take(i + 1).last() == k);
        assert(ks[i as int] == k);
        assert(ks.contains(k));
        assert(m@.contains_key(k));
        let items = match m.get(&k) {
            Some(v) => v,
            None => {
                assert(false);
                return Err(ERPError::Failed(String::new()));
            },
        };
        assert(items_view(items@) == mv[k]);
        if check != GroupCheck::Nothing && all_goods_no_empty_exec(items) {
            let msg = goods_no_msg("Excel内序号#", k, ",没有读到商品编号");
            assert(group_fault(mv[k], k, check) == Some(ERPErrorView::ExcelError(msg@)));
            assert(groups_of(mv, ks.take(i + 1), check) == Err::<Seq<GoodsGroupView>, ERPErrorView>(
                ERPErrorView::ExcelError(msg@),
            ));
            proof {
                lemma_groups_err_stays(mv, ks, i + 1, check);
            }
            let e = ERPError::ExcelError(msg);
            assert(spec_build_groups(mv, check) == Err::<Seq<GoodsGroupView>, ERPErrorView>(e@));
            return Err(e);
        }
        if check == GroupCheck::OneGoodsNo && !one_goods_no_exec(items) {
            let msg = goods_no_msg("请检查Excel内序号#", k, "，有重复数据, 或者序号重复");
            assert(group_fault(mv[k], k, check) == Some(ERPErrorView::ExcelError(msg@)));
            assert(groups_of(mv, ks.take(i + 1), check) == Err::<Seq<GoodsGroupView>, ERPErrorView>(
                ERPErrorView::ExcelError(msg@),
            ));
            proof {
                lemma_groups_err_stays(mv, ks, i + 1, check);
            }
            let e = ERPError::ExcelError(msg);
            assert(spec_build_groups(mv, check) == Err::<Seq<GoodsGroupView>, ERPErrorView>(e@));
            return Err(e);
        }
        let goods = OrderItemExcel::pick_up_excel_goods(items);
        let group = ExcelOrderGoodsWithItems { goods, items: clone_items(items) };
        let ghost old_res = res@;
        res.push(group);
        assert(groups_view(res@) =~= groups_view(old_res).push(group@));
        assert(group_fault(mv[k], k, check) is None);
        assert(group@ == GoodsGroupView { goods: picked_goods(mv[k]), items: mv[k] });
        assert(groups_of(mv, ks.take(i + 1), check) == Ok::<Seq<GoodsGroupView>, ERPErrorView>(
            groups_view(res@),
        ));
        i = i + 1;
    }
    assert(ks.take(keys@.len() as int) =~= ks);
    Ok(res)
}

/// Styles out of the rows grouped by sequence number, by ascending
/// sequence number. Unless the layout has no goods numbers, every group
/// needs a goods number and only one.
pub fn convert_index_vec_order_item_excel_to_vec_excel_order_goods_with_items(
    index_to_order_item_excel: HashMap<i32, Vec<OrderItemExcel>>,
    no_goods_no: bool,
) -> (r: Result<Vec<ExcelOrderGoodsWithItems>, ERPError>)
    ensures
        ({
            let check = if no_goods_no {
                GroupCheck::Nothing
            } else {
                GroupCheck::OneGoodsNo
            };
            match r {
                Ok(v) => spec_build_groups(index_map_view(index_to_order_item_excel@), check) == Ok::<
                    Seq<GoodsGroupView>,
                    ERPErrorView,
                >(groups_view(v@)),
                Err(e) => spec_build_groups(index_map_view(index_to_order_item_excel@), check)
                    == Err::<Seq<GoodsGroupView>, ERPErrorView>(e@),
            }
        }),
{
    let check = if no_goods_no {
        GroupCheck::Nothing
    } else {
        GroupCheck::OneGoodsNo
    };
    build_groups(&index_to_order_item_excel, check)
}

// ---------------------------------------------------------------------
// Sequence numbers shared by different styles
// ---------------------------------------------------------------------

/// The rows filed under `k` carry more than one goods number.
pub open spec fn mixed_group(items: Seq<OrderItemExcelView>, k: i32) -> bool {
    has_index(items, k) && !one_goods_no(with_index(items, k))
}

/// "Excel内序号#{k}可能重复,或者有多余总计的行"
pub open spec fn repeated_index_msg(k: i32) -> Seq<char> {
    "Excel内序号#"@ + int_str(k as int) + "可能重复,或者有多余总计的行"@
}

pub fn repeated_index_err(k: i32) -> (r: ERPError)
    ensures
        r@ == ERPErrorView::ExcelError(repeated_index_msg(k)),
{
    ERPError::ExcelError(goods_no_msg("Excel内序号#", k, "可能重复,或者有多余总计的行"))
}

/// A sequence number whose rows carry more than one goods number, if
/// there is one.
pub fn find_mixed_group(items: &[OrderItemExcel]) -> (r: Option<i32>)
    ensures
        match r {
            Some(k) => mixed_group(items_view(items@), k),
            None => forall|k: i32| !mixed_group(items_view(items@), k),
        },
{
    let ghost iv = items_view(items@);
    let m = group_by_index(items);
    let ghost mv = index_map_view(m@);
    let keys = keys_ascending(&m);
    let mut i: usize = 0;
    while i < keys.len()
        invariant
            iv == items_view(items@),
            mv == index_map_view(m@),
            mv == index_map_of(iv),
            forall|x: i32| keys@.contains(x) <==> m@.contains_key(x),
            i <= keys@.len(),
            forall|t: int| 0 <= t < i ==> !mixed_group(iv, #[trigger] keys@[t]),
        decreases keys.len() - i,
    {
        let k = keys[i];
        assert(keys@.contains(k));
        let g = match m.get(&k) {
            Some(g) => g,
            None => {
                assert(false);
                return None;
            },
        };
        assert(mv.contains_key(k));
        assert(mv[k] == items_view(m@[k]@));
        assert(index_map_of(iv)[k] == with_index(iv, k));
        assert(items_view(g@) == with_index(iv, k));
        if !one_goods_no_exec(g) {
            return Some(k);
        }
        i = i + 1;
    }
    assert forall|k: i32| !mixed_group(iv, k) by {
        if has_index(iv, k) {
            assert(mv.contains_key(k));
            assert(m@.contains_key(k));
            assert(keys@.contains(k));
            let t = choose|t: int| 0 <= t < keys@.len() && keys@[t] == k;
            assert(!mixed_group(iv, keys@[t]));
        }
    }
    None
}

} // verus!
