//! Marking and revoking production progress: which items a mark goes to,
//! at which step, and whether the account may make it.
use crate::common::datetime::Timestamp;
use crate::constants::DONE_INDEX;
use crate::error::{ERPError, ERPErrorView};
use crate::handler::order_items::last_progress;
use crate::model::progress::ProgressModel;
use vstd::prelude::*;

verus! {

/// A progress mark asked for: on all items of an order goods, or on one
/// order item, at `index` of the current step.
#[derive(Debug)]
pub struct MarkProgressParam {
    pub order_goods_id: Option<i32>,
    pub order_item_id: Option<i32>,
    pub index: i32,
    pub notes: String,
}

/// What a mark goes to.
#[derive(Debug, Clone, Copy, PartialEq, Eq, Structural)]
pub enum MarkTarget {
    /// Every item of this order goods.
    Goods(i32),
    /// This order item.
    Item(i32),
}

pub open spec fn id_or_zero(v: Option<i32>) -> i32 {
    match v {
        Some(x) => x,
        None => 0,
    }
}

/// A mark needs an order goods or an order item, and an index; an order
/// goods id above zero wins over the order item id.
pub fn mark_target(p: &MarkProgressParam) -> (r: Result<MarkTarget, ERPError>)
    ensures
        ({
            let og = id_or_zero(p.order_goods_id);
            let oi = id_or_zero(p.order_item_id);
            if og == 0 && oi == 0 {
                r is Err && r->Err_0@ == ERPErrorView::ParamNeeded("order_goods_id/order_item_id"@)
            } else if p.index == 0 {
                r is Err && r->Err_0@ == ERPErrorView::ParamError("请选择正确的流程"@)
            } else if og > 0 {
                r == Ok::<MarkTarget, ERPError>(MarkTarget::Goods(og))
            } else {
                r == Ok::<MarkTarget, ERPError>(MarkTarget::Item(oi))
            }
        }),
{
    let og = match p.order_goods_id {
        Some(x) => x,
        None => 0,
    };
    let oi = match p.order_item_id {
        Some(x) => x,
        None => 0,
    };
    if oi == 0 && og == 0 {
        return Err(ERPError::ParamNeeded(String::from_str("order_goods_id/order_item_id")));
    }
    if p.index == 0 {
        return Err(ERPError::ParamError(String::from_str("请选择正确的流程")));
    }
    if og > 0 {
        Ok(MarkTarget::Goods(og))
    } else {
        Ok(MarkTarget::Item(oi))
    }
}

/// The step that a mark after `p` is made at: the next step where `p`
/// completed its step, `p`'s step otherwise.
pub open spec fn step_after(p: ProgressModel) -> int {
    if p.done {
        p.step + 1
    } else {
        p.step as int
    }
}

/// The step of the next mark on item `k`: after its last mark, or step 1.
pub open spec fn item_step(progresses: Seq<ProgressModel>, k: i32) -> int {
    match last_progress(progresses, k) {
        Some(p) => step_after(p),
        None => 1,
    }
}

/// The step after every item's last mark is a step the service can number.
pub open spec fn steps_fit(progresses: Seq<ProgressModel>) -> bool {
    forall|k: i32| #[trigger] item_step(progresses, k) <= i32::MAX
}

/// The items that the marks of an order goods are looked at for: its
/// items, and any item that one of the marks is on.
pub open spec fn in_scope(ids: Seq<i32>, progresses: Seq<ProgressModel>, k: i32) -> bool {
    ids.contains(k) || exists|i: int| 0 <= i < progresses.len() && #[trigger] progresses[i].order_item_id == k
}

/// The step of the next mark on one item, after its last mark (if any).
pub fn item_current_step(last: &Option<ProgressModel>) -> (r: i32)
    requires
        last matches Some(p) ==> step_after(*p) <= i32::MAX,
    ensures
        r == match last {
            Some(p) => step_after(*p),
            None => 1,
        },
{
    match last {
        Some(p) => if p.done {
            p.step + 1
        } else {
            p.step
        },
        None => 1,
    }
}

fn item_step_exec(progresses: &Vec<ProgressModel>, k: i32) -> (r: i32)
    requires
        steps_fit(progresses@),
    ensures
        r == item_step(progresses@, k),
{
    assert(item_step(progresses@, k) <= i32::MAX);
    let mut i: usize = progresses.len();
    assert(progresses@.take(i as int) =~= progresses@);
    while i > 0
        invariant
            i <= progresses@.len(),
            last_progress(progresses@, k) == last_progress(progresses@.take(i as int), k),
            item_step(progresses@, k) <= i32::MAX,
        decreases i,
    {
        assert(progresses@.take(i as int).drop_last() =~= progresses@.take(i - 1));
        assert(progresses@.take(i as int).last() == progresses@[i - 1]);
        if progresses[i - 1].order_item_id == k {
            let p = &progresses[i - 1];
            return if p.done {
                p.step + 1
            } else {
                p.step
            };
        }
        i = i - 1;
    }
    assert(progresses@.take(0) =~= Seq::<ProgressModel>::empty());
    1
}

/// The step at which all items of an order goods are marked next. The
/// order goods needs items, and all of them (with every item a mark is
/// on) must stand at the same step.
pub fn goods_current_step(order_item_ids: &Vec<i32>, progresses: &Vec<ProgressModel>) -> (r: Result<
    i32,
    ERPError,
>)
    requires
        steps_fit(progresses@),
    ensures
        order_item_ids@.len() == 0 ==> r is Err && r->Err_0@ == ERPErrorView::NotFound(
            "该商品下无添加任何颜色/款式"@,
        ),
        order_item_ids@.len() > 0 ==> match r {
            Ok(s) => forall|k: i32|
                in_scope(order_item_ids@, progresses@, k) ==> #[trigger] item_step(progresses@, k)
                    == s,
            Err(e) => e@ == ERPErrorView::Failed(
                "该产品的所有颜色，不在同一个流程下，请单独处理"@,
            ) && exists|a: i32, b: i32|
                in_scope(order_item_ids@, progresses@, a) && in_scope(order_item_ids@, progresses@, b)
                    && item_step(progresses@, a) != item_step(progresses@, b),
        },
{
    if order_item_ids.len() == 0 {
        return Err(ERPError::NotFound(String::from_str("该商品下无添加任何颜色/款式")));
    }
    let ghost ids = order_item_ids@;
    let first = order_item_ids[0];
    let s = item_step_exec(progresses, first);
    assert(in_scope(ids, progresses@, first)) by {
        assert(ids[0] == first);
    }
    let mut i: usize = 0;
    while i < order_item_ids.len()
        invariant
            ids == order_item_ids@,
            steps_fit(progresses@),
            s == item_step(progresses@, first),
            in_scope(ids, progresses@, first),
            i <= ids.len(),
            forall|t: int| 0 <= t < i ==> item_step(progresses@, #[trigger] ids[t]) == s,
        decreases order_item_ids.len() - i,
    {
        let k = order_item_ids[i];
        if item_step_exec(progresses, k) != s {
            assert(in_scope(ids, progresses@, k)) by {
                assert(ids[i as int] == k);
            }
            return Err(
                ERPError::Failed(String::from_str("该产品的所有颜色，不在同一个流程下，请单独处理")),
            );
        }
        i = i + 1;
    }
    let mut j: usize = 0;
    while j < progresses.len()
        invariant
            ids == order_item_ids@,
            steps_fit(progresses@),
            s == item_step(progresses@, first),
            in_scope(ids, progresses@, first),
            forall|t: int| 0 <= t < ids.len() ==> item_step(progresses@, #[trigger] ids[t]) == s,
            ids.len() > 0,
            j <= progresses@.len(),
            forall|t: int| 0 <= t < j ==> item_step(progresses@, #[trigger] progresses@[t].order_item_id) == s,
        decreases progresses.len() - j,
    {
        let k = progresses[j].order_item_id;
        if item_step_exec(progresses, k) != s {
            assert(in_scope(ids, progresses@, k)) by {
                assert(progresses@[j as int].order_item_id == k);
            }
            return Err(
                ERPError::Failed(String::from_str("该产品的所有颜色，不在同一个流程下，请单独处理")),
            );
        }
        j = j + 1;
    }
    assert forall|k: i32| in_scope(ids, progresses@, k) implies #[trigger] item_step(progresses@, k) == s by {
        if ids.contains(k) {
            let t = choose|t: int| 0 <= t < ids.len() && ids[t] == k;
            assert(item_step(progresses@, ids[t]) == s);
        } else {
            let t = choose|t: int| 0 <= t < progresses@.len() && #[trigger] progresses@[t].order_item_id == k;
            assert(item_step(progresses@, progresses@[t].order_item_id) == s);
        }
    }
    Ok(s)
}

/// Mark `j` is the last of the marks on its item.
pub open spec fn last_mark_of_item(ps: Seq<ProgressModel>, j: int) -> bool {
    forall|k: int| j < k < ps.len() ==> (#[trigger] ps[k]).order_item_id != ps[j].order_item_id
}

/// The last mark on an item is the last of its marks in the list.
proof fn lemma_last_progress(ps: Seq<ProgressModel>, id: i32)
    ensures
        last_progress(ps, id) is Some ==> exists|j: int|
            0 <= j < ps.len() && ps[j].order_item_id == id && last_mark_of_item(ps, j)
                && last_progress(ps, id) == Some(#[trigger] ps[j]),
        forall|j: int|
            0 <= j < ps.len() && (#[trigger] ps[j]).order_item_id == id && last_mark_of_item(ps, j)
                ==> last_progress(ps, id) == Some(ps[j]),
    decreases ps.len(),
{
    if ps.len() > 0 {
        let d = ps.drop_last();
        lemma_last_progress(d, id);
        if ps.last().order_item_id == id {
            assert(last_mark_of_item(ps, ps.len() - 1));
            assert(ps[ps.len() - 1] == ps.last());
            assert forall|j: int|
                0 <= j < ps.len() && (#[trigger] ps[j]).order_item_id == id && last_mark_of_item(
                    ps,
                    j,
                ) implies last_progress(ps, id) == Some(ps[j]) by {
                if j < ps.len() - 1 {
                    assert(ps[ps.len() - 1].order_item_id != ps[j].order_item_id);
                }
            }
        } else {
            if last_progress(ps, id) is Some {
                let j = choose|j: int|
                    0 <= j < d.len() && d[j].order_item_id == id && last_mark_of_item(d, j)
                        && last_progress(d, id) == Some(#[trigger] d[j]);
                assert(ps[j] == d[j]);
                assert forall|k: int| j < k < ps.len() implies (#[trigger] ps[k]).order_item_id
                    != ps[j].order_item_id by {
                    if k < d.len() {
                        assert(ps[k] == d[k]);
                    }
                }
            }
            assert forall|j: int|
                0 <= j < ps.len() && (#[trigger] ps[j]).order_item_id == id && last_mark_of_item(
                    ps,
                    j,
                ) implies last_progress(ps, id) == Some(ps[j]) by {
                assert(j < ps.len() - 1);
                assert(ps[j] == d[j]);
                assert forall|k: int| j < k < d.len() implies (#[trigger] d[k]).order_item_id
                    != d[j].order_item_id by {
                    assert(ps[k] == d[k]);
                }
            }
        }
    }
}

/// Whether the step that every item is marked at next is still a step.
pub fn progress_steps_fit(ps: &Vec<ProgressModel>) -> (r: bool)
    ensures
        r == steps_fit(ps@),
{
    let n = ps.len();
    let mut i: usize = 0;
    while i < n
        invariant
            n == ps@.len(),
            i <= n,
            forall|j: int| 0 <= j < i && last_mark_of_item(ps@, j) ==> step_after(#[trigger] ps@[j]) <= i32::MAX,
        decreases n - i,
    {
        if ps[i].done && ps[i].step == i32::MAX {
            let mut k: usize = i + 1;
            let mut later = false;
            while k < n
                invariant
                    n == ps@.len(),
                    i < k <= n,
                    !later ==> forall|t: int| i < t < k ==> (#[trigger] ps@[t]).order_item_id
                        != ps@[i as int].order_item_id,
                    later ==> !last_mark_of_item(ps@, i as int),
                decreases n - k,
            {
                if ps[k].order_item_id == ps[i].order_item_id {
                    later = true;
                }
                k = k + 1;
            }
            if !later {
                proof {
                    let id = ps@[i as int].order_item_id;
                    lemma_last_progress(ps@, id);
                    assert(item_step(ps@, id) > i32::MAX);
                }
                return false;
            }
        }
        i = i + 1;
    }
    proof {
        assert forall|id: i32| #[trigger] item_step(ps@, id) <= i32::MAX by {
            lemma_last_progress(ps@, id);
            if last_progress(ps@, id) is Some {
                let j = choose|j: int|
                    0 <= j < ps@.len() && ps@[j].order_item_id == id && last_mark_of_item(ps@, j)
                        && last_progress(ps@, id) == Some(#[trigger] ps@[j]);
                assert(step_after(ps@[j]) <= i32::MAX);
            }
        }
    }
    true
}

/// "该流程不存在": the mark to revoke is unknown.
pub fn mark_missing_err() -> (r: ERPError)
    ensures
        r@ == ERPErrorView::NotFound("该流程不存在"@),
{
    ERPError::NotFound(String::from_str("该流程不存在"))
}

/// "订单商品不存在": the order goods or order item to mark is unknown.
pub fn mark_target_missing_err() -> (r: ERPError)
    ensures
        r@ == ERPErrorView::NotFound("订单商品不存在"@),
{
    ERPError::NotFound(String::from_str("订单商品不存在"))
}

/// "当前的状态并不是你可以修改的": the account does not work at the step.
pub fn check_step_permission(account_steps: &Vec<i32>, step: i32) -> (r: Result<(), ERPError>)
    ensures
        account_steps@.contains(step) <==> r is Ok,
        r is Err ==> r->Err_0@ == ERPErrorView::NoPermission("当前的状态并不是你可以修改的"@),
{
    if crate::common::assoc::contains_i32(account_steps, step) {
        Ok(())
    } else {
        Err(ERPError::NoPermission(String::from_str("当前的状态并不是你可以修改的")))
    }
}

/// "无操作权限": only an account working at a mark's step may revoke it.
pub fn check_revoke_permission(account_steps: &Vec<i32>, mark_step: i32) -> (r: Result<(), ERPError>)
    ensures
        account_steps@.contains(mark_step) <==> r is Ok,
        r is Err ==> r->Err_0@ == ERPErrorView::NoPermission("无操作权限"@),
{
    if crate::common::assoc::contains_i32(account_steps, mark_step) {
        Ok(())
    } else {
        Err(ERPError::NoPermission(String::from_str("无操作权限")))
    }
}

/// The mark that `account_id` makes on item `order_item_id` at `step` and
/// `index`; an index of `DONE_INDEX` completes the step.
pub open spec fn new_mark(
    order_item_id: i32,
    step: i32,
    index: i32,
    account_id: i32,
    notes: String,
    dt: Timestamp,
) -> ProgressModel {
    ProgressModel {
        id: 0,
        order_item_id,
        step,
        index,
        account_id,
        done: index == DONE_INDEX,
        notes,
        dt,
    }
}

/// One mark per item, in the order of the items.
pub fn progress_rows(
    order_item_ids: &Vec<i32>,
    step: i32,
    index: i32,
    account_id: i32,
    notes: &String,
    dt: Timestamp,
) -> (r: Vec<ProgressModel>)
    ensures
        r@.len() == order_item_ids@.len(),
        forall|i: int|
            0 <= i < r@.len() ==> #[trigger] r@[i] == new_mark(
                order_item_ids@[i],
                step,
                index,
                account_id,
                *notes,
                dt,
            ),
{
    let mut r: Vec<ProgressModel> = Vec::new();
    let mut i: usize = 0;
    while i < order_item_ids.len()
        invariant
            i <= order_item_ids@.len(),
            r@.len() == i,
            forall|t: int|
                0 <= t < i ==> #[trigger] r@[t] == new_mark(
                    order_item_ids@[t],
                    step,
                    index,
                    account_id,
                    *notes,
                    dt,
                ),
        decreases order_item_ids.len() - i,
    {
        r.push(
            ProgressModel {
                id: 0,
                order_item_id: order_item_ids[i],
                step,
                index,
                account_id,
                done: index == DONE_INDEX,
                notes: notes.clone(),
                dt,
            },
        );
        i = i + 1;
    }
    r
}

} // verus!
