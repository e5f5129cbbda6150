//! Putting together the goods of an order with their items and the
//! progress marks on them: where each item stands, whether the asking
//! account makes its next mark, and how many items of a style stand at
//! each (step, index).
use crate::common::assoc::{distinct_keys, last_val};
use crate::constants::DONE_INDEX;
use crate::dto::dto_orders::{
    clone_marks, items_with_steps_view, ItemWithStepsView, OrderGoodsDto, OrderGoodsItemDto,
    OrderGoodsItemView, OrderGoodsItemWithStepsDto, OrderGoodsWithStepsWithItemStepDto, ufs_view,
};
use crate::dto::dto_progress::OneProgress;
use crate::dto::dto_orders::{
    OrderPlainItemDto, OrderPlainItemWithCurrentStepDto, OrderPlainItemWithoutImagesPackageDto,
};
use crate::dto::step_count::{entries_map, keys_ascending, StepIndexCount};
use crate::model::order::GoodsImagesAndPackageModel;
use crate::model::progress::ProgressModel;
use vstd::prelude::*;

verus! {

// ---------------------------------------------------------------------
// Where an item stands
// ---------------------------------------------------------------------

/// The marks made on item `id`, in the order given.
pub open spec fn marks_of(ps: Seq<OneProgress>, id: i32) -> Seq<OneProgress>
    decreases ps.len(),
{
    if ps.len() == 0 {
        Seq::empty()
    } else {
        let r = marks_of(ps.drop_last(), id);
        if ps.last().order_item_id == id {
            r.push(ps.last())
        } else {
            r
        }
    }
}

/// The step at which the next mark on an item is made: step 1 for an
/// item without marks, the step after its last mark's where that mark
/// completed the step, and the last mark's step otherwise.
pub open spec fn next_step(marks: Seq<OneProgress>) -> int {
    if marks.len() == 0 {
        1
    } else if marks.last().done {
        marks.last().step + 1
    } else {
        marks.last().step as int
    }
}

/// The (step, index) that an item stands at: its last mark's, or (1, 0)
/// for an item without marks.
pub open spec fn step_index_of(marks: Seq<OneProgress>) -> (i32, i32) {
    if marks.len() == 0 {
        (1, 0)
    } else {
        (marks.last().step, marks.last().index)
    }
}

/// A last mark that moves on to the next step is not at the last step
/// that the service can number.
pub open spec fn marks_fit(marks: Seq<OneProgress>) -> bool {
    marks.len() > 0 && (marks.last().done || marks.last().index == DONE_INDEX) ==> marks.last().step
        < i32::MAX
}

/// The marks of every item fit.
pub open spec fn progress_fits(ps: Seq<OneProgress>) -> bool {
    forall|id: i32| #[trigger] marks_fit(marks_of(ps, id))
}

/// Mark `j` is the last of the marks on its item.
pub open spec fn last_of_its_item(ps: Seq<OneProgress>, j: int) -> bool {
    forall|k: int| j < k < ps.len() ==> (#[trigger] ps[k]).order_item_id != ps[j].order_item_id
}

/// A mark that moves its item on to the next step is not at the last
/// step there is.
pub open spec fn mark_fits(p: OneProgress) -> bool {
    (p.done || p.index == DONE_INDEX) ==> p.step < i32::MAX
}

/// The marks on an item end with the last of them in the list.
proof fn lemma_marks_of_last(ps: Seq<OneProgress>, id: i32)
    ensures
        marks_of(ps, id).len() > 0 ==> exists|j: int|
            0 <= j < ps.len() && ps[j].order_item_id == id && last_of_its_item(ps, j)
                && marks_of(ps, id).last() == #[trigger] ps[j],
        forall|j: int|
            0 <= j < ps.len() && (#[trigger] ps[j]).order_item_id == id && last_of_its_item(ps, j)
                ==> marks_of(ps, id).len() > 0 && marks_of(ps, id).last() == ps[j],
    decreases ps.len(),
{
    if ps.len() > 0 {
        let d = ps.drop_last();
        lemma_marks_of_last(d, id);
        if ps.last().order_item_id == id {
            assert(last_of_its_item(ps, ps.len() - 1));
            assert(ps[ps.len() - 1] == ps.last());
            assert forall|j: int|
                0 <= j < ps.len() && (#[trigger] ps[j]).order_item_id == id && last_of_its_item(
                    ps,
                    j,
                ) implies marks_of(ps, id).len() > 0 && marks_of(ps, id).last() == ps[j] by {
                if j < ps.len() - 1 {
                    assert(ps[ps.len() - 1].order_item_id != ps[j].order_item_id);
                }
            }
        } else {
            if marks_of(ps, id).len() > 0 {
                let j = choose|j: int|
                    0 <= j < d.len() && d[j].order_item_id == id && last_of_its_item(d, j)
                        && marks_of(d, id).last() == #[trigger] d[j];
                assert(ps[j] == d[j]);
                assert forall|k: int| j < k < ps.len() implies (#[trigger] ps[k]).order_item_id
                    != ps[j].order_item_id by {
                    if k < d.len() {
                        assert(ps[k] == d[k]);
                    }
                }
            }
            assert forall|j: int|
                0 <= j < ps.len() && (#[trigger] ps[j]).order_item_id == id && last_of_its_item(
                    ps,
                    j,
                ) implies marks_of(ps, id).len() > 0 && marks_of(ps, id).last() == ps[j] by {
                assert(j < ps.len() - 1);
                assert(ps[j] == d[j]);
                assert forall|k: int| j < k < d.len() implies (#[trigger] d[k]).order_item_id
                    != d[j].order_item_id by {
                    assert(ps[k] == d[k]);
                }
            }
        }
    }
}

/// Whether the marks of every item fit: the step after a last mark that
/// completes a step is still a step.
pub fn progresses_fit(ps: &Vec<OneProgress>) -> (r: bool)
    ensures
        r == progress_fits(ps@),
{
    let n = ps.len();
    let mut i: usize = 0;
    while i < n
        invariant
            n == ps@.len(),
            i <= n,
            forall|j: int| 0 <= j < i && last_of_its_item(ps@, j) ==> mark_fits(#[trigger] ps@[j]),
        decreases n - i,
    {
        let p = &ps[i];
        if (p.done || p.index == DONE_INDEX) && p.step == i32::MAX {
            let mut k: usize = i + 1;
            let mut later = false;
            while k < n
                invariant
                    n == ps@.len(),
                    i < k <= n,
                    !later ==> forall|t: int| i < t < k ==> (#[trigger] ps@[t]).order_item_id
                        != ps@[i as int].order_item_id,
                    later ==> !last_of_its_item(ps@, i as int),
                decreases n - k,
            {
                if ps[k].order_item_id == ps[i].order_item_id {
                    later = true;
                }
                k = k + 1;
            }
            if !later {
                proof {
                    let id = ps@[i as int].order_item_id;
                    lemma_marks_of_last(ps@, id);
                    assert(!marks_fit(marks_of(ps@, id)));
                }
                return false;
            }
        }
        i = i + 1;
    }
    proof {
        assert forall|id: i32| #[trigger] marks_fit(marks_of(ps@, id)) by {
            lemma_marks_of_last(ps@, id);
            if marks_of(ps@, id).len() > 0 {
                let j = choose|j: int|
                    0 <= j < ps@.len() && ps@[j].order_item_id == id && last_of_its_item(ps@, j)
                        && marks_of(ps@, id).last() == #[trigger] ps@[j];
                assert(mark_fits(ps@[j]));
            }
        }
    }
    true
}

/// An item with its marks, where it stands, and whether an account
/// working at `account_steps` makes its next mark.
pub open spec fn with_steps(it: OrderGoodsItemView, ps: Seq<OneProgress>, account_steps: Seq<i32>) -> ItemWithStepsView {
    let marks = marks_of(ps, it.id);
    ItemWithStepsView {
        item: it,
        is_next_action: account_steps.contains(next_step(marks) as i32),
        current_step: next_step(marks) as i32,
        steps: marks,
    }
}

/// An item stands where its last mark puts it: after one more mark `p` on
/// it, whatever the marks before, its current step is the step after
/// `p`'s when `p` completed its step and `p`'s step otherwise, the account
/// makes the next mark exactly when it works at that step, and its marks
/// are those before followed by `p`.
pub proof fn lemma_current_step_follows_last_mark(
    it: OrderGoodsItemView,
    ps: Seq<OneProgress>,
    p: OneProgress,
    account_steps: Seq<i32>,
)
    requires
        p.order_item_id == it.id,
        p.done ==> p.step < i32::MAX,
    ensures
        with_steps(it, ps.push(p), account_steps).current_step == (if p.done {
            p.step + 1
        } else {
            p.step as int
        }),
        with_steps(it, ps.push(p), account_steps).is_next_action == account_steps.contains(
            with_steps(it, ps.push(p), account_steps).current_step,
        ),
        with_steps(it, ps.push(p), account_steps).steps == with_steps(it, ps, account_steps).steps.push(p),
{
    assert(ps.push(p).drop_last() =~= ps);
    assert(ps.push(p).last() == p);
}

/// A mark on another item leaves an item as it stands.
pub proof fn lemma_other_items_marks_leave_item(
    it: OrderGoodsItemView,
    ps: Seq<OneProgress>,
    p: OneProgress,
    account_steps: Seq<i32>,
)
    requires
        p.order_item_id != it.id,
    ensures
        with_steps(it, ps.push(p), account_steps) == with_steps(it, ps, account_steps),
{
    assert(ps.push(p).drop_last() =~= ps);
    assert(ps.push(p).last() == p);
}

proof fn lemma_no_marks_of(ps: Seq<OneProgress>, id: i32)
    requires
        forall|j: int| 0 <= j < ps.len() ==> (#[trigger] ps[j]).order_item_id != id,
    ensures
        marks_of(ps, id).len() == 0,
    decreases ps.len(),
{
    if ps.len() > 0 {
        let d = ps.drop_last();
        assert forall|j: int| 0 <= j < d.len() implies (#[trigger] d[j]).order_item_id != id by {
            assert(d[j] == ps[j]);
        }
        lemma_no_marks_of(d, id);
        assert(ps[ps.len() - 1] == ps.last());
    }
}

/// An item without marks stands at step 1, with no marks, and the account
/// makes its next mark exactly when it works at step 1.
pub proof fn lemma_unmarked_item_at_step_one(
    it: OrderGoodsItemView,
    ps: Seq<OneProgress>,
    account_steps: Seq<i32>,
)
    requires
        forall|j: int| 0 <= j < ps.len() ==> (#[trigger] ps[j]).order_item_id != it.id,
    ensures
        with_steps(it, ps, account_steps).current_step == 1,
        with_steps(it, ps, account_steps).steps.len() == 0,
        with_steps(it, ps, account_steps).is_next_action == account_steps.contains(1),
{
    lemma_no_marks_of(ps, it.id);
}

/// The marks made on item `id`.
pub fn marks_for(progresses: &Vec<OneProgress>, id: i32) -> (r: Vec<OneProgress>)
    ensures
        r@ == marks_of(progresses@, id),
{
    let mut r: Vec<OneProgress> = Vec::new();
    let mut i: usize = 0;
    assert(progresses@.take(0) =~= Seq::<OneProgress>::empty());
    while i < progresses.len()
        invariant
            i <= progresses@.len(),
            r@ == marks_of(progresses@.take(i as int), id),
        decreases progresses.len() - i,
    {
        assert(progresses@.take(i + 1).drop_last() =~= progresses@.take(i as int));
        assert(progresses@.take(i + 1).last() == progresses@[i as int]);
        if progresses[i].order_item_id == id {
            r.push(progresses[i].clone());
        }
        i = i + 1;
    }
    assert(progresses@.take(progresses@.len() as int) =~= progresses@);
    r
}

fn next_step_exec(marks: &Vec<OneProgress>) -> (r: i32)
    requires
        marks_fit(marks@),
    ensures
        r == next_step(marks@),
{
    let n = marks.len();
    if n == 0 {
        1
    } else if marks[n - 1].done {
        marks[n - 1].step + 1
    } else {
        marks[n - 1].step
    }
}

/// Each item with its marks, where it stands and whether an account
/// working at `account_steps` makes its next mark.
pub fn items_with_steps(
    items: Vec<OrderGoodsItemDto>,
    progresses: &Vec<OneProgress>,
    account_steps: &Vec<i32>,
) -> (r: Vec<OrderGoodsItemWithStepsDto>)
    requires
        progress_fits(progresses@),
    ensures
        items_with_steps_view(r@) == items@.map_values(
            |it: OrderGoodsItemDto| with_steps(it@, progresses@, account_steps@),
        ),
{
    let ghost orig = items@;
    let ghost goal = orig.map_values(
        |it: OrderGoodsItemDto| with_steps(it@, progresses@, account_steps@),
    );
    let total = items.len();
    let mut rest = items;
    let mut r: Vec<OrderGoodsItemWithStepsDto> = Vec::new();
    let mut done: usize = 0;
    while rest.len() > 0
        invariant
            progress_fits(progresses@),
            total == orig.len(),
            done + rest@.len() == orig.len(),
            rest@ == orig.skip(done as int),
            goal == orig.map_values(
                |it: OrderGoodsItemDto| with_steps(it@, progresses@, account_steps@),
            ),
            items_with_steps_view(r@) == goal.take(done as int),
        decreases rest@.len(),
    {
        let it = rest.remove(0);
        assert(it == orig[done as int]);
        assert(rest@ =~= orig.skip(done + 1));
        let marks = marks_for(progresses, it.id);
        assert(marks_fit(marks_of(progresses@, it.id)));
        let next = next_step_exec(&marks);
        let is_next = crate::common::assoc::contains_i32(account_steps, next);
        let ghost old_r = items_with_steps_view(r@);
        let d = OrderGoodsItemWithStepsDto::from(it, marks, is_next, next);
        r.push(d);
        assert(d@ == with_steps(orig[done as int]@, progresses@, account_steps@));
        assert(items_with_steps_view(r@) =~= old_r.push(d@));
        assert(goal.take(done + 1) =~= goal.take(done as int).push(goal[done as int]));
        done = done + 1;
    }
    assert(goal.take(done as int) =~= goal);
    r
}

// ---------------------------------------------------------------------
// Where the items of a style stand
// ---------------------------------------------------------------------

/// The items of order goods `ogid`, in order.
pub open spec fn items_of(items: Seq<ItemWithStepsView>, ogid: i32) -> Seq<ItemWithStepsView>
    decreases items.len(),
{
    if items.len() == 0 {
        Seq::empty()
    } else {
        let r = items_of(items.drop_last(), ogid);
        if items.last().item.order_goods_id == ogid {
            r.push(items.last())
        } else {
            r
        }
    }
}

/// Each item's id with the (step, index) it stands at.
pub open spec fn item_positions(items: Seq<ItemWithStepsView>) -> Seq<(i32, (i32, i32))> {
    items.map_values(|it: ItemWithStepsView| (it.item.id, step_index_of(it.steps)))
}

/// How many of the items `keys` stand at each (step, index), an item
/// standing where its last entry among `pairs` puts it.
pub open spec fn position_counts(keys: Seq<i32>, pairs: Seq<(i32, (i32, i32))>) -> Map<
    (i32, i32),
    i32,
>
    decreases keys.len(),
{
    if keys.len() == 0 {
        Map::empty()
    } else {
        let m = position_counts(keys.drop_last(), pairs);
        let si = last_val(pairs, keys.last())->0;
        m.insert(
            si,
            if m.contains_key(si) {
                (m[si] + 1) as i32
            } else {
                1
            },
        )
    }
}

/// How many items (told apart by id) stand at each (step, index).
pub open spec fn goods_counts(items: Seq<ItemWithStepsView>) -> Map<(i32, i32), i32> {
    position_counts(distinct_keys(item_positions(items)), item_positions(items))
}

/// The step at which the next mark on all items of a style is made, when
/// they all stand at one (step, index): the step after it where the index
/// completes a step.
pub open spec fn common_step(counts: Map<(i32, i32), i32>) -> Option<int> {
    if exists|k: (i32, i32)| counts.dom() == set![k] {
        let k = choose|k: (i32, i32)| counts.dom() == set![k];
        Some(
            if k.1 == DONE_INDEX {
                k.0 + 1
            } else {
                k.0 as int
            },
        )
    } else {
        None
    }
}

proof fn lemma_distinct_keys_len<K, V>(s: Seq<(K, V)>)
    ensures
        distinct_keys(s).len() <= s.len(),
    decreases s.len(),
{
    if s.len() > 0 {
        lemma_distinct_keys_len(s.drop_last());
    }
}

/// How many items (told apart by id) stand at each (step, index).
pub fn count_positions(items: &Vec<OrderGoodsItemWithStepsDto>) -> (r: StepIndexCount)
    requires
        items@.len() < i32::MAX,
    ensures
        r.wf(),
        r@ == goods_counts(items_with_steps_view(items@)),
{
    let ghost iv = items_with_steps_view(items@);
    let ghost pairs = item_positions(iv);
    let mut ps: Vec<(i32, (i32, i32))> = Vec::new();
    let mut i: usize = 0;
    while i < items.len()
        invariant
            iv == items_with_steps_view(items@),
            pairs == item_positions(iv),
            i <= items@.len(),
            ps@ == pairs.take(i as int),
        decreases items.len() - i,
    {
        let n = items[i].steps.len();
        let si = if n == 0 {
            (1i32, 0i32)
        } else {
            (items[i].steps[n - 1].step, items[i].steps[n - 1].index)
        };
        assert(si == step_index_of(iv[i as int].steps));
        ps.push((items[i].id, si));
        i = i + 1;
        assert(ps@ =~= pairs.take(i as int));
    }
    assert(pairs.take(items@.len() as int) =~= pairs);
    let mut keys: Vec<i32> = Vec::new();
    let mut j: usize = 0;
    assert(pairs.take(0) =~= Seq::<(i32, (i32, i32))>::empty());
    while j < ps.len()
        invariant
            ps@ == pairs,
            j <= pairs.len(),
            keys@ == distinct_keys(pairs.take(j as int)),
        decreases ps.len() - j,
    {
        assert(pairs.take(j + 1).drop_last() =~= pairs.take(j as int));
        assert(pairs.take(j + 1).last() == pairs[j as int]);
        if !crate::common::assoc::contains_i32(&keys, ps[j].0) {
            keys.push(ps[j].0);
        }
        j = j + 1;
    }
    assert(pairs.take(ps@.len() as int) =~= pairs);
    proof {
        lemma_distinct_keys_len(pairs);
    }
    let mut r = StepIndexCount::new();
    let mut t: usize = 0;
    assert(keys@.take(0) =~= Seq::<i32>::empty());
    while t < keys.len()
        invariant
            ps@ == pairs,
            keys@ == distinct_keys(pairs),
            keys@.len() <= pairs.len(),
            pairs.len() < i32::MAX,
            t <= keys@.len(),
            r.wf(),
            r@ == position_counts(keys@.take(t as int), pairs),
            forall|k: (i32, i32)| #[trigger] r@.contains_key(k) ==> r@[k] <= t,
        decreases keys.len() - t,
    {
        let k = keys[t];
        proof {
            crate::common::assoc::lemma_distinct_keys_contains(pairs, k);
            assert(keys@.contains(k)) by {
                assert(keys@[t as int] == k);
            }
        }
        let si = last_position(&ps, k);
        assert(keys@.take(t + 1).drop_last() =~= keys@.take(t as int));
        assert(keys@.take(t + 1).last() == k);
        let ghost old_m = r@;
        r.add_one(si.0, si.1);
        assert forall|q: (i32, i32)| #[trigger] r@.contains_key(q) implies r@[q] <= t + 1 by {
            if q != si {
                assert(old_m.contains_key(q));
            }
        }
        t = t + 1;
    }
    assert(keys@.take(keys@.len() as int) =~= keys@);
    r
}

/// The position of the last pair of item `k`, which has one.
fn last_position(ps: &Vec<(i32, (i32, i32))>, k: i32) -> (r: (i32, i32))
    requires
        last_val(ps@, k) is Some,
    ensures
        last_val(ps@, k) == Some(r),
{
    let mut i: usize = ps.len();
    assert(ps@.take(i as int) =~= ps@);
    while i > 0
        invariant
            i <= ps@.len(),
            last_val(ps@, k) == last_val(ps@.take(i as int), k),
            last_val(ps@, k) is Some,
        decreases i,
    {
        assert(ps@.take(i as int).drop_last() =~= ps@.take(i - 1));
        assert(ps@.take(i as int).last() == ps@[i - 1]);
        if ps[i - 1].0 == k {
            return ps[i - 1].1;
        }
        i = i - 1;
    }
    assert(ps@.take(0) =~= Seq::<(i32, (i32, i32))>::empty());
    (1, 0)
}

/// The items of order goods `ogid`, in order.
pub fn items_for(items: &Vec<OrderGoodsItemWithStepsDto>, ogid: i32) -> (r: Vec<OrderGoodsItemWithStepsDto>)
    ensures
        items_with_steps_view(r@) == items_of(items_with_steps_view(items@), ogid),
        r@.len() <= items@.len(),
{
    let ghost iv = items_with_steps_view(items@);
    let mut r: Vec<OrderGoodsItemWithStepsDto> = Vec::new();
    let mut i: usize = 0;
    assert(iv.take(0) =~= Seq::<ItemWithStepsView>::empty());
    while i < items.len()
        invariant
            iv == items_with_steps_view(items@),
            i <= items@.len(),
            items_with_steps_view(r@) == items_of(iv.take(i as int), ogid),
            r@.len() <= i,
        decreases items.len() - i,
    {
        assert(iv.take(i + 1).drop_last() =~= iv.take(i as int));
        assert(iv.take(i + 1).last() == items@[i as int]@);
        if items[i].order_goods_id == ogid {
            let ghost old_r = items_with_steps_view(r@);
            let c = items[i].clone();
            r.push(c);
            assert(items_with_steps_view(r@) =~= old_r.push(c@));
        }
        i = i + 1;
    }
    assert(iv.take(items@.len() as int) =~= iv);
    r
}

/// The marks of every item of the list fit.
pub open spec fn items_fit(items: Seq<ItemWithStepsView>) -> bool {
    forall|i: int| 0 <= i < items.len() ==> #[trigger] marks_fit(items[i].steps)
}

proof fn lemma_items_of_fit(items: Seq<ItemWithStepsView>, ogid: i32)
    requires
        items_fit(items),
    ensures
        items_fit(items_of(items, ogid)),
    decreases items.len(),
{
    if items.len() > 0 {
        assert(items_fit(items.drop_last())) by {
            assert forall|i: int| 0 <= i < items.drop_last().len() implies #[trigger] marks_fit(
                items.drop_last()[i].steps,
            ) by {
                assert(items.drop_last()[i] == items[i]);
            }
        }
        lemma_items_of_fit(items.drop_last(), ogid);
        assert(marks_fit(items[items.len() - 1].steps));
    }
}

proof fn lemma_common_step_fits(items: Seq<ItemWithStepsView>, k: (i32, i32))
    requires
        items_fit(items),
        goods_counts(items).dom() == set![k],
    ensures
        k.1 == DONE_INDEX ==> k.0 < i32::MAX,
{
    let pairs = item_positions(items);
    let keys = distinct_keys(pairs);
    assert(goods_counts(items).contains_key(k));
    let t = lemma_position_counts_key(keys, pairs, k);
    crate::common::assoc::lemma_distinct_keys_contains(pairs, keys[t]);
    assert(keys.contains(keys[t]));
    let j = lemma_last_val_at(pairs, keys[t]);
    assert(pairs[j].1 == k);
    assert(pairs[j].1 == step_index_of(items[j].steps));
    assert(marks_fit(items[j].steps));
}

/// A counted position is the position of one of the counted items.
proof fn lemma_position_counts_key(keys: Seq<i32>, pairs: Seq<(i32, (i32, i32))>, k: (i32, i32)) -> (t: int)
    requires
        position_counts(keys, pairs).contains_key(k),
    ensures
        0 <= t < keys.len(),
        last_val(pairs, keys[t])->0 == k,
    decreases keys.len(),
{
    let m = position_counts(keys.drop_last(), pairs);
    let si = last_val(pairs, keys.last())->0;
    if k == si {
        keys.len() - 1
    } else {
        assert(m.contains_key(k));
        let t = lemma_position_counts_key(keys.drop_last(), pairs, k);
        assert(keys.drop_last()[t] == keys[t]);
        t
    }
}

/// Where the last pair of a key stands.
proof fn lemma_last_val_at(pairs: Seq<(i32, (i32, i32))>, k: i32) -> (j: int)
    requires
        last_val(pairs, k) is Some,
    ensures
        0 <= j < pairs.len(),
        pairs[j].0 == k,
        last_val(pairs, k) == Some(pairs[j].1),
    decreases pairs.len(),
{
    if pairs.last().0 == k {
        pairs.len() - 1
    } else {
        let j = lemma_last_val_at(pairs.drop_last(), k);
        assert(pairs.drop_last()[j] == pairs[j]);
        j
    }
}

/// `r` is the style `og` with its items among `all`, how many of them
/// stand at each (step, index), and, where all stand at one (step,
/// index), the step of their next mark and whether an account working at
/// `account_steps` makes it.
pub open spec fn og_dto_matches(
    r: OrderGoodsWithStepsWithItemStepDto,
    og: OrderGoodsDto,
    all: Seq<ItemWithStepsView>,
    account_steps: Seq<i32>,
) -> bool {
    &&& r.id == og.id
    &&& r.order_id == og.order_id
    &&& r.goods_id == og.goods_id
    &&& r.goods_no == og.goods_no
    &&& r.name == og.name
    &&& r.images == og.images
    &&& r.image_des == og.image_des
    &&& r.package_card == og.package_card
    &&& r.package_card_des == og.package_card_des
    &&& items_with_steps_view(r.items@) == items_of(all, og.id)
    &&& keys_ascending(ufs_view(r.steps@))
    &&& entries_map(ufs_view(r.steps@)) == goods_counts(items_of(all, og.id))
    &&& match common_step(goods_counts(items_of(all, og.id))) {
        Some(s) => r.current_step == s && r.is_next_action == account_steps.contains(s as i32),
        None => r.current_step == 0 && !r.is_next_action,
    }
    &&& r.current_index == 0
}

/// The style `og` with its items, how many of them stand at each (step,
/// index), and, where all stand at one (step, index), the step of their
/// next mark and whether an account working at `account_steps` makes it.
pub fn order_goods_with_steps(
    og: OrderGoodsDto,
    all_items: &Vec<OrderGoodsItemWithStepsDto>,
    account_steps: &Vec<i32>,
) -> (r: OrderGoodsWithStepsWithItemStepDto)
    requires
        all_items@.len() < i32::MAX,
        items_fit(items_with_steps_view(all_items@)),
    ensures
        og_dto_matches(r, og, items_with_steps_view(all_items@), account_steps@),
{
    let items = items_for(all_items, og.id);
    proof {
        lemma_items_of_fit(items_with_steps_view(all_items@), og.id);
    }
    let counts = count_positions(&items);
    let ghost c = counts@;
    let mut is_next_action = false;
    let mut current_step: i32 = 0;
    match counts.only_key() {
        Some(k) => {
            proof {
                lemma_common_step_fits(items_with_steps_view(items@), k);
                assert(c.dom() == set![k]);
                let k2 = choose|k2: (i32, i32)| c.dom() == set![k2];
                assert(c.dom().contains(k2));
                assert(k2 == k);
            }
            current_step = if k.1 == DONE_INDEX {
                k.0 + 1
            } else {
                k.0
            };
            is_next_action = crate::common::assoc::contains_i32(account_steps, current_step);
        },
        None => {
            proof {
                if exists|k: (i32, i32)| c.dom() == set![k] {
                    let k = choose|k: (i32, i32)| c.dom() == set![k];
                    assert(c.dom().len() == 1);
                }
            }
        },
    }
    OrderGoodsWithStepsWithItemStepDto::from_order_with_goods_and_steps_and_items(
        og,
        counts,
        items,
        is_next_action,
        current_step,
        0,
    )
}

/// The styles of an order, each with its items, their marks and where
/// they stand, for an account working at `account_steps`.
pub fn order_goods_dtos(
    order_goods: Vec<OrderGoodsDto>,
    items: Vec<OrderGoodsItemDto>,
    progresses: &Vec<OneProgress>,
    account_steps: &Vec<i32>,
) -> (r: Vec<OrderGoodsWithStepsWithItemStepDto>)
    requires
        items@.len() < i32::MAX,
        progress_fits(progresses@),
    ensures
        r@.len() == order_goods@.len(),
        forall|i: int|
            0 <= i < r@.len() ==> og_dto_matches(
                #[trigger] r@[i],
                order_goods@[i],
                items@.map_values(|it: OrderGoodsItemDto| with_steps(it@, progresses@, account_steps@)),
                account_steps@,
            ),
{
    let ghost goal = items@.map_values(
        |it: OrderGoodsItemDto| with_steps(it@, progresses@, account_steps@),
    );
    let ws = items_with_steps(items, progresses, account_steps);
    assert(items_with_steps_view(ws@) == goal);
    assert(ws@.len() == items_with_steps_view(ws@).len());
    assert(items_fit(goal)) by {
        assert forall|i: int| 0 <= i < goal.len() implies #[trigger] marks_fit(goal[i].steps) by {
            assert(marks_fit(marks_of(progresses@, goal[i].item.id)));
        }
    }
    let ghost orig = order_goods@;
    let total = order_goods.len();
    let mut rest = order_goods;
    let mut r: Vec<OrderGoodsWithStepsWithItemStepDto> = Vec::new();
    let mut done: usize = 0;
    while rest.len() > 0
        invariant
            total == orig.len(),
            done + rest@.len() == orig.len(),
            rest@ == orig.skip(done as int),
            items_with_steps_view(ws@) == goal,
            items_fit(goal),
            ws@.len() < i32::MAX,
            r@.len() == done,
            forall|i: int|
                0 <= i < done ==> og_dto_matches(#[trigger] r@[i], orig[i], goal, account_steps@),
        decreases rest@.len(),
    {
        let og = rest.remove(0);
        assert(og == orig[done as int]);
        assert(rest@ =~= orig.skip(done + 1));
        let d = order_goods_with_steps(og, &ws, account_steps);
        r.push(d);
        done = done + 1;
    }
    r
}

// ---------------------------------------------------------------------
// Items of an order, one by one
// ---------------------------------------------------------------------

/// The last pictures and package card recorded for goods `gid`.
pub open spec fn last_package(ps: Seq<GoodsImagesAndPackageModel>, gid: i32) -> Option<
    GoodsImagesAndPackageModel,
>
    decreases ps.len(),
{
    if ps.len() == 0 {
        None
    } else if ps.last().goods_id == gid {
        Some(ps.last())
    } else {
        last_package(ps.drop_last(), gid)
    }
}

/// The last mark made on item `id`.
pub open spec fn last_progress(ps: Seq<ProgressModel>, id: i32) -> Option<ProgressModel>
    decreases ps.len(),
{
    if ps.len() == 0 {
        None
    } else if ps.last().order_item_id == id {
        Some(ps.last())
    } else {
        last_progress(ps.drop_last(), id)
    }
}

/// `r` is item `it` with the pictures of its goods (none where nothing is
/// recorded), where its last mark puts it (step 1, index 0 and no notes
/// without marks), and whether an account working at `account_steps`
/// makes its next mark.
pub open spec fn plain_item_matches(
    r: OrderPlainItemWithCurrentStepDto,
    it: OrderPlainItemWithoutImagesPackageDto,
    packages: Seq<GoodsImagesAndPackageModel>,
    progresses: Seq<ProgressModel>,
    account_steps: Seq<i32>,
) -> bool {
    &&& r.id == it.id
    &&& r.order_id == it.order_id
    &&& r.goods_id == it.goods_id
    &&& r.goods_no == it.goods_no
    &&& r.name == it.name
    &&& r.order_goods_id == it.order_goods_id
    &&& r.sku_id == it.sku_id
    &&& r.sku_no == it.sku_no
    &&& r.color == it.color
    &&& r.count == it.count
    &&& r.unit == it.unit
    &&& r.unit_price == it.unit_price
    &&& r.total_price == it.total_price
    &&& r.notes == it.notes
    &&& match last_package(packages, it.goods_id) {
        Some(p) => r.images@ == p.images@ && r.package_card == p.package_card && r.package_card_des
            == p.package_card_des,
        None => r.images@.len() == 0 && r.package_card@.len() == 0 && r.package_card_des@.len()
            == 0,
    }
    &&& match last_progress(progresses, it.id) {
        Some(p) => r.current_step == p.step && r.current_index == p.index && r.current_notes@
            == p.notes@,
        None => r.current_step == 1 && r.current_index == 0 && r.current_notes@.len() == 0,
    }
    &&& r.is_next_action == account_steps.contains(r.current_step)
}

pub(crate) fn package_for(packages: &Vec<GoodsImagesAndPackageModel>, gid: i32) -> (r: GoodsImagesAndPackageModel)
    ensures
        match last_package(packages@, gid) {
            Some(p) => r.images@ == p.images@ && r.image_des == p.image_des && r.package_card
                == p.package_card && r.package_card_des == p.package_card_des,
            None => r.images@.len() == 0 && r.image_des@.len() == 0 && r.package_card@.len() == 0
                && r.package_card_des@.len() == 0,
        },
{
    let mut i: usize = packages.len();
    assert(packages@.take(i as int) =~= packages@);
    while i > 0
        invariant
            i <= packages@.len(),
            last_package(packages@, gid) == last_package(packages@.take(i as int), gid),
        decreases i,
    {
        assert(packages@.take(i as int).drop_last() =~= packages@.take(i - 1));
        assert(packages@.take(i as int).last() == packages@[i - 1]);
        if packages[i - 1].goods_id == gid {
            return packages[i - 1].clone();
        }
        i = i - 1;
    }
    assert(packages@.take(0) =~= Seq::<GoodsImagesAndPackageModel>::empty());
    GoodsImagesAndPackageModel {
        images: Vec::new(),
        image_des: String::new(),
        package_card: String::new(),
        package_card_des: String::new(),
        goods_id: 0,
    }
}

fn progress_for(progresses: &Vec<ProgressModel>, id: i32) -> (r: (i32, i32, String))
    ensures
        match last_progress(progresses@, id) {
            Some(p) => r.0 == p.step && r.1 == p.index && r.2 == p.notes,
            None => r.0 == 1 && r.1 == 0 && r.2@.len() == 0,
        },
{
    let mut i: usize = progresses.len();
    assert(progresses@.take(i as int) =~= progresses@);
    while i > 0
        invariant
            i <= progresses@.len(),
            last_progress(progresses@, id) == last_progress(progresses@.take(i as int), id),
        decreases i,
    {
        assert(progresses@.take(i as int).drop_last() =~= progresses@.take(i - 1));
        assert(progresses@.take(i as int).last() == progresses@[i - 1]);
        if progresses[i - 1].order_item_id == id {
            return (progresses[i - 1].step, progresses[i - 1].index, progresses[i - 1].notes.clone());
        }
        i = i - 1;
    }
    assert(progresses@.take(0) =~= Seq::<ProgressModel>::empty());
    (1, 0, String::new())
}

/// The items of an order, each with the pictures of its goods and where
/// its production stands, for an account working at `account_steps`.
pub fn plain_items_with_steps(
    items: Vec<OrderPlainItemWithoutImagesPackageDto>,
    packages: &Vec<GoodsImagesAndPackageModel>,
    progresses: &Vec<ProgressModel>,
    account_steps: &Vec<i32>,
) -> (r: Vec<OrderPlainItemWithCurrentStepDto>)
    ensures
        r@.len() == items@.len(),
        forall|i: int|
            0 <= i < r@.len() ==> plain_item_matches(
                #[trigger] r@[i],
                items@[i],
                packages@,
                progresses@,
                account_steps@,
            ),
{
    let ghost orig = items@;
    let total = items.len();
    let mut rest = items;
    let mut r: Vec<OrderPlainItemWithCurrentStepDto> = Vec::new();
    let mut done: usize = 0;
    while rest.len() > 0
        invariant
            total == orig.len(),
            done + rest@.len() == orig.len(),
            rest@ == orig.skip(done as int),
            r@.len() == done,
            forall|i: int|
                0 <= i < done ==> plain_item_matches(
                    #[trigger] r@[i],
                    orig[i],
                    packages@,
                    progresses@,
                    account_steps@,
                ),
        decreases rest@.len(),
    {
        let it = rest.remove(0);
        assert(it == orig[done as int]);
        assert(rest@ =~= orig.skip(done + 1));
        let pkg = package_for(packages, it.goods_id);
        let (step, index, notes) = progress_for(progresses, it.id);
        let is_next = crate::common::assoc::contains_i32(account_steps, step);
        let plain = OrderPlainItemDto::from_sku_and_images_package(it, pkg);
        let d = OrderPlainItemWithCurrentStepDto::from(plain, is_next, step, index, notes.as_str());
        r.push(d);
        done = done + 1;
    }
    r
}

/// `v` with each run of equal numbers kept once, as `Vec::dedup` leaves
/// it.
pub open spec fn dedup_seq(v: Seq<i32>) -> Seq<i32>
    decreases v.len(),
{
    if v.len() <= 1 {
        v
    } else {
        let d = dedup_seq(v.drop_last());
        if v.last() == v[v.len() - 2] {
            d
        } else {
            d.push(v.last())
        }
    }
}

/// Keeping each run of equal numbers once leaves no two equal numbers
/// next to each other, and keeps the last number.
pub proof fn lemma_dedup_laws(v: Seq<i32>)
    ensures
        forall|i: int| 0 <= i < dedup_seq(v).len() - 1 ==> #[trigger] dedup_seq(v)[i] != dedup_seq(v)[i + 1],
        v.len() > 0 ==> dedup_seq(v).len() > 0 && dedup_seq(v).last() == v.last(),
        dedup_seq(v).len() <= v.len(),
    decreases v.len(),
{
    if v.len() > 1 {
        let d = v.drop_last();
        lemma_dedup_laws(d);
        assert(d.last() == v[v.len() - 2]);
        let r = dedup_seq(d);
        if v.last() != v[v.len() - 2] {
            assert forall|i: int| 0 <= i < r.push(v.last()).len() - 1 implies #[trigger] r.push(
                v.last(),
            )[i] != r.push(v.last())[i + 1] by {
                if i < r.len() - 1 {
                    assert(r.push(v.last())[i] == r[i]);
                    assert(r.push(v.last())[i + 1] == r[i + 1]);
                } else {
                    assert(r.push(v.last())[i] == r.last());
                }
            }
        }
    }
}

/// The goods ids of the items, each run of equal ids kept once.
pub fn goods_ids_of_items(items: &Vec<OrderPlainItemWithoutImagesPackageDto>) -> (r: Vec<i32>)
    ensures
        r@ == dedup_seq(items@.map_values(|it: OrderPlainItemWithoutImagesPackageDto| it.goods_id)),
{
    let ghost ids = items@.map_values(|it: OrderPlainItemWithoutImagesPackageDto| it.goods_id);
    let mut r: Vec<i32> = Vec::new();
    let mut i: usize = 0;
    assert(ids.take(0) =~= Seq::<i32>::empty());
    while i < items.len()
        invariant
            ids == items@.map_values(|it: OrderPlainItemWithoutImagesPackageDto| it.goods_id),
            i <= items@.len(),
            r@ == dedup_seq(ids.take(i as int)),
            i > 0 ==> r@.len() > 0 && r@.last() == ids[i - 1],
        decreases items.len() - i,
    {
        assert(ids.take(i + 1).drop_last() =~= ids.take(i as int));
        assert(ids.take(i + 1).last() == ids[i as int]);
        let g = items[i].goods_id;
        if i == 0 || items[i - 1].goods_id != g {
            r.push(g);
        }
        proof {
            if i > 0 {
                assert(ids.take(i + 1)[i - 1] == ids[i - 1]);
            }
        }
        i = i + 1;
    }
    assert(ids.take(items@.len() as int) =~= ids);
    r
}

} // verus!
