//! Production progress records, and where the items of orders stand.
use crate::common::assoc::{contains_i32, distinct_keys, int_id_or_zero, last_val, val_or_zero};
use crate::common::datetime::Timestamp;
use crate::dto::step_count::StepIndexCount;
use crate::handler::order_items::last_progress;
use std::collections::HashMap;
use vstd::prelude::*;

verus! {

broadcast use vstd::std_specs::hash::group_hash_axioms;

/// A row of the `progress` table: one step of production marked on one
/// order item.
#[derive(Debug)]
pub struct ProgressModel {
    pub id: i32,
    pub order_item_id: i32,
    pub step: i32,
    pub index: i32,
    pub account_id: i32,
    pub done: bool,
    pub notes: String,
    pub dt: Timestamp,
}

/// The items looked at: those that the marks are on, then those of the
/// orders, each once.
pub open spec fn status_items(latest: Seq<ProgressModel>, item_orders: Seq<(i32, i32)>) -> Seq<i32> {
    distinct_keys(latest.map_values(|p: ProgressModel| (p.order_item_id, 0i32)) + item_orders)
}

/// Where item `k` stands: at its last mark's (step, index), or (1, 0).
pub open spec fn position(latest: Seq<ProgressModel>, k: i32) -> (i32, i32) {
    match last_progress(latest, k) {
        Some(p) => (p.step, p.index),
        None => (1, 0),
    }
}

/// How many of the items `keys` of order `oid` stand at each (step,
/// index); an item belongs to the order its last (item, order) pair names,
/// or to order 0.
pub open spec fn status_counts(
    keys: Seq<i32>,
    latest: Seq<ProgressModel>,
    item_orders: Seq<(i32, i32)>,
    oid: i32,
) -> Map<(i32, i32), i32>
    decreases keys.len(),
{
    if keys.len() == 0 {
        Map::empty()
    } else {
        let m = status_counts(keys.drop_last(), latest, item_orders, oid);
        let k = keys.last();
        if val_or_zero(item_orders, k) == oid {
            let si = position(latest, k);
            m.insert(
                si,
                if m.contains_key(si) {
                    (m[si] + 1) as i32
                } else {
                    1
                },
            )
        } else {
            m
        }
    }
}

/// For every order asked about, how many of its items stand at each
/// (step, index); nothing at all when the orders have no items.
pub open spec fn spec_progress_status(
    order_ids: Seq<i32>,
    item_orders: Seq<(i32, i32)>,
    latest: Seq<ProgressModel>,
) -> Map<i32, Map<(i32, i32), i32>> {
    if item_orders.len() == 0 {
        Map::empty()
    } else {
        Map::new(
            |o: i32| order_ids.contains(o),
            |o: i32| status_counts(status_items(latest, item_orders), latest, item_orders, o),
        )
    }
}

fn position_exec(latest: &Vec<ProgressModel>, k: i32) -> (r: (i32, i32))
    ensures
        r == position(latest@, k),
{
    let mut i: usize = latest.len();
    assert(latest@.take(i as int) =~= latest@);
    while i > 0
        invariant
            i <= latest@.len(),
            last_progress(latest@, k) == last_progress(latest@.take(i as int), k),
        decreases i,
    {
        assert(latest@.take(i as int).drop_last() =~= latest@.take(i - 1));
        assert(latest@.take(i as int).last() == latest@[i - 1]);
        if latest[i - 1].order_item_id == k {
            return (latest[i - 1].step, latest[i - 1].index);
        }
        i = i - 1;
    }
    assert(latest@.take(0) =~= Seq::<ProgressModel>::empty());
    (1, 0)
}

proof fn lemma_distinct_keys_len(s: Seq<(i32, i32)>)
    ensures
        distinct_keys(s).len() <= s.len(),
    decreases s.len(),
{
    if s.len() > 0 {
        lemma_distinct_keys_len(s.drop_last());
    }
}

/// Item `k` is named by an (item, order) pair or by a mark.
pub open spec fn listed_item(latest: Seq<ProgressModel>, item_orders: Seq<(i32, i32)>, k: i32) -> bool {
    (exists|i: int| 0 <= i < item_orders.len() && (#[trigger] item_orders[i]).0 == k) || (exists|j: int|
        0 <= j < latest.len() && (#[trigger] latest[j]).order_item_id == k)
}

/// The items of order `o` that stand at (step, index) `s`: those named
/// by a pair or a mark, whose last (item, order) pair names `o` (order 0
/// for an item without one), and whose last mark is at `s` ((1, 0) for an
/// item without marks).
pub open spec fn items_at(
    latest: Seq<ProgressModel>,
    item_orders: Seq<(i32, i32)>,
    o: i32,
    s: (i32, i32),
) -> Set<i32> {
    Set::new(
        |k: i32|
            listed_item(latest, item_orders, k) && val_or_zero(item_orders, k) == o && position(
                latest,
                k,
            ) == s,
    )
}

/// The count a map gives `s`, 0 where it has none.
pub open spec fn count_at(m: Map<(i32, i32), i32>, s: (i32, i32)) -> int {
    if m.contains_key(s) {
        m[s] as int
    } else {
        0
    }
}

spec fn keyed_at(
    keys: Seq<i32>,
    latest: Seq<ProgressModel>,
    item_orders: Seq<(i32, i32)>,
    o: i32,
    s: (i32, i32),
) -> Set<i32> {
    Set::new(
        |k: i32| keys.contains(k) && val_or_zero(item_orders, k) == o && position(latest, k) == s,
    )
}

proof fn lemma_counts_keyed(
    keys: Seq<i32>,
    latest: Seq<ProgressModel>,
    item_orders: Seq<(i32, i32)>,
    o: i32,
    s: (i32, i32),
)
    requires
        keys.no_duplicates(),
        keys.len() < i32::MAX,
    ensures
        keyed_at(keys, latest, item_orders, o, s).finite(),
        keyed_at(keys, latest, item_orders, o, s).len() <= keys.len(),
        count_at(status_counts(keys, latest, item_orders, o), s) == keyed_at(
            keys,
            latest,
            item_orders,
            o,
            s,
        ).len(),
    decreases keys.len(),
{
    let set = keyed_at(keys, latest, item_orders, o, s);
    if keys.len() == 0 {
        assert(set =~= Set::<i32>::empty());
    } else {
        let d = keys.drop_last();
        let x = keys.last();
        assert(keys =~= d.push(x));
        assert(d.no_duplicates()) by {
            assert forall|a: int, b: int| 0 <= a < d.len() && 0 <= b < d.len() && a != b implies d[a]
                != d[b] by {
                assert(d[a] == keys[a]);
                assert(d[b] == keys[b]);
            }
        }
        assert(!d.contains(x)) by {
            if d.contains(x) {
                let a = choose|a: int| 0 <= a < d.len() && d[a] == x;
                assert(keys[a] == keys[keys.len() - 1]);
            }
        }
        lemma_counts_keyed(d, latest, item_orders, o, s);
        let old_set = keyed_at(d, latest, item_orders, o, s);
        assert forall|k: i32| keys.contains(k) <==> (d.contains(k) || k == x) by {
            if keys.contains(k) {
                let a = choose|a: int| 0 <= a < keys.len() && keys[a] == k;
                if a < d.len() {
                    assert(d[a] == k);
                }
            }
            if d.contains(k) {
                let a = choose|a: int| 0 <= a < d.len() && d[a] == k;
                assert(keys[a] == k);
            }
            if k == x {
                assert(keys[keys.len() - 1] == k);
            }
        }
        let here = val_or_zero(item_orders, x) == o && position(latest, x) == s;
        if here {
            assert(set =~= old_set.insert(x));
            assert(!old_set.contains(x));
        } else {
            assert(set =~= old_set);
        }
    }
}

proof fn lemma_last_val_some_iff(s: Seq<(i32, i32)>, k: i32)
    ensures
        last_val(s, k) is Some <==> exists|i: int| 0 <= i < s.len() && (#[trigger] s[i]).0 == k,
    decreases s.len(),
{
    if s.len() > 0 {
        let d = s.drop_last();
        lemma_last_val_some_iff(d, k);
        if exists|i: int| 0 <= i < d.len() && (#[trigger] d[i]).0 == k {
            let i = choose|i: int| 0 <= i < d.len() && (#[trigger] d[i]).0 == k;
            assert(s[i] == d[i]);
        }
        if exists|i: int| 0 <= i < s.len() && (#[trigger] s[i]).0 == k {
            let i = choose|i: int| 0 <= i < s.len() && (#[trigger] s[i]).0 == k;
            if i < d.len() {
                assert(d[i] == s[i]);
            }
        }
        assert(s[s.len() - 1] == s.last());
    }
}

/// How many items of an order stand at each (step, index) is exactly the
/// number of distinct items of that order standing there: for every order
/// asked about and every (step, index), the count (0 where there is none)
/// is the number of items named by a pair or a mark whose order is that
/// order and whose last mark is there (step 1, index 0 without marks).
pub proof fn lemma_status_counts_items(
    order_ids: Seq<i32>,
    item_orders: Seq<(i32, i32)>,
    latest: Seq<ProgressModel>,
    o: i32,
    s: (i32, i32),
)
    requires
        item_orders.len() > 0,
        order_ids.contains(o),
        latest.len() + item_orders.len() < i32::MAX,
    ensures
        spec_progress_status(order_ids, item_orders, latest).contains_key(o),
        items_at(latest, item_orders, o, s).finite(),
        count_at(spec_progress_status(order_ids, item_orders, latest)[o], s) == items_at(
            latest,
            item_orders,
            o,
            s,
        ).len(),
{
    let a = latest.map_values(|p: ProgressModel| (p.order_item_id, 0i32));
    let pairs = a + item_orders;
    let keys = status_items(latest, item_orders);
    assert(keys == distinct_keys(pairs));
    lemma_distinct_keys_len(pairs);
    assert forall|k: i32| keys.contains(k) <==> listed_item(latest, item_orders, k) by {
        crate::common::assoc::lemma_distinct_keys_contains(pairs, k);
        lemma_last_val_some_iff(pairs, k);
        if exists|i: int| 0 <= i < pairs.len() && (#[trigger] pairs[i]).0 == k {
            let i = choose|i: int| 0 <= i < pairs.len() && (#[trigger] pairs[i]).0 == k;
            if i < a.len() {
                assert(latest[i].order_item_id == k);
            } else {
                assert(item_orders[i - a.len()] == pairs[i]);
            }
        }
        if exists|i: int| 0 <= i < item_orders.len() && (#[trigger] item_orders[i]).0 == k {
            let i = choose|i: int| 0 <= i < item_orders.len() && (#[trigger] item_orders[i]).0 == k;
            assert(pairs[a.len() + i] == item_orders[i]);
        }
        if exists|j: int| 0 <= j < latest.len() && (#[trigger] latest[j]).order_item_id == k {
            let j = choose|j: int| 0 <= j < latest.len() && (#[trigger] latest[j]).order_item_id == k;
            assert(pairs[j] == a[j]);
        }
    }
    crate::common::assoc::lemma_distinct_keys_contains(pairs, 0);
    lemma_counts_keyed(keys, latest, item_orders, o, s);
    assert(keyed_at(keys, latest, item_orders, o, s) =~= items_at(latest, item_orders, o, s));
}

impl ProgressModel {
    /// Where the items of each of `order_ids` stand, from the (item, order)
    /// pairs of their items and the last mark of each item.
    pub fn progress_status(
        order_ids: &Vec<i32>,
        item_orders: &Vec<(i32, i32)>,
        latest: &Vec<ProgressModel>,
    ) -> (r: HashMap<i32, StepIndexCount>)
        requires
            latest@.len() + item_orders@.len() < i32::MAX,
        ensures
            r@.dom() == spec_progress_status(order_ids@, item_orders@, latest@).dom(),
            forall|o: i32| #[trigger]
                r@.contains_key(o) ==> r@[o].wf() && r@[o]@ == spec_progress_status(
                    order_ids@,
                    item_orders@,
                    latest@,
                )[o],
    {
        let mut r: HashMap<i32, StepIndexCount> = HashMap::new();
        if item_orders.len() == 0 {
            assert(r@.dom() =~= spec_progress_status(order_ids@, item_orders@, latest@).dom());
            return r;
        }
        let ghost all = latest@.map_values(|p: ProgressModel| (p.order_item_id, 0i32)) + item_orders@;
        let mut pairs: Vec<(i32, i32)> = Vec::new();
        let mut i: usize = 0;
        while i < latest.len()
            invariant
                i <= latest@.len(),
                pairs@ == latest@.map_values(|p: ProgressModel| (p.order_item_id, 0i32)).take(
                    i as int,
                ),
            decreases latest.len() - i,
        {
            pairs.push((latest[i].order_item_id, 0));
            i = i + 1;
            assert(pairs@ =~= latest@.map_values(|p: ProgressModel| (p.order_item_id, 0i32)).take(
                i as int,
            ));
        }
        let mut j: usize = 0;
        while j < item_orders.len()
            invariant
                j <= item_orders@.len(),
                pairs@ == latest@.map_values(|p: ProgressModel| (p.order_item_id, 0i32))
                    + item_orders@.take(j as int),
            decreases item_orders.len() - j,
        {
            pairs.push(item_orders[j]);
            j = j + 1;
            assert(pairs@ =~= latest@.map_values(|p: ProgressModel| (p.order_item_id, 0i32))
                + item_orders@.take(j as int));
        }
        assert(item_orders@.take(item_orders@.len() as int) =~= item_orders@);
        assert(pairs@ == all);
        let mut keys: Vec<i32> = Vec::new();
        let mut t: usize = 0;
        assert(all.take(0) =~= Seq::<(i32, i32)>::empty());
        while t < pairs.len()
            invariant
                pairs@ == all,
                t <= all.len(),
                keys@ == distinct_keys(all.take(t as int)),
            decreases pairs.len() - t,
        {
            assert(all.take(t + 1).drop_last() =~= all.take(t as int));
            assert(all.take(t + 1).last() == all[t as int]);
            if !contains_i32(&keys, pairs[t].0) {
                keys.push(pairs[t].0);
            }
            t = t + 1;
        }
        assert(all.take(all.len() as int) =~= all);
        proof {
            lemma_distinct_keys_len(all);
        }
        let ghost spec = spec_progress_status(order_ids@, item_orders@, latest@);
        let mut q: usize = 0;
        while q < order_ids.len()
            invariant
                keys@ == status_items(latest@, item_orders@),
                keys@.len() < i32::MAX,
                item_orders@.len() > 0,
                spec == spec_progress_status(order_ids@, item_orders@, latest@),
                q <= order_ids@.len(),
                forall|o: i32| #[trigger] r@.contains_key(o) <==> order_ids@.take(q as int).contains(o),
                forall|o: i32| #[trigger]
                    r@.contains_key(o) ==> r@[o].wf() && r@[o]@ == spec[o],
            decreases order_ids.len() - q,
        {
            let o = order_ids[q];
            let mut counts = StepIndexCount::new();
            let mut u: usize = 0;
            assert(keys@.take(0) =~= Seq::<i32>::empty());
            while u < keys.len()
                invariant
                    keys@.len() < i32::MAX,
                    u <= keys@.len(),
                    counts.wf(),
                    counts@ == status_counts(keys@.take(u as int), latest@, item_orders@, o),
                    forall|s: (i32, i32)| #[trigger] counts@.contains_key(s) ==> counts@[s] <= u,
                decreases keys.len() - u,
            {
                let k = keys[u];
                assert(keys@.take(u + 1).drop_last() =~= keys@.take(u as int));
                assert(keys@.take(u + 1).last() == k);
                if int_id_or_zero(item_orders, k) == o {
                    let si = position_exec(latest, k);
                    let ghost old_m = counts@;
                    counts.add_one(si.0, si.1);
                    assert forall|s: (i32, i32)| #[trigger] counts@.contains_key(s) implies counts@[s]
                        <= u + 1 by {
                        if s != si {
                            assert(old_m.contains_key(s));
                        }
                    }
                }
                u = u + 1;
            }
            assert(keys@.take(keys@.len() as int) =~= keys@);
            assert(order_ids@.take(q + 1) =~= order_ids@.take(q as int).push(o));
            assert(spec.contains_key(o)) by {
                assert(order_ids@[q as int] == o);
            }
            let ghost old_r = r@;
            r.insert(o, counts);
            assert forall|x: i32| #[trigger] r@.contains_key(x) <==> order_ids@.take(q + 1).contains(x) by {
                if order_ids@.take(q + 1).contains(x) && x != o {
                    let w = choose|w: int| 0 <= w < q + 1 && #[trigger] order_ids@.take(q + 1)[w] == x;
                    assert(w < q);
                    assert(order_ids@.take(q as int)[w] == x);
                }
                if old_r.contains_key(x) {
                    assert(order_ids@.take(q as int).contains(x));
                    let w = choose|w: int| 0 <= w < q && #[trigger] order_ids@.take(q as int)[w] == x;
                    assert(order_ids@.take(q + 1)[w] == x);
                }
                if x == o {
                    assert(order_ids@.take(q + 1)[q as int] == x);
                }
            }
            q = q + 1;
        }
        assert(order_ids@.take(order_ids@.len() as int) =~= order_ids@);
        assert(r@.dom() =~= spec.dom());
        r
    }
}

} // verus!
