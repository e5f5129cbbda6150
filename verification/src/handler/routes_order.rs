//! Listing and editing orders, and putting together the goods and items
//! of an order with how far their production has come.
use crate::common::db::{sorter_order_to_db_sorter_order, spec_db_sorter_order};
use crate::common::string::opt_or_empty;
use crate::handler::sql::{
    between, between_i32, contains_text, given, lemma_contains_text_extend, lemma_join_contains_part, is_given, join_seq, join_strings, opt_clause, paging_fits,
    push_between, push_clause, push_opt_clause, spec_offset, size_or_default, offset_and_size,
};
use crate::dto::dto_orders::{ufs_view, OrderDto, OrderWithStepsDto};
use crate::dto::step_count::{entries_map, keys_ascending, StepIndexCount};
use crate::handler::ListParamTrait;
use std::collections::HashMap;
use crate::model::order::strings_view;
use crate::common::datetime::Date;
use crate::error::{ERPError, ERPErrorView};
use crate::model::order::OrderModel;
use crate::text::{int_str, push_i32};
use vstd::prelude::*;

verus! {

broadcast use vstd::std_specs::hash::group_hash_axioms;

/// A listing of orders, narrowed by customer, order number, flags, who
/// built them and date ranges, and sorted by a chosen column.
#[derive(Debug)]
pub struct ListParam {
    pub page: Option<i32>,
    pub page_size: Option<i32>,
    pub customer_no: Option<String>,
    pub order_no: Option<String>,
    pub order_date_start: Option<String>,
    pub order_date_end: Option<String>,
    pub delivery_date_start: Option<String>,
    pub delivery_date_end: Option<String>,
    pub is_return_order: Option<bool>,
    pub is_urgent: Option<bool>,
    pub is_special: Option<bool>,
    pub build_by: Option<i32>,
    pub sorter_field: Option<String>,
    pub sorter_order: Option<String>,
}

pub open spec fn flag_set(v: Option<bool>) -> bool {
    v == Some(true)
}

/// The clause `c` where the flag is set.
pub open spec fn flag_clause(v: Option<bool>, c: Seq<char>) -> Seq<Seq<char>> {
    if flag_set(v) {
        seq![c]
    } else {
        Seq::empty()
    }
}

/// `"{col}>='{start}' and {col}<='{end}'"`-like range, where both ends
/// are given.
pub open spec fn range_clause(
    start: Option<String>,
    end: Option<String>,
    a: Seq<char>,
    b: Seq<char>,
) -> Seq<Seq<char>> {
    if given(start) && given(end) {
        seq![a + start->0@ + b + end->0@ + "'"@]
    } else {
        Seq::empty()
    }
}

/// The conditions of an order listing, in the order they are joined.
pub open spec fn order_clauses(p: &ListParam) -> Seq<Seq<char>> {
    opt_clause(p.customer_no, "customer_no='"@, "'"@) + opt_clause(p.order_no, "order_no='"@, "'"@)
        + flag_clause(p.is_return_order, "is_return_order=true"@) + flag_clause(
        p.is_urgent,
        "is_urgent=true"@,
    ) + flag_clause(p.is_special, "is_special=true"@) + (if p.build_by is Some && p.build_by->0
        != 0 {
        seq!["build_by="@ + int_str(p.build_by->0 as int)]
    } else {
        Seq::<Seq<char>>::empty()
    }) + range_clause(
        p.order_date_start,
        p.order_date_end,
        "order_date>='"@,
        "' and order_date<='"@,
    ) + range_clause(
        p.delivery_date_start,
        p.delivery_date_end,
        "delivery_date >= '"@,
        "' and delivery_date <= '"@,
    )
}

/// `" where " + clauses joined by " and "`, or nothing.
pub open spec fn order_where(p: &ListParam) -> Seq<char> {
    if order_clauses(p).len() == 0 {
        Seq::empty()
    } else {
        " where "@ + join_seq(order_clauses(p), " and "@)
    }
}

/// The column to sort by, `id` when none is named.
pub open spec fn sorter_field_of(p: &ListParam) -> Seq<char> {
    match p.sorter_field {
        Some(f) => f@,
        None => "id"@,
    }
}

/// The direction to sort in; descending when none is named.
pub open spec fn sorter_order_of(p: &ListParam) -> Seq<char> {
    spec_db_sorter_order(
        match p.sorter_order {
            Some(o) => o@,
            None => "descend"@,
        },
    )
}

proof fn lemma_where_has_clause(p: &ListParam, c: Seq<char>)
    requires
        order_clauses(p).contains(c),
    ensures
        contains_text(order_where(p), c),
{
    let k = choose|k: int| 0 <= k < order_clauses(p).len() && order_clauses(p)[k] == c;
    lemma_join_contains_part(order_clauses(p), " and "@, k);
    lemma_contains_text_extend(join_seq(order_clauses(p), " and "@), c, " where "@, Seq::empty());
    assert(" where "@ + join_seq(order_clauses(p), " and "@) + Seq::<char>::empty() =~= order_where(p));
}

/// The order listing and count filter by every condition given: the
/// part after `where` of both queries holds `customer_no='{n}'` and
/// `order_no='{n}'` for a non-empty customer or order number, the flag
/// tests for the flags set, `build_by={b}` for a builder other than 0, and
/// the date ranges whose both ends are given; with no condition given it
/// is empty.
pub proof fn lemma_order_listing_filters(p: &ListParam)
    ensures
        (p.customer_no matches Some(n) && n@.len() > 0) ==> contains_text(
            order_where(p),
            "customer_no='"@ + p.customer_no->0@ + "'"@,
        ),
        (p.order_no matches Some(n) && n@.len() > 0) ==> contains_text(
            order_where(p),
            "order_no='"@ + p.order_no->0@ + "'"@,
        ),
        p.is_return_order == Some(true) ==> contains_text(order_where(p), "is_return_order=true"@),
        p.is_urgent == Some(true) ==> contains_text(order_where(p), "is_urgent=true"@),
        p.is_special == Some(true) ==> contains_text(order_where(p), "is_special=true"@),
        (p.build_by matches Some(b) && b != 0) ==> contains_text(
            order_where(p),
            "build_by="@ + int_str(p.build_by->0 as int),
        ),
        (p.order_date_start is Some && p.order_date_start->0@.len() > 0 && p.order_date_end is Some
            && p.order_date_end->0@.len() > 0) ==> contains_text(
            order_where(p),
            "order_date>='"@ + p.order_date_start->0@ + "' and order_date<='"@
                + p.order_date_end->0@ + "'"@,
        ),
        (p.delivery_date_start is Some && p.delivery_date_start->0@.len() > 0
            && p.delivery_date_end is Some && p.delivery_date_end->0@.len() > 0) ==> contains_text(
            order_where(p),
            "delivery_date >= '"@ + p.delivery_date_start->0@ + "' and delivery_date <= '"@
                + p.delivery_date_end->0@ + "'"@,
        ),
        ((p.customer_no matches Some(n) ==> n@.len() == 0) && (p.order_no matches Some(n)
            ==> n@.len() == 0) && p.is_return_order != Some(true) && p.is_urgent != Some(true)
            && p.is_special != Some(true) && (p.build_by matches Some(b) ==> b == 0)
            && (p.order_date_start matches Some(a) ==> a@.len() == 0) && (
        p.delivery_date_start matches Some(a) ==> a@.len() == 0)) ==> order_where(p).len() == 0,
{
    let a = opt_clause(p.customer_no, "customer_no='"@, "'"@);
    let b = opt_clause(p.order_no, "order_no='"@, "'"@);
    let c = flag_clause(p.is_return_order, "is_return_order=true"@);
    let d = flag_clause(p.is_urgent, "is_urgent=true"@);
    let e = flag_clause(p.is_special, "is_special=true"@);
    let f = if p.build_by is Some && p.build_by->0 != 0 {
        seq!["build_by="@ + int_str(p.build_by->0 as int)]
    } else {
        Seq::<Seq<char>>::empty()
    };
    let g = range_clause(p.order_date_start, p.order_date_end, "order_date>='"@, "' and order_date<='"@);
    let h = range_clause(
        p.delivery_date_start,
        p.delivery_date_end,
        "delivery_date >= '"@,
        "' and delivery_date <= '"@,
    );
    let all = order_clauses(p);
    assert(all == a + b + c + d + e + f + g + h);
    if p.customer_no matches Some(n) && n@.len() > 0 {
        assert(all[0] == a[0]);
        lemma_where_has_clause(p, a[0]);
    }
    if p.order_no matches Some(n) && n@.len() > 0 {
        let o = a.len() as int;
        assert(all[o] == b[0]);
        lemma_where_has_clause(p, b[0]);
    }
    if p.is_return_order == Some(true) {
        let o = (a.len() + b.len()) as int;
        assert(all[o] == c[0]);
        lemma_where_has_clause(p, c[0]);
    }
    if p.is_urgent == Some(true) {
        let o = (a.len() + b.len() + c.len()) as int;
        assert(all[o] == d[0]);
        lemma_where_has_clause(p, d[0]);
    }
    if p.is_special == Some(true) {
        let o = (a.len() + b.len() + c.len() + d.len()) as int;
        assert(all[o] == e[0]);
        lemma_where_has_clause(p, e[0]);
    }
    if p.build_by matches Some(x) && x != 0 {
        let o = (a.len() + b.len() + c.len() + d.len() + e.len()) as int;
        assert(all[o] == f[0]);
        lemma_where_has_clause(p, f[0]);
    }
    if p.order_date_start is Some && p.order_date_start->0@.len() > 0 && p.order_date_end is Some
        && p.order_date_end->0@.len() > 0 {
        let o = (a.len() + b.len() + c.len() + d.len() + e.len() + f.len()) as int;
        assert(all[o] == g[0]);
        lemma_where_has_clause(p, g[0]);
    }
    if p.delivery_date_start is Some && p.delivery_date_start->0@.len() > 0
        && p.delivery_date_end is Some && p.delivery_date_end->0@.len() > 0 {
        let o = (a.len() + b.len() + c.len() + d.len() + e.len() + f.len() + g.len()) as int;
        assert(all[o] == h[0]);
        lemma_where_has_clause(p, h[0]);
    }
}

fn push_flag_clause(clauses: &mut Vec<String>, v: Option<bool>, c: &str)
    ensures
        strings_view(*final(clauses)) == strings_view(*old(clauses)) + flag_clause(v, c@),
{
    let ghost before = strings_view(*clauses);
    if v == Some(true) {
        push_clause(clauses, String::from_str(c));
        assert(strings_view(*clauses) =~= before + flag_clause(v, c@));
    } else {
        assert(strings_view(*clauses) =~= before + flag_clause(v, c@));
    }
}

fn push_range_clause(
    clauses: &mut Vec<String>,
    start: &Option<String>,
    end: &Option<String>,
    a: &str,
    b: &str,
)
    ensures
        strings_view(*final(clauses)) == strings_view(*old(clauses)) + range_clause(
            *start,
            *end,
            a@,
            b@,
        ),
{
    let ghost before = strings_view(*clauses);
    if is_given(start) && is_given(end) {
        match (start, end) {
            (Some(s), Some(e)) => {
                let mut c = between(a, s.as_str(), b);
                push_between(&mut c, "", e.as_str(), "'");
                proof {
                    reveal_strlit("");
                }
                assert(c@ =~= a@ + s@ + b@ + e@ + "'"@);
                push_clause(clauses, c);
                assert(strings_view(*clauses) =~= before + range_clause(*start, *end, a@, b@));
            },
            _ => {},
        }
    } else {
        assert(strings_view(*clauses) =~= before + range_clause(*start, *end, a@, b@));
    }
}

fn order_clauses_exec(p: &ListParam) -> (r: Vec<String>)
    ensures
        strings_view(r) == order_clauses(p),
{
    let mut r: Vec<String> = Vec::new();
    assert(strings_view(r) =~= Seq::<Seq<char>>::empty());
    push_opt_clause(&mut r, &p.customer_no, "customer_no='", "'");
    push_opt_clause(&mut r, &p.order_no, "order_no='", "'");
    push_flag_clause(&mut r, p.is_return_order, "is_return_order=true");
    push_flag_clause(&mut r, p.is_urgent, "is_urgent=true");
    push_flag_clause(&mut r, p.is_special, "is_special=true");
    let ghost mid = strings_view(r);
    match p.build_by {
        Some(b) => {
            if b != 0 {
                push_clause(&mut r, between_i32("build_by=", b, ""));
                proof {
                    reveal_strlit("");
                }
            }
        },
        None => {},
    }
    assert(strings_view(r) =~= mid + (if p.build_by is Some && p.build_by->0 != 0 {
        seq!["build_by="@ + int_str(p.build_by->0 as int)]
    } else {
        Seq::<Seq<char>>::empty()
    }));
    push_range_clause(&mut r, &p.order_date_start, &p.order_date_end, "order_date>='", "' and order_date<='");
    push_range_clause(
        &mut r,
        &p.delivery_date_start,
        &p.delivery_date_end,
        "delivery_date >= '",
        "' and delivery_date <= '",
    );
    assert(strings_view(r) =~= order_clauses(p));
    r
}

fn push_order_where(sql: &mut String, p: &ListParam)
    ensures
        final(sql)@ == old(sql)@ + order_where(p),
{
    let clauses = order_clauses_exec(p);
    if clauses.len() > 0 {
        sql.append(" where ");
        let j = join_strings(&clauses, " and ");
        sql.append(j.as_str());
    }
    assert(final(sql)@ =~= old(sql)@ + order_where(p));
}

impl ListParamTrait for ListParam {
    open spec fn paging_ok(&self) -> bool {
        paging_fits(self.page, self.page_size)
    }

    /// `select * from orders{where} order by {field} {direction} offset {..} limit {..};`
    fn to_pagination_sql(&self) -> (r: String)
        ensures
            r@ == "select * from orders"@ + order_where(self) + " order by "@ + sorter_field_of(self)
                + " "@ + sorter_order_of(self) + " offset "@ + int_str(
                spec_offset(self.page, self.page_size),
            ) + " limit "@ + int_str(size_or_default(self.page_size) as int) + ";"@,
    {
        let (offset, size) = offset_and_size(self.page, self.page_size);
        let mut sql = String::from_str("select * from orders");
        push_order_where(&mut sql, self);
        sql.append(" order by ");
        match &self.sorter_field {
            Some(f) => sql.append(f.as_str()),
            None => sql.append("id"),
        }
        sql.append(" ");
        let direction = match &self.sorter_order {
            Some(o) => sorter_order_to_db_sorter_order(o.as_str()),
            None => sorter_order_to_db_sorter_order("descend"),
        };
        sql.append(direction);
        sql.append(" offset ");
        push_i32(&mut sql, offset);
        sql.append(" limit ");
        push_i32(&mut sql, size);
        sql.append(";");
        sql
    }

    /// `select count(1) from orders{where}`
    fn to_count_sql(&self) -> (r: String)
        ensures
            r@ == "select count(1) from orders"@ + order_where(self),
    {
        let mut sql = String::from_str("select count(1) from orders");
        push_order_where(&mut sql, self);
        sql
    }
}

// ---------------------------------------------------------------------
// Adding and editing order items
// ---------------------------------------------------------------------

/// A new order item (no id) or an edit of one (with its id).
#[derive(Debug)]
pub struct UpdateOrderItemParam {
    pub id: Option<i32>,
    pub order_id: Option<i32>,
    pub goods_id: Option<i32>,
    pub sku_id: Option<i32>,
    pub count: i32,
    pub unit: Option<String>,
    pub unit_price: Option<i32>,
    pub total_price: Option<i32>,
}

pub open spec fn i32_or_zero(v: Option<i32>) -> i32 {
    match v {
        Some(x) => x,
        None => 0,
    }
}

/// The columns an insert sets, with their SQL values.
pub open spec fn insert_pairs(p: &UpdateOrderItemParam) -> Seq<(Seq<char>, Seq<char>)> {
    seq![
        ("order_id"@, int_str(i32_or_zero(p.order_id) as int)),
        ("sku_id"@, int_str(i32_or_zero(p.sku_id) as int)),
        ("goods_id"@, int_str(i32_or_zero(p.goods_id) as int)),
        ("count"@, int_str(p.count as int)),
        ("unit"@, "'"@ + opt_or_empty(p.unit) + "'"@),
    ] + (match p.unit_price {
        Some(x) => seq![("unit_price"@, int_str(x as int))],
        None => Seq::empty(),
    }) + (match p.total_price {
        Some(x) => seq![("total_price"@, int_str(x as int))],
        None => Seq::empty(),
    })
}

/// The sets an edit makes.
pub open spec fn update_sets(p: &UpdateOrderItemParam) -> Seq<Seq<char>> {
    seq!["count="@ + int_str(p.count as int)] + (match p.unit {
        Some(u) => seq!["unit='"@ + u@ + "'"@],
        None => Seq::empty(),
    }) + (match p.unit_price {
        Some(x) => seq!["unit_price="@ + int_str(x as int)],
        None => Seq::empty(),
    }) + (match p.total_price {
        Some(x) => seq!["total_price="@ + int_str(x as int)],
        None => Seq::empty(),
    })
}

impl UpdateOrderItemParam {
    /// `insert into order_items ({columns}) values ({values})`, both
    /// joined by `,`.
    pub fn to_insert_sql(&self) -> (r: String)
        ensures
            r@ == "insert into order_items ("@ + join_seq(
                insert_pairs(self).map_values(|kv: (Seq<char>, Seq<char>)| kv.0),
                ","@,
            ) + ") values ("@ + join_seq(
                insert_pairs(self).map_values(|kv: (Seq<char>, Seq<char>)| kv.1),
                ","@,
            ) + ")"@,
    {
        let mut keys: Vec<String> = Vec::new();
        let mut values: Vec<String> = Vec::new();
        let oid = match self.order_id {
            Some(x) => x,
            None => 0,
        };
        let sid = match self.sku_id {
            Some(x) => x,
            None => 0,
        };
        let gid = match self.goods_id {
            Some(x) => x,
            None => 0,
        };
        proof {
            reveal_strlit("");
        }
        keys.push(String::from_str("order_id"));
        values.push(between_i32("", oid, ""));
        keys.push(String::from_str("sku_id"));
        values.push(between_i32("", sid, ""));
        keys.push(String::from_str("goods_id"));
        values.push(between_i32("", gid, ""));
        keys.push(String::from_str("count"));
        values.push(between_i32("", self.count, ""));
        keys.push(String::from_str("unit"));
        let unit = crate::common::string::opt_string_or_empty(&self.unit);
        values.push(between("'", unit.as_str(), "'"));
        match self.unit_price {
            Some(x) => {
                keys.push(String::from_str("unit_price"));
                values.push(between_i32("", x, ""));
            },
            None => {},
        }
        match self.total_price {
            Some(x) => {
                keys.push(String::from_str("total_price"));
                values.push(between_i32("", x, ""));
            },
            None => {},
        }
        let ghost pairs = insert_pairs(self);
        assert(strings_view(keys) =~= pairs.map_values(|kv: (Seq<char>, Seq<char>)| kv.0));
        assert(strings_view(values) =~= pairs.map_values(|kv: (Seq<char>, Seq<char>)| kv.1));
        let mut sql = String::from_str("insert into order_items (");
        let k = join_strings(&keys, ",");
        sql.append(k.as_str());
        sql.append(") values (");
        let v = join_strings(&values, ",");
        sql.append(v.as_str());
        sql.append(")");
        sql
    }

    /// `update order_items set {sets joined by ","} where id={id}`; the
    /// edit names its item.
    pub fn to_update_sql(&self) -> (r: String)
        requires
            self.id is Some,
        ensures
            r@ == "update order_items set "@ + join_seq(update_sets(self), ","@) + " where id="@
                + int_str(self.id->0 as int),
    {
        let mut sets: Vec<String> = Vec::new();
        assert(strings_view(sets) =~= Seq::<Seq<char>>::empty());
        proof {
            reveal_strlit("");
        }
        push_clause(&mut sets, between_i32("count=", self.count, ""));
        let ghost s1 = strings_view(sets);
        match &self.unit {
            Some(u) => push_clause(&mut sets, between("unit='", u.as_str(), "'")),
            None => {},
        }
        let ghost s2 = strings_view(sets);
        match self.unit_price {
            Some(x) => push_clause(&mut sets, between_i32("unit_price=", x, "")),
            None => {},
        }
        let ghost s3 = strings_view(sets);
        match self.total_price {
            Some(x) => push_clause(&mut sets, between_i32("total_price=", x, "")),
            None => {},
        }
        assert(strings_view(sets) =~= update_sets(self));
        let mut sql = String::from_str("update order_items set ");
        let j = join_strings(&sets, ",");
        sql.append(j.as_str());
        sql.append(" where id=");
        let id = match self.id {
            Some(x) => x,
            None => 0,
        };
        push_i32(&mut sql, id);
        sql
    }
}

// ---------------------------------------------------------------------
// Orders with how far they have come
// ---------------------------------------------------------------------

/// The count of order `id`, or 0.
pub open spec fn count_of(m: Map<i32, i32>, id: i32) -> i32 {
    if m.contains_key(id) {
        m[id]
    } else {
        0
    }
}

/// `r` is order `o` with the counts of its items at each (step, index)
/// (none where `steps` has nothing for it) and its done, exceptional and
/// total item counts (0 where a count is missing).
pub open spec fn order_with_steps_matches(
    r: OrderWithStepsDto,
    o: OrderDto,
    steps: Map<i32, StepIndexCount>,
    done: Map<i32, i32>,
    exception: Map<i32, i32>,
    total: Map<i32, i32>,
) -> bool {
    &&& r.id == o.id
    &&& r.customer_no == o.customer_no
    &&& r.order_no == o.order_no
    &&& r.order_date == o.order_date
    &&& r.delivery_date == o.delivery_date
    &&& r.is_return_order == o.is_return_order
    &&& r.is_urgent == o.is_urgent
    &&& r.is_special == o.is_special
    &&& r.build_by == o.build_by
    &&& r.special_customer == o.special_customer
    &&& r.done_count == count_of(done, o.id)
    &&& r.exception_count == count_of(exception, o.id)
    &&& r.total_count == count_of(total, o.id)
    &&& keys_ascending(ufs_view(r.steps@))
    &&& entries_map(ufs_view(r.steps@)) == if steps.contains_key(o.id) {
        steps[o.id]@
    } else {
        Map::<(i32, i32), i32>::empty()
    }
}

fn count_for(m: &HashMap<i32, i32>, id: i32) -> (r: i32)
    ensures
        r == count_of(m@, id),
{
    match m.get(&id) {
        Some(c) => *c,
        None => 0,
    }
}

/// Every order listed, with where its items stand and its counts.
pub fn orders_with_steps(
    order_dtos: Vec<OrderDto>,
    steps: &HashMap<i32, StepIndexCount>,
    done: &HashMap<i32, i32>,
    exception: &HashMap<i32, i32>,
    total: &HashMap<i32, i32>,
) -> (r: Vec<OrderWithStepsDto>)
    requires
        forall|o: i32| #[trigger] steps@.contains_key(o) ==> steps@[o].wf(),
    ensures
        r@.len() == order_dtos@.len(),
        forall|i: int|
            0 <= i < r@.len() ==> order_with_steps_matches(
                #[trigger] r@[i],
                order_dtos@[i],
                steps@,
                done@,
                exception@,
                total@,
            ),
{
    let ghost orig = order_dtos@;
    let total_len = order_dtos.len();
    let mut rest = order_dtos;
    let mut r: Vec<OrderWithStepsDto> = Vec::new();
    let mut k: usize = 0;
    while rest.len() > 0
        invariant
            total_len == orig.len(),
            k + rest@.len() == orig.len(),
            rest@ == orig.skip(k as int),
            r@.len() == k,
            forall|o: i32| #[trigger] steps@.contains_key(o) ==> steps@[o].wf(),
            forall|i: int|
                0 <= i < k ==> order_with_steps_matches(
                    #[trigger] r@[i],
                    orig[i],
                    steps@,
                    done@,
                    exception@,
                    total@,
                ),
        decreases rest@.len(),
    {
        let o = rest.remove(0);
        assert(o == orig[k as int]);
        assert(rest@ =~= orig.skip(k + 1));
        let id = o.id;
        let counts = match steps.get(&id) {
            Some(c) => c.copy(),
            None => StepIndexCount::new(),
        };
        let d = count_for(done, id);
        let e = count_for(exception, id);
        let t = count_for(total, id);
        let w = OrderWithStepsDto::from_order_dto_and_steps(o, counts, d, e, t);
        r.push(w);
        k = k + 1;
    }
    r
}

// ---------------------------------------------------------------------
// Refusals
// ---------------------------------------------------------------------

/// An order can be deleted only before any progress is marked on it.
pub fn check_order_deletable(progress_count: i32) -> (r: Result<(), ERPError>)
    ensures
        progress_count > 0 <==> r is Err,
        r is Err ==> r->Err_0@ == ERPErrorView::Failed("该订单已经有流程数据，删除不合法"@),
{
    if progress_count > 0 {
        Err(ERPError::Failed(String::from_str("该订单已经有流程数据，删除不合法")))
    } else {
        Ok(())
    }
}

/// "删除数据失败"
pub fn delete_failed_err() -> (r: ERPError)
    ensures
        r@ == ERPErrorView::Failed("删除数据失败"@),
{
    ERPError::Failed(String::from_str("删除数据失败"))
}

/// "订单编号{order_no} 已存在"
pub fn order_exists_err(order_no: &str) -> (r: ERPError)
    ensures
        r@ == ERPErrorView::AlreadyExists("订单编号"@ + order_no@ + " 已存在"@),
{
    ERPError::AlreadyExists(between("订单编号", order_no, " 已存在"))
}

/// How an order is named in a request: by its id when one other than 0
/// is given, by its order number otherwise.
#[derive(Debug)]
pub enum OrderRef {
    Id(i32),
    OrderNo(String),
}

/// Whether the request names an order at all: by an id other than 0, or
/// by a non-empty order number.
pub open spec fn names_order(order_id: Option<i32>, order_no: Option<String>) -> bool {
    i32_or_zero(order_id) != 0 || opt_or_empty(order_no).len() > 0
}

/// The order that a request names: by its id when it is not 0, by its
/// order number (empty when missing) otherwise.
pub fn order_ref(order_id: Option<i32>, order_no: &Option<String>) -> (r: OrderRef)
    ensures
        i32_or_zero(order_id) != 0 ==> r == OrderRef::Id(i32_or_zero(order_id)),
        i32_or_zero(order_id) == 0 ==> (r matches OrderRef::OrderNo(n) && n@ == opt_or_empty(*order_no)),
{
    let id = match order_id {
        Some(x) => x,
        None => 0,
    };
    if id != 0 {
        OrderRef::Id(id)
    } else {
        OrderRef::OrderNo(crate::common::string::opt_string_or_empty(order_no))
    }
}

/// "order_id和order_no至少传一个": the items of an order need the order.
pub fn check_names_order(order_id: Option<i32>, order_no: &Option<String>) -> (r: Result<(), ERPError>)
    ensures
        names_order(order_id, *order_no) <==> r is Ok,
        r is Err ==> r->Err_0@ == ERPErrorView::ParamNeeded("order_id和order_no至少传一个"@),
{
    let id = match order_id {
        Some(x) => x,
        None => 0,
    };
    let no_given = match order_no {
        Some(n) => n.unicode_len() > 0,
        None => false,
    };
    if id == 0 && !no_given {
        Err(ERPError::ParamNeeded(String::from_str("order_id和order_no至少传一个")))
    } else {
        Ok(())
    }
}

/// An order can be edited when it exists and no other order has the
/// order number it is given.
pub fn check_order_update(order_found: bool, order_no_taken: bool, order_no: &str) -> (r: Result<
    (),
    ERPError,
>)
    ensures
        !order_found ==> r is Err && r->Err_0@ == ERPErrorView::NotFound("该订单不存在"@),
        order_found && order_no_taken ==> r is Err && r->Err_0@ == ERPErrorView::ParamError(
            "订单号#"@ + order_no@ + "已存在"@,
        ),
        order_found && !order_no_taken ==> r is Ok,
{
    if !order_found {
        return Err(ERPError::NotFound(String::from_str("该订单不存在")));
    }
    if order_no_taken {
        return Err(ERPError::ParamError(between("订单号#", order_no, "已存在")));
    }
    Ok(())
}

/// "数据库错误，获取订单日期数量失败": the days of a customer's orders
/// could not be counted.
pub fn date_count_failed_err() -> (r: ERPError)
    ensures
        r@ == ERPErrorView::Failed("数据库错误，获取订单日期数量失败"@),
{
    ERPError::Failed(String::from_str("数据库错误，获取订单日期数量失败"))
}

/// "该商品已添加": an order holds each SKU once.
pub fn item_exists_err() -> (r: ERPError)
    ensures
        r@ == ERPErrorView::AlreadyExists("该商品已添加"@),
{
    ERPError::AlreadyExists(String::from_str("该商品已添加"))
}

/// "订单号未找到" and "商品编号未找到": the order or the goods that a
/// progress lookup names is unknown.
pub fn order_not_found_err() -> (r: ERPError)
    ensures
        r@ == ERPErrorView::ParamError("订单号未找到"@),
{
    ERPError::ParamError(String::from_str("订单号未找到"))
}

pub fn goods_not_found_err() -> (r: ERPError)
    ensures
        r@ == ERPErrorView::ParamError("商品编号未找到"@),
{
    ERPError::ParamError(String::from_str("商品编号未找到"))
}

// ---------------------------------------------------------------------
// Orders by date
// ---------------------------------------------------------------------

/// The orders of one day.
#[derive(Debug)]
pub struct OrdersWithDate {
    pub date: Date,
    pub orders: Vec<OrderModel>,
}

/// `a` is an earlier day than `b`.
pub open spec fn date_lt(a: Date, b: Date) -> bool {
    a.year < b.year || (a.year == b.year && (a.month < b.month || (a.month == b.month && a.day
        < b.day)))
}

/// The orders of day `d`, in order.
pub open spec fn orders_on(orders: Seq<OrderModel>, d: Date) -> Seq<OrderModel>
    decreases orders.len(),
{
    if orders.len() == 0 {
        Seq::empty()
    } else {
        let r = orders_on(orders.drop_last(), d);
        if orders.last().order_date == d {
            r.push(orders.last())
        } else {
            r
        }
    }
}

/// The days come latest first, each once.
pub open spec fn dates_descending(ds: Seq<Date>) -> bool {
    forall|i: int, j: int| 0 <= i < j < ds.len() ==> date_lt(ds[j], ds[i])
}

/// Some order is of day `d`.
pub open spec fn has_date(orders: Seq<OrderModel>, d: Date) -> bool {
    exists|i: int| 0 <= i < orders.len() && (#[trigger] orders[i]).order_date == d
}

fn date_lt_exec(a: Date, b: Date) -> (r: bool)
    ensures
        r == date_lt(a, b),
{
    a.year < b.year || (a.year == b.year && (a.month < b.month || (a.month == b.month && a.day
        < b.day)))
}

fn orders_of_date(orders: &Vec<OrderModel>, d: Date) -> (r: Vec<OrderModel>)
    ensures
        r@ == orders_on(orders@, d),
{
    let mut r: Vec<OrderModel> = Vec::new();
    let mut i: usize = 0;
    assert(orders@.take(0) =~= Seq::<OrderModel>::empty());
    while i < orders.len()
        invariant
            i <= orders@.len(),
            r@ == orders_on(orders@.take(i as int), d),
        decreases orders.len() - i,
    {
        assert(orders@.take(i + 1).drop_last() =~= orders@.take(i as int));
        assert(orders@.take(i + 1).last() == orders@[i as int]);
        if orders[i].order_date == d {
            r.push(orders[i].clone());
        }
        i = i + 1;
    }
    assert(orders@.take(orders@.len() as int) =~= orders@);
    r
}

/// The days of the orders, latest first, each once.
fn days_descending(orders: &Vec<OrderModel>) -> (r: Vec<Date>)
    ensures
        dates_descending(r@),
        forall|d: Date| r@.contains(d) <==> has_date(orders@, d),
{
    let mut ds: Vec<Date> = Vec::new();
    let mut i: usize = 0;
    while i < orders.len()
        invariant
            i <= orders@.len(),
            dates_descending(ds@),
            forall|d: Date| ds@.contains(d) <==> has_date(orders@.take(i as int), d),
        decreases orders.len() - i,
    {
        let d = orders[i].order_date;
        let ghost old_ds = ds@;
        let mut p: usize = 0;
        while p < ds.len()
            invariant_except_break
                ds@ == old_ds,
                p <= old_ds.len(),
                forall|t: int| 0 <= t < p ==> date_lt(d, #[trigger] old_ds[t]),
            ensures
                ds@ == old_ds,
                p <= old_ds.len(),
                forall|t: int| 0 <= t < p ==> date_lt(d, #[trigger] old_ds[t]),
                p < old_ds.len() ==> !date_lt(d, old_ds[p as int]),
            decreases ds.len() - p,
        {
            if !date_lt_exec(d, ds[p]) {
                break;
            }
            p = p + 1;
        }
        assert(orders@.take(i + 1) =~= orders@.take(i as int).push(orders@[i as int]));
        if p < ds.len() && ds[p] == d {
            assert forall|x: Date| ds@.contains(x) <==> has_date(orders@.take(i + 1), x) by {
                if has_date(orders@.take(i + 1), x) {
                    let t = choose|t: int| 0 <= t < i + 1 && (#[trigger] orders@.take(i + 1)[t]).order_date == x;
                    if t < i {
                        assert(orders@.take(i as int)[t] == orders@.take(i + 1)[t]);
                        assert(has_date(orders@.take(i as int), x));
                    } else {
                        assert(ds@[p as int] == x);
                    }
                }
                if ds@.contains(x) {
                    assert(has_date(orders@.take(i as int), x));
                    let t = choose|t: int| 0 <= t < i && (#[trigger] orders@.take(i as int)[t]).order_date == x;
                    assert(orders@.take(i + 1)[t] == orders@.take(i as int)[t]);
                }
            }
        } else {
            ds.insert(p, d);
            assert(ds@ == old_ds.insert(p as int, d));
            assert(dates_descending(ds@)) by {
                assert forall|a: int, b: int| 0 <= a < b < ds@.len() implies date_lt(ds@[b], ds@[a]) by {
                    if b < p {
                    } else if b == p {
                        assert(date_lt(d, old_ds[a]));
                    } else if a == p {
                        assert(ds@[b] == old_ds[b - 1]);
                        assert(!date_lt(d, old_ds[p as int]));
                        assert(old_ds[p as int] != d);
                        if b - 1 > p {
                            assert(date_lt(old_ds[b - 1], old_ds[p as int]));
                        }
                    } else if a < p {
                        assert(ds@[b] == old_ds[b - 1]);
                        assert(date_lt(old_ds[b - 1], old_ds[a]));
                    } else {
                        assert(ds@[a] == old_ds[a - 1]);
                        assert(ds@[b] == old_ds[b - 1]);
                        assert(date_lt(old_ds[b - 1], old_ds[a - 1]));
                    }
                }
            }
            assert forall|x: Date| ds@.contains(x) <==> has_date(orders@.take(i + 1), x) by {
                if has_date(orders@.take(i + 1), x) {
                    let t = choose|t: int| 0 <= t < i + 1 && (#[trigger] orders@.take(i + 1)[t]).order_date == x;
                    if t < i {
                        assert(orders@.take(i as int)[t] == orders@.take(i + 1)[t]);
                        assert(has_date(orders@.take(i as int), x));
                        assert(old_ds.contains(x));
                        let u = choose|u: int| 0 <= u < old_ds.len() && old_ds[u] == x;
                        if u < p {
                            assert(ds@[u] == x);
                        } else {
                            assert(ds@[u + 1] == x);
                        }
                    } else {
                        assert(ds@[p as int] == x);
                    }
                }
                if ds@.contains(x) {
                    let u = choose|u: int| 0 <= u < ds@.len() && ds@[u] == x;
                    if u == p {
                        assert(orders@.take(i + 1)[i as int].order_date == x);
                    } else {
                        let w = if u < p { u } else { u - 1 };
                        assert(old_ds[w] == x);
                        assert(old_ds.contains(x));
                        assert(has_date(orders@.take(i as int), x));
                        let t = choose|t: int| 0 <= t < i && (#[trigger] orders@.take(i as int)[t]).order_date == x;
                        assert(orders@.take(i + 1)[t] == orders@.take(i as int)[t]);
                    }
                }
            }
        }
        i = i + 1;
    }
    assert(orders@.take(orders@.len() as int) =~= orders@);
    ds
}

/// The orders grouped by day, latest day first, each day with its
/// orders in the order given.
pub fn orders_by_date(orders: &Vec<OrderModel>) -> (r: Vec<OrdersWithDate>)
    ensures
        dates_descending(r@.map_values(|g: OrdersWithDate| g.date)),
        forall|d: Date|
            has_date(orders@, d) <==> exists|i: int| 0 <= i < r@.len() && (#[trigger] r@[i]).date == d,
        forall|i: int| 0 <= i < r@.len() ==> (#[trigger] r@[i]).orders@ == orders_on(orders@, r@[i].date),
{
    let ds = days_descending(orders);
    let mut r: Vec<OrdersWithDate> = Vec::new();
    let mut i: usize = 0;
    while i < ds.len()
        invariant
            dates_descending(ds@),
            forall|d: Date| ds@.contains(d) <==> has_date(orders@, d),
            i <= ds@.len(),
            r@.map_values(|g: OrdersWithDate| g.date) == ds@.take(i as int),
            forall|t: int| 0 <= t < r@.len() ==> (#[trigger] r@[t]).orders@ == orders_on(orders@, r@[t].date),
        decreases ds.len() - i,
    {
        let d = ds[i];
        let os = orders_of_date(orders, d);
        let ghost old_r = r@;
        r.push(OrdersWithDate { date: d, orders: os });
        assert(r@.map_values(|g: OrdersWithDate| g.date) =~= old_r.map_values(
            |g: OrdersWithDate| g.date,
        ).push(d));
        assert(ds@.take(i + 1) =~= ds@.take(i as int).push(ds@[i as int]));
        i = i + 1;
    }
    assert(ds@.take(ds@.len() as int) =~= ds@);
    assert forall|d: Date| has_date(orders@, d) <==> exists|i: int| 0 <= i < r@.len() && (#[trigger] r@[i]).date == d by {
        if has_date(orders@, d) {
            assert(ds@.contains(d));
            let u = choose|u: int| 0 <= u < ds@.len() && ds@[u] == d;
            assert(r@.map_values(|g: OrdersWithDate| g.date)[u] == d);
            assert(r@[u].date == d);
        }
        if exists|i: int| 0 <= i < r@.len() && (#[trigger] r@[i]).date == d {
            let i = choose|i: int| 0 <= i < r@.len() && (#[trigger] r@[i]).date == d;
            assert(r@.map_values(|g: OrdersWithDate| g.date)[i] == d);
            assert(ds@[i] == d);
            assert(ds@.contains(d));
        }
    }
    r
}

} // verus!
