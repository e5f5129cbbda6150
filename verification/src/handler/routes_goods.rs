//! Listing, creating and editing goods and SKUs.
use crate::handler::sql::{
    between, between_i32, given, ints_text, is_given, join_i32s, join_seq, join_strings,
    offset_limit, opt_clause,
    opt_text, paging_fits, push_between, push_offset_limit, push_opt_clause, push_opt_text,
    push_where, where_part,
};
use crate::dto::dto_goods::GoodsDto;
use crate::handler::ListParamTrait;
use crate::model::goods::{GoodsModel, SKUModel};
use crate::model::order::strings_view;
use crate::common::string::opt_or_empty;
use crate::text::{int_str, push_i32};
use vstd::prelude::*;

verus! {

// ---------------------------------------------------------------------
// Searching SKUs
// ---------------------------------------------------------------------

/// A search for SKUs whose goods number or SKU number contains `key`.
#[derive(Debug)]
pub struct SearchSkusParam {
    pub key: String,
    pub page: Option<i32>,
    pub page_size: Option<i32>,
}

pub const SEARCH_SKUS_SELECT: &'static str = "\n            select\n                s.id, s.sku_no, s.goods_id, s.color,\n                g.name, g.image, g.goods_no, g.plating, s.notes\n            from skus s, goods g\n            where s.goods_id = g.id\n                and g.goods_no like '%";

pub const SEARCH_SKUS_COUNT: &'static str = "\n            select count(1)\n            from skus s, goods g\n            where s.goods_id = g.id\n                and g.goods_no like '%";

pub const SEARCH_SKUS_OR: &'static str = "%' or s.sku_no like '%";

pub const SEARCH_SKUS_END: &'static str = "%'\n            ";

/// The text both queries of a search share after their head.
pub open spec fn search_condition(head: Seq<char>, key: Seq<char>) -> Seq<char> {
    head + key + SEARCH_SKUS_OR@ + key + SEARCH_SKUS_END@
}

impl ListParamTrait for SearchSkusParam {
    open spec fn paging_ok(&self) -> bool {
        paging_fits(self.page, self.page_size)
    }

    fn to_pagination_sql(&self) -> (r: String)
        ensures
            r@ == search_condition(SEARCH_SKUS_SELECT@, self.key@) + " order by id desc"@
                + offset_limit(self.page, self.page_size),
    {
        let mut sql = String::from_str(SEARCH_SKUS_SELECT);
        push_between(&mut sql, "", self.key.as_str(), SEARCH_SKUS_OR);
        push_between(&mut sql, "", self.key.as_str(), SEARCH_SKUS_END);
        sql.append(" order by id desc");
        push_offset_limit(&mut sql, self.page, self.page_size);
        proof {
            reveal_strlit("");
        }
        assert(sql@ =~= search_condition(SEARCH_SKUS_SELECT@, self.key@) + " order by id desc"@
            + offset_limit(self.page, self.page_size));
        sql
    }

    fn to_count_sql(&self) -> (r: String)
        ensures
            r@ == search_condition(SEARCH_SKUS_COUNT@, self.key@),
    {
        let mut sql = String::from_str(SEARCH_SKUS_COUNT);
        push_between(&mut sql, "", self.key.as_str(), SEARCH_SKUS_OR);
        push_between(&mut sql, "", self.key.as_str(), SEARCH_SKUS_END);
        proof {
            reveal_strlit("");
        }
        assert(sql@ =~= search_condition(SEARCH_SKUS_COUNT@, self.key@));
        sql
    }
}

// ---------------------------------------------------------------------
// Listing goods
// ---------------------------------------------------------------------

/// A listing of goods, all of them or those of one goods number.
#[derive(Debug)]
pub struct ListGoodsParam {
    pub goods_no: Option<String>,
    pub page: Option<i32>,
    pub page_size: Option<i32>,
}

/// The conditions of a goods listing.
pub open spec fn goods_clauses(p: &ListGoodsParam) -> Seq<Seq<char>> {
    if given(p.goods_no) {
        seq!["goods_no='"@ + p.goods_no->0@ + "'"@]
    } else {
        Seq::empty()
    }
}

fn goods_clauses_exec(p: &ListGoodsParam) -> (r: Vec<String>)
    ensures
        strings_view(r) == goods_clauses(p),
{
    let mut r: Vec<String> = Vec::new();
    if is_given(&p.goods_no) {
        match &p.goods_no {
            Some(g) => {
                r.push(between("goods_no='", g.as_str(), "'"));
            },
            None => {},
        }
    }
    assert(strings_view(r) =~= goods_clauses(p));
    r
}

impl ListParamTrait for ListGoodsParam {
    open spec fn paging_ok(&self) -> bool {
        paging_fits(self.page, self.page_size)
    }

    fn to_pagination_sql(&self) -> (r: String)
        ensures
            r@ == "select * from goods"@ + where_part(goods_clauses(self)) + offset_limit(
                self.page,
                self.page_size,
            ),
    {
        let mut sql = String::from_str("select * from goods");
        let clauses = goods_clauses_exec(self);
        push_where(&mut sql, &clauses);
        push_offset_limit(&mut sql, self.page, self.page_size);
        sql
    }

    fn to_count_sql(&self) -> (r: String)
        ensures
            r@ == "select count(1) from goods"@ + if goods_clauses(self).len() == 0 {
                Seq::<char>::empty()
            } else {
                where_part(goods_clauses(self)) + ";"@
            },
    {
        let mut sql = String::from_str("select count(1) from goods");
        let clauses = goods_clauses_exec(self);
        if clauses.len() > 0 {
            push_where(&mut sql, &clauses);
            sql.append(";");
        }
        proof {
            if goods_clauses(self).len() == 0 {
                assert(sql@ =~= "select count(1) from goods"@ + Seq::<char>::empty());
            }
        }
        sql
    }
}

// ---------------------------------------------------------------------
// Listing SKUs
// ---------------------------------------------------------------------

/// A listing of SKUs, narrowed by any of goods number, SKU number and
/// colour (all matched as parts) and customer number.
#[derive(Debug)]
pub struct ListSKUsParam {
    pub goods_no: Option<String>,
    pub sku_no: Option<String>,
    pub color: Option<String>,
    pub customer_no: Option<String>,
    pub page: Option<i32>,
    pub page_size: Option<i32>,
}

pub const LIST_SKUS_SELECT: &'static str = "\n            select\n                s.id, s.sku_no, s.goods_id, s.color, s.color2, s.notes,\n                g.name, g.goods_no, g.image, g.plating, g.customer_no\n            from skus s, goods g\n            where s.goods_id = g.id\n            ";

pub const LIST_SKUS_COUNT: &'static str = "\n            select count(1)\n            from skus s, goods g\n            where s.goods_id = g.id\n            ";

/// The conditions of a SKU listing, each starting with `" and "`.
pub open spec fn sku_conditions(p: &ListSKUsParam) -> Seq<char> {
    opt_text(p.goods_no, " and g.goods_no like '%"@, "%'"@) + opt_text(
        p.sku_no,
        " and s.sku_no like '%"@,
        "%'"@,
    ) + opt_text(p.color, " and s.color like '%"@, "%'"@) + opt_text(
        p.customer_no,
        " and g.customer_no = '"@,
        "'"@,
    )
}

fn push_sku_conditions(sql: &mut String, p: &ListSKUsParam)
    ensures
        final(sql)@ == old(sql)@ + sku_conditions(p),
{
    push_opt_text(sql, &p.goods_no, " and g.goods_no like '%", "%'");
    push_opt_text(sql, &p.sku_no, " and s.sku_no like '%", "%'");
    push_opt_text(sql, &p.color, " and s.color like '%", "%'");
    push_opt_text(sql, &p.customer_no, " and g.customer_no = '", "'");
    assert(final(sql)@ =~= old(sql)@ + sku_conditions(p));
}

impl ListParamTrait for ListSKUsParam {
    open spec fn paging_ok(&self) -> bool {
        paging_fits(self.page, self.page_size)
    }

    fn to_pagination_sql(&self) -> (r: String)
        ensures
            r@ == LIST_SKUS_SELECT@ + sku_conditions(self) + " order by s.id desc"@ + offset_limit(
                self.page,
                self.page_size,
            ),
    {
        let mut sql = String::from_str(LIST_SKUS_SELECT);
        push_sku_conditions(&mut sql, self);
        sql.append(" order by s.id desc");
        push_offset_limit(&mut sql, self.page, self.page_size);
        sql
    }

    fn to_count_sql(&self) -> (r: String)
        ensures
            r@ == LIST_SKUS_COUNT@ + sku_conditions(self),
    {
        let mut sql = String::from_str(LIST_SKUS_COUNT);
        push_sku_conditions(&mut sql, self);
        sql
    }
}

// ---------------------------------------------------------------------
// Creating and editing SKUs
// ---------------------------------------------------------------------

/// A new SKU: a colour of the goods with id `goods_id`.
#[derive(Debug)]
pub struct CreateSKUParam {
    pub goods_id: i32,
    pub plating: Option<String>,
    pub color: String,
    pub notes: Option<String>,
}

impl CreateSKUParam {
    /// `insert into skus (goods_id, color, notes) values ({goods_id}, '{color}', '{notes}')`
    pub fn to_sql(&self) -> (r: String)
        ensures
            r@ == "insert into skus (goods_id, color, notes) values ("@ + int_str(
                self.goods_id as int,
            ) + ", '"@ + self.color@ + "', '"@ + opt_or_empty(self.notes) + "')"@,
    {
        let mut sql = String::from_str("insert into skus (goods_id, color, notes) values (");
        push_i32(&mut sql, self.goods_id);
        push_between(&mut sql, ", '", self.color.as_str(), "', '");
        let notes = crate::common::string::opt_string_or_empty(&self.notes);
        push_between(&mut sql, "", notes.as_str(), "')");
        proof {
            reveal_strlit("");
        }
        assert(sql@ =~= "insert into skus (goods_id, color, notes) values ("@ + int_str(
            self.goods_id as int,
        ) + ", '"@ + self.color@ + "', '"@ + opt_or_empty(self.notes) + "')"@);
        sql
    }
}

/// "已经有了ID为{goods_id},颜色为:'{color}'的产品了"
pub open spec fn sku_collision_msg(goods_id: i32, color: Seq<char>) -> Seq<char> {
    "已经有了ID为"@ + int_str(goods_id as int) + ",颜色为:'"@ + color + "'的产品了"@
}

/// The refusal of a SKU whose goods already have that colour.
pub fn sku_collision_err(goods_id: i32, color: &str) -> (r: crate::error::ERPError)
    ensures
        r@ == crate::error::ERPErrorView::Collision(sku_collision_msg(goods_id, color@)),
{
    let mut s = between_i32("已经有了ID为", goods_id, ",颜色为:'");
    push_between(&mut s, "", color, "'的产品了");
    proof {
        reveal_strlit("");
    }
    assert(s@ =~= sku_collision_msg(goods_id, color@));
    crate::error::ERPError::Collision(s)
}

/// An edit of a SKU and of its goods; empty texts leave a field as it is.
#[derive(Debug)]
pub struct UpdateSKUParam {
    pub id: i32,
    pub name: Option<String>,
    pub image: Option<String>,
    pub goods_id: i32,
    pub goods_no: Option<String>,
    pub sku_no: Option<String>,
    pub color: Option<String>,
    pub plating: Option<String>,
    pub notes: Option<String>,
}

/// The fields of the goods that the edit sets.
pub open spec fn goods_sets(p: &UpdateSKUParam) -> Seq<Seq<char>> {
    opt_clause(p.name, " name='"@, "' "@) + opt_clause(p.image, " image='"@, "' "@) + opt_clause(
        p.goods_no,
        " goods_no='"@,
        "' "@,
    ) + opt_clause(p.plating, " plating='"@, "' "@)
}

/// The fields of the SKU that the edit sets.
pub open spec fn sku_sets(p: &UpdateSKUParam) -> Seq<Seq<char>> {
    opt_clause(p.sku_no, " sku_no = '"@, "' "@) + opt_clause(p.color, " color = '"@, "' "@)
        + opt_clause(p.notes, " notes = '"@, "' "@)
}

/// `update {table} set {sets joined by ","} where id = {id}`, or the empty
/// text when nothing is set.
pub open spec fn update_sql(table: Seq<char>, sets: Seq<Seq<char>>, id: i32) -> Seq<char> {
    if sets.len() == 0 {
        Seq::empty()
    } else {
        "update "@ + table + " set "@ + join_seq(sets, ","@) + " where id = "@ + int_str(id as int)
    }
}

fn update_sql_exec(table: &str, sets: &Vec<String>, id: i32) -> (r: String)
    ensures
        r@ == update_sql(table@, strings_view(*sets), id),
{
    if sets.len() == 0 {
        return String::new();
    }
    let mut sql = between("update ", table, " set ");
    let j = join_strings(sets, ",");
    sql.append(j.as_str());
    sql.append(" where id = ");
    push_i32(&mut sql, id);
    assert(sql@ =~= update_sql(table@, strings_view(*sets), id));
    sql
}

impl UpdateSKUParam {
    /// The update of the goods and the update of the SKU, in that order;
    /// an update with nothing to set is the empty text.
    pub fn to_sqls(&self) -> (r: Vec<String>)
        ensures
            r@.len() == 2,
            r@[0]@ == update_sql("goods"@, goods_sets(self), self.goods_id),
            r@[1]@ == update_sql("skus"@, sku_sets(self), self.id),
    {
        let mut gs: Vec<String> = Vec::new();
        assert(strings_view(gs) =~= Seq::<Seq<char>>::empty());
        push_opt_clause(&mut gs, &self.name, " name='", "' ");
        push_opt_clause(&mut gs, &self.image, " image='", "' ");
        push_opt_clause(&mut gs, &self.goods_no, " goods_no='", "' ");
        push_opt_clause(&mut gs, &self.plating, " plating='", "' ");
        assert(strings_view(gs) =~= goods_sets(self));
        let goods_sql = update_sql_exec("goods", &gs, self.goods_id);
        let mut ss: Vec<String> = Vec::new();
        assert(strings_view(ss) =~= Seq::<Seq<char>>::empty());
        push_opt_clause(&mut ss, &self.sku_no, " sku_no = '", "' ");
        push_opt_clause(&mut ss, &self.color, " color = '", "' ");
        push_opt_clause(&mut ss, &self.notes, " notes = '", "' ");
        assert(strings_view(ss) =~= sku_sets(self));
        let sku_sql = update_sql_exec("skus", &ss, self.id);
        let mut r: Vec<String> = Vec::new();
        r.push(goods_sql);
        r.push(sku_sql);
        r
    }
}


// ---------------------------------------------------------------------
// Goods with their SKUs
// ---------------------------------------------------------------------

/// The ids of the goods, in order.
pub open spec fn goods_ids_view(goods: Seq<GoodsModel>) -> Seq<i32> {
    goods.map_values(|g: GoodsModel| g.id)
}

/// The query for the SKUs of the listed goods.
pub fn skus_of_goods_sql(goods: &Vec<GoodsModel>) -> (r: String)
    ensures
        r@ == "select * from skus where goods_id in ("@ + join_seq(
            ints_text(goods_ids_view(goods@)),
            ","@,
        ) + ");"@,
{
    let mut ids: Vec<i32> = Vec::new();
    let mut i: usize = 0;
    while i < goods.len()
        invariant
            i <= goods@.len(),
            ids@ == goods_ids_view(goods@.take(i as int)),
        decreases goods.len() - i,
    {
        ids.push(goods[i].id);
        i = i + 1;
        assert(ids@ =~= goods_ids_view(goods@.take(i as int)));
    }
    assert(goods@.take(goods@.len() as int) =~= goods@);
    let mut sql = String::from_str("select * from skus where goods_id in (");
    let joined = join_i32s(&ids, ",");
    sql.append(joined.as_str());
    sql.append(");");
    sql
}

/// The SKUs of one style, in the order they came.
pub open spec fn skus_of(skus: Seq<SKUModel>, goods_id: i32) -> Seq<SKUModel>
    decreases skus.len(),
{
    if skus.len() == 0 {
        Seq::empty()
    } else if skus.last().goods_id == goods_id {
        skus_of(skus.drop_last(), goods_id).push(skus.last())
    } else {
        skus_of(skus.drop_last(), goods_id)
    }
}

/// The SKUs of one style, in the order they came.
pub fn skus_for_goods(skus: &Vec<SKUModel>, goods_id: i32) -> (r: Vec<SKUModel>)
    ensures
        r@ == skus_of(skus@, goods_id),
{
    let mut r: Vec<SKUModel> = Vec::new();
    let mut i: usize = 0;
    while i < skus.len()
        invariant
            i <= skus@.len(),
            r@ == skus_of(skus@.take(i as int), goods_id),
        decreases skus.len() - i,
    {
        assert(skus@.take(i + 1).drop_last() =~= skus@.take(i as int));
        if skus[i].goods_id == goods_id {
            r.push(skus[i].clone());
        }
        i = i + 1;
    }
    assert(skus@.take(skus@.len() as int) =~= skus@);
    r
}

/// `r` is style `goods` with SKUs `skus`.
pub open spec fn goods_dto_with(r: GoodsDto, goods: GoodsModel, skus: Seq<SKUModel>) -> bool {
    &&& r.id == goods.id
    &&& r.goods_no == goods.goods_no
    &&& r.customer_no == goods.customer_no
    &&& r.images == goods.images
    &&& r.name == goods.name
    &&& r.plating == goods.plating
    &&& r.package_card == goods.package_card
    &&& r.notes == goods.notes
    &&& r.count == skus.len() as i32
    &&& r.skus@ == skus
}

/// Each style of the listing with those of `skus` that belong to it.
pub fn goods_dtos_with_skus(goods: Vec<GoodsModel>, skus: &Vec<SKUModel>) -> (r: Vec<GoodsDto>)
    ensures
        r@.len() == goods@.len(),
        forall|i: int|
            0 <= i < r@.len() ==> goods_dto_with(
                #[trigger] r@[i],
                goods@[i],
                skus_of(skus@, goods@[i].id),
            ),
{
    let ghost orig = goods@;
    let total = goods.len();
    let mut rest = goods;
    let mut r: Vec<GoodsDto> = Vec::new();
    let mut k: usize = 0;
    while rest.len() > 0
        invariant
            total == orig.len(),
            k + rest@.len() == orig.len(),
            rest@ == orig.skip(k as int),
            r@.len() == k,
            forall|i: int|
                0 <= i < k ==> goods_dto_with(#[trigger] r@[i], orig[i], skus_of(skus@, orig[i].id)),
        decreases rest@.len(),
    {
        let g = rest.remove(0);
        assert(g == orig[k as int]);
        assert(rest@ =~= orig.skip(k + 1));
        let its_skus = skus_for_goods(skus, g.id);
        let d = GoodsDto::from(g, its_skus);
        r.push(d);
        k = k + 1;
    }
    r
}

} // verus!
