//! Listing, creating and editing customers.
use crate::common::string::opt_or_empty;
use crate::handler::sql::{
    between, given, is_given, join_seq, join_strings, offset_limit, opt_clause, paging_fits,
    push_between, push_clause, push_offset_limit, push_opt_clause, push_where, where_part,
};
use crate::handler::ListParamTrait;
use crate::model::order::strings_view;
use crate::text::{int_str, push_i32};
use vstd::prelude::*;

verus! {

/// A listing of customers, narrowed by a part of the name and by the
/// customer number.
#[derive(Debug)]
pub struct ListCustomerParam {
    pub name: Option<String>,
    pub customer_no: Option<String>,
    pub page: Option<i32>,
    pub page_size: Option<i32>,
}

/// The conditions of a customer listing.
pub open spec fn customer_clauses(p: &ListCustomerParam) -> Seq<Seq<char>> {
    opt_clause(p.name, "name like '%"@, "%'"@) + opt_clause(p.customer_no, "customer_no='"@, "'"@)
}

fn customer_clauses_exec(p: &ListCustomerParam) -> (r: Vec<String>)
    ensures
        strings_view(r) == customer_clauses(p),
{
    let mut r: Vec<String> = Vec::new();
    assert(strings_view(r) =~= Seq::<Seq<char>>::empty());
    push_opt_clause(&mut r, &p.name, "name like '%", "%'");
    push_opt_clause(&mut r, &p.customer_no, "customer_no='", "'");
    assert(strings_view(r) =~= customer_clauses(p));
    r
}

impl ListParamTrait for ListCustomerParam {
    open spec fn paging_ok(&self) -> bool {
        paging_fits(self.page, self.page_size)
    }

    fn to_pagination_sql(&self) -> (r: String)
        ensures
            r@ == "select * from customers "@ + where_part(customer_clauses(self))
                + " order by id desc"@ + offset_limit(self.page, self.page_size),
    {
        let mut sql = String::from_str("select * from customers ");
        let clauses = customer_clauses_exec(self);
        push_where(&mut sql, &clauses);
        sql.append(" order by id desc");
        push_offset_limit(&mut sql, self.page, self.page_size);
        sql
    }

    fn to_count_sql(&self) -> (r: String)
        ensures
            r@ == "select count(1) from customers "@ + where_part(customer_clauses(self)) + ";"@,
    {
        let mut sql = String::from_str("select count(1) from customers ");
        let clauses = customer_clauses_exec(self);
        push_where(&mut sql, &clauses);
        sql.append(";");
        sql
    }
}

/// A new customer.
#[derive(Debug)]
pub struct CreateCustomerParam {
    pub customer_no: String,
    pub name: Option<String>,
    pub address: Option<String>,
    pub phone: Option<String>,
    pub notes: Option<String>,
}

impl CreateCustomerParam {
    /// `insert into customers (customer_no, name, address, phone, notes)
    /// values ('..', '..', '..', '..', '..')`, missing texts empty.
    pub fn to_sql(&self) -> (r: String)
        ensures
            r@ == "insert into customers (customer_no, name, address, phone, notes) values ('"@
                + self.customer_no@ + "', '"@ + opt_or_empty(self.name) + "', '"@ + opt_or_empty(
                self.address,
            ) + "', '"@ + opt_or_empty(self.phone) + "', '"@ + opt_or_empty(self.notes) + "')"@,
    {
        let mut sql = String::from_str(
            "insert into customers (customer_no, name, address, phone, notes) values ('",
        );
        sql.append(self.customer_no.as_str());
        let name = crate::common::string::opt_string_or_empty(&self.name);
        let address = crate::common::string::opt_string_or_empty(&self.address);
        let phone = crate::common::string::opt_string_or_empty(&self.phone);
        let notes = crate::common::string::opt_string_or_empty(&self.notes);
        push_between(&mut sql, "', '", name.as_str(), "', '");
        push_between(&mut sql, "", address.as_str(), "', '");
        push_between(&mut sql, "", phone.as_str(), "', '");
        push_between(&mut sql, "", notes.as_str(), "')");
        proof {
            reveal_strlit("");
        }
        assert(sql@ =~= "insert into customers (customer_no, name, address, phone, notes) values ('"@
            + self.customer_no@ + "', '"@ + opt_or_empty(self.name) + "', '"@ + opt_or_empty(
            self.address,
        ) + "', '"@ + opt_or_empty(self.phone) + "', '"@ + opt_or_empty(self.notes) + "')"@);
        sql
    }
}

/// "客户ID#{customer_no}已存在"
pub fn customer_exists_err(customer_no: &str) -> (r: crate::error::ERPError)
    ensures
        r@ == crate::error::ERPErrorView::AlreadyExists("客户ID#"@ + customer_no@ + "已存在"@),
{
    crate::error::ERPError::AlreadyExists(between("客户ID#", customer_no, "已存在"))
}

/// An edit of a customer: number and name always, the other fields when
/// given.
#[derive(Debug)]
pub struct UpdateCustomerParam {
    pub id: i32,
    pub customer_no: String,
    pub name: String,
    pub address: Option<String>,
    pub phone: Option<String>,
    pub notes: Option<String>,
}

/// `"{prefix}{v}'"` for a field that is present, even when empty.
pub open spec fn present_clause(v: Option<String>, prefix: Seq<char>) -> Seq<Seq<char>> {
    match v {
        Some(s) => seq![prefix + s@ + "'"@],
        None => Seq::empty(),
    }
}

fn push_present_clause(clauses: &mut Vec<String>, v: &Option<String>, prefix: &str)
    ensures
        strings_view(*final(clauses)) == strings_view(*old(clauses)) + present_clause(*v, prefix@),
{
    let ghost before = strings_view(*clauses);
    match v {
        Some(s) => {
            push_clause(clauses, between(prefix, s.as_str(), "'"));
            assert(strings_view(*clauses) =~= before + present_clause(*v, prefix@));
        },
        None => {
            assert(strings_view(*clauses) =~= before + present_clause(*v, prefix@));
        },
    }
}

/// The fields that an edit of a customer sets.
pub open spec fn customer_sets(p: &UpdateCustomerParam) -> Seq<Seq<char>> {
    seq!["customer_no='"@ + p.customer_no@ + "',name='"@ + p.name@ + "'"@] + present_clause(
        p.address,
        "address='"@,
    ) + present_clause(p.phone, "phone='"@) + present_clause(p.notes, "notes='"@)
}

impl UpdateCustomerParam {
    /// `update customers set {sets joined by ","} where id = {id};`
    pub fn to_sql(&self) -> (r: String)
        ensures
            r@ == "update customers set "@ + join_seq(customer_sets(self), ","@) + " where id = "@
                + int_str(self.id as int) + ";"@,
    {
        let mut sets: Vec<String> = Vec::new();
        let mut first = between("customer_no='", self.customer_no.as_str(), "',name='");
        push_between(&mut first, "", self.name.as_str(), "'");
        proof {
            reveal_strlit("");
        }
        assert(strings_view(sets) =~= Seq::<Seq<char>>::empty());
        push_clause(&mut sets, first);
        push_present_clause(&mut sets, &self.address, "address='");
        push_present_clause(&mut sets, &self.phone, "phone='");
        push_present_clause(&mut sets, &self.notes, "notes='");
        assert(strings_view(sets) =~= customer_sets(self));
        let mut sql = String::from_str("update customers set ");
        let j = join_strings(&sets, ",");
        sql.append(j.as_str());
        sql.append(" where id = ");
        push_i32(&mut sql, self.id);
        sql.append(";");
        assert(sql@ =~= "update customers set "@ + join_seq(customer_sets(self), ","@)
            + " where id = "@ + int_str(self.id as int) + ";"@);
        sql
    }
}

/// "Customer#{id}": the customer asked for is unknown.
pub fn customer_not_found_err(id: i32) -> (r: crate::error::ERPError)
    ensures
        r@ == crate::error::ERPErrorView::NotFound("Customer#"@ + int_str(id as int)),
{
    let s = crate::handler::sql::between_i32("Customer#", id, "");
    proof {
        reveal_strlit("");
    }
    assert(s@ =~= "Customer#"@ + int_str(id as int));
    crate::error::ERPError::NotFound(s)
}

/// An edit that changes a customer's number is refused as a collision
/// whenever the lookup of the new number succeeds, whether or not it finds
/// a customer.
pub fn check_customer_update(current_no: &str, new_no: &str, lookup_ok: bool) -> (r: Result<
    (),
    crate::error::ERPError,
>)
    ensures
        (current_no@ != new_no@ && lookup_ok) <==> r is Err,
        r is Err ==> r->Err_0@ == crate::error::ERPErrorView::Collision(new_no@ + " 已存在"@),
{
    if !crate::text::str_eq(current_no, new_no) && lookup_ok {
        let mut s = String::from_str(new_no);
        s.append(" 已存在");
        Err(crate::error::ERPError::Collision(s))
    } else {
        Ok(())
    }
}

} // verus!
