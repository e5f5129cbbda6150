//! What the service's requests decide: the SQL text of listings and
//! edits, and how answers are put together.
use vstd::prelude::*;

pub mod routes_customer;
pub mod routes_goods;
pub mod routes_login;
pub mod order_items;
pub mod routes_order;
pub mod routes_progress;
pub mod routes_stats;
pub mod routes_upload;
pub mod sql;

verus! {

/// A listing request: one page of rows, and the number of all rows.
pub trait ListParamTrait {
    /// The page asked for can be located with the service's integers.
    spec fn paging_ok(&self) -> bool;

    /// The query for the page asked for.
    fn to_pagination_sql(&self) -> String
        requires
            self.paging_ok(),
    ;

    /// The query for the number of all rows.
    fn to_count_sql(&self) -> String;
}

} // verus!
