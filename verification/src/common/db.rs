//! Words of the database's dialect.
use vstd::prelude::*;

verus! {

/// The SQL direction of a listing's sort order: `asc` for `ascend`, and
/// `desc` for `descend` and anything else.
pub open spec fn spec_db_sorter_order(sorter_order: Seq<char>) -> Seq<char> {
    if sorter_order == "ascend"@ {
        "asc"@
    } else {
        "desc"@
    }
}

pub fn sorter_order_to_db_sorter_order(sorter_order: &str) -> (r: &'static str)
    ensures
        r@ == spec_db_sorter_order(sorter_order@),
{
    if crate::text::str_eq(sorter_order, "ascend") {
        "asc"
    } else {
        "desc"
    }
}

} // verus!
