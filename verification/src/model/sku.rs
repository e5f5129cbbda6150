//! The early shape of a SKU record.
use vstd::prelude::*;

verus! {

#[derive(Debug)]
pub struct SKU {
    id: i32,
    goods_id: i32,
    image: Option<String>,
    goods_no: Option<String>,
    color: Option<String>,
    notes: Option<String>,
}

} // verus!
