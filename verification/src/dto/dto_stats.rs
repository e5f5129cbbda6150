//! Statistics of returned orders.
use crate::dto::dto_goods::{GoodsDto, SKUModelDto};
use vstd::prelude::*;

verus! {

/// How often and how many of one SKU came back.
#[derive(Debug)]
pub struct ReturnOrderStat {
    pub sku: SKUModelDto,
    pub count: i32,
    pub sum: i32,
}

/// How often and how many of one SKU of a style came back.
#[derive(Debug)]
pub struct ReturnOrderItemStat {
    pub sku: SKUModelDto,
    pub count: i32,
    pub sum: i32,
}

/// How often and how many of a style came back, SKU by SKU.
#[derive(Debug)]
pub struct ReturnOrderGoodsStat {
    pub goods: GoodsDto,
    pub skus: Vec<ReturnOrderItemStat>,
    pub count: i32,
    pub sum: i32,
}

} // verus!
