//! Goods (a style of product) and their SKUs (one colour of a style).
use vstd::prelude::*;

verus! {

/// A row of the `goods` table.
#[derive(Debug)]
pub struct GoodsModel {
    pub id: i32,
    pub customer_no: String,
    pub goods_no: String,
    pub name: String,
    pub plating: String,
    pub notes: String,
    pub images: Vec<String>,
    pub package_card: String,
}

/// A row of the `skus` table.
#[derive(Debug)]
pub struct SKUModel {
    pub id: i32,
    pub goods_id: i32,
    pub sku_no: String,
    pub color: String,
    pub color2: String,
    pub notes: Option<String>,
}

/// A SKU with its texts taken as character sequences.
pub struct SkuView {
    pub id: i32,
    pub goods_id: i32,
    pub sku_no: Seq<char>,
    pub color: Seq<char>,
    pub color2: Seq<char>,
    pub notes: Option<Seq<char>>,
}

impl View for SKUModel {
    type V = SkuView;

    open spec fn view(&self) -> SkuView {
        SkuView {
            id: self.id,
            goods_id: self.goods_id,
            sku_no: self.sku_no@,
            color: self.color@,
            color2: self.color2@,
            notes: crate::model::order::opt_view(self.notes),
        }
    }
}

/// The SKUs of a list, taken by their views.
pub open spec fn skus_view(v: Seq<SKUModel>) -> Seq<SkuView> {
    v.map_values(|s: SKUModel| s@)
}

impl Clone for SKUModel {
    fn clone(&self) -> (r: Self)
        ensures
            r == *self,
    {
        SKUModel {
            id: self.id,
            goods_id: self.goods_id,
            sku_no: self.sku_no.clone(),
            color: self.color.clone(),
            color2: self.color2.clone(),
            notes: crate::common::string::clone_opt_string(&self.notes),
        }
    }
}

} // verus!
