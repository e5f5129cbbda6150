//! What the service tells about goods and SKUs.
use crate::model::goods::{GoodsModel, SKUModel};
use crate::common::string::{clone_opt_string, clone_strings};
use crate::model::goods::skus_view;
use crate::model::order::GoodsImagesAndPackageModel;
use vstd::prelude::*;

verus! {

/// A SKU joined with its goods, without the goods' pictures.
#[derive(Debug)]
pub struct SKUModelWithoutImageAndPackageDto {
    pub id: i32,
    pub sku_no: String,
    pub customer_no: String,
    pub name: String,
    pub goods_no: String,
    pub goods_id: i32,
    pub plating: String,
    pub color: String,
    pub color2: String,
    pub notes: Option<String>,
}

/// A SKU joined with its goods and the goods' pictures and package card.
#[derive(Debug)]
pub struct SKUModelDto {
    pub id: i32,
    pub sku_no: String,
    pub customer_no: String,
    pub name: String,
    pub goods_no: String,
    pub goods_id: i32,
    pub images: Vec<String>,
    pub image_des: String,
    pub package_card: String,
    pub package_card_des: String,
    pub plating: String,
    pub color: String,
    pub color2: String,
    pub notes: Option<String>,
}

impl SKUModelDto {
    pub fn from_sku_and_images_package(
        sku: SKUModelWithoutImageAndPackageDto,
        images_package: GoodsImagesAndPackageModel,
    ) -> (r: SKUModelDto)
        ensures
            r.id == sku.id,
            r.sku_no == sku.sku_no,
            r.customer_no == sku.customer_no,
            r.name == sku.name,
            r.goods_no == sku.goods_no,
            r.goods_id == sku.goods_id,
            r.images == images_package.images,
            r.image_des == images_package.image_des,
            r.package_card == images_package.package_card,
            r.package_card_des == images_package.package_card_des,
            r.plating == sku.plating,
            r.color == sku.color,
            r.color2 == sku.color2,
            r.notes == sku.notes,
    {
        SKUModelDto {
            id: sku.id,
            sku_no: sku.sku_no,
            customer_no: sku.customer_no,
            name: sku.name,
            goods_no: sku.goods_no,
            goods_id: sku.goods_id,
            images: images_package.images,
            image_des: images_package.image_des,
            package_card: images_package.package_card,
            package_card_des: images_package.package_card_des,
            plating: sku.plating,
            color: sku.color,
            color2: sku.color2,
            notes: sku.notes,
        }
    }
}

/// `a` is a copy of `b`.
pub open spec fn same_sku_dto(a: SKUModelDto, b: SKUModelDto) -> bool {
    &&& a.id == b.id
    &&& a.sku_no == b.sku_no
    &&& a.customer_no == b.customer_no
    &&& a.name == b.name
    &&& a.goods_no == b.goods_no
    &&& a.goods_id == b.goods_id
    &&& a.images@ == b.images@
    &&& a.image_des == b.image_des
    &&& a.package_card == b.package_card
    &&& a.package_card_des == b.package_card_des
    &&& a.plating == b.plating
    &&& a.color == b.color
    &&& a.color2 == b.color2
    &&& a.notes == b.notes
}

impl SKUModelDto {
    pub fn copy(&self) -> (r: SKUModelDto)
        ensures
            same_sku_dto(r, *self),
    {
        SKUModelDto {
            id: self.id,
            sku_no: self.sku_no.clone(),
            customer_no: self.customer_no.clone(),
            name: self.name.clone(),
            goods_no: self.goods_no.clone(),
            goods_id: self.goods_id,
            images: clone_strings(&self.images),
            image_des: self.image_des.clone(),
            package_card: self.package_card.clone(),
            package_card_des: self.package_card_des.clone(),
            plating: self.plating.clone(),
            color: self.color.clone(),
            color2: self.color2.clone(),
            notes: clone_opt_string(&self.notes),
        }
    }
}

/// A style of goods with its SKUs.
#[derive(Debug)]
pub struct GoodsDto {
    pub id: i32,
    pub goods_no: String,
    pub customer_no: String,
    pub images: Vec<String>,
    pub name: String,
    pub plating: String,
    pub package_card: String,
    pub notes: String,
    /// How many SKUs the style has.
    pub count: i32,
    pub skus: Vec<SKUModel>,
}

/// `a` is a copy of `b`.
pub open spec fn same_goods_dto(a: GoodsDto, b: GoodsDto) -> bool {
    &&& a.id == b.id
    &&& a.goods_no == b.goods_no
    &&& a.customer_no == b.customer_no
    &&& a.images@ == b.images@
    &&& a.name == b.name
    &&& a.plating == b.plating
    &&& a.package_card == b.package_card
    &&& a.notes == b.notes
    &&& a.count == b.count
    &&& a.skus@ == b.skus@
}

fn clone_skus(v: &Vec<SKUModel>) -> (r: Vec<SKUModel>)
    ensures
        r@ == v@,
{
    let mut r: Vec<SKUModel> = Vec::new();
    let mut i: usize = 0;
    while i < v.len()
        invariant
            i <= v@.len(),
            r@ == v@.take(i as int),
        decreases v.len() - i,
    {
        r.push(v[i].clone());
        i = i + 1;
        assert(r@ =~= v@.take(i as int));
    }
    assert(v@.take(v@.len() as int) =~= v@);
    r
}

impl GoodsDto {
    pub fn copy(&self) -> (r: GoodsDto)
        ensures
            same_goods_dto(r, *self),
    {
        GoodsDto {
            id: self.id,
            goods_no: self.goods_no.clone(),
            customer_no: self.customer_no.clone(),
            images: clone_strings(&self.images),
            name: self.name.clone(),
            plating: self.plating.clone(),
            package_card: self.package_card.clone(),
            notes: self.notes.clone(),
            count: self.count,
            skus: clone_skus(&self.skus),
        }
    }

    /// A style with the pictures and package card last recorded for it,
    /// and no SKUs.
    pub fn from_goods_and_images_package(
        goods: GoodsModel,
        images_package: GoodsImagesAndPackageModel,
    ) -> (r: GoodsDto)
        ensures
            r.id == goods.id,
            r.goods_no == goods.goods_no,
            r.customer_no == goods.customer_no,
            r.images == images_package.images,
            r.name == goods.name,
            r.plating == goods.plating,
            r.package_card == images_package.package_card,
            r.notes == goods.notes,
            r.count == 0,
            r.skus@.len() == 0,
    {
        GoodsDto {
            id: goods.id,
            goods_no: goods.goods_no,
            customer_no: goods.customer_no,
            images: images_package.images,
            name: goods.name,
            plating: goods.plating,
            package_card: images_package.package_card,
            notes: goods.notes,
            count: 0,
            skus: Vec::new(),
        }
    }
}

/// The pictures and package card of a style, by goods number.
#[derive(Debug)]
pub struct GoodsImageAndPackage {
    pub goods_no: String,
    pub images: Vec<String>,
    pub image_des: String,
    pub package_card: String,
    pub package_card_des: String,
}

impl GoodsDto {
    pub fn from(goods: GoodsModel, skus: Vec<SKUModel>) -> (r: GoodsDto)
        ensures
            r.id == goods.id,
            r.goods_no == goods.goods_no,
            r.customer_no == goods.customer_no,
            r.images == goods.images,
            r.name == goods.name,
            r.plating == goods.plating,
            r.package_card == goods.package_card,
            r.notes == goods.notes,
            r.count == skus@.len() as i32,
            r.skus == skus,
    {
        let count = skus.len() as i32;
        GoodsDto {
            id: goods.id,
            goods_no: goods.goods_no,
            customer_no: goods.customer_no,
            images: goods.images,
            name: goods.name,
            plating: goods.plating,
            package_card: goods.package_card,
            notes: goods.notes,
            count,
            skus,
        }
    }
}

} // verus!
