//! Goods and SKUs with the pictures and package cards last recorded for
//! their goods.
use crate::dto::dto_goods::{GoodsDto, SKUModelDto, SKUModelWithoutImageAndPackageDto};
use crate::handler::order_items::{dedup_seq, last_package, package_for};
use crate::model::goods::GoodsModel;
use crate::model::order::GoodsImagesAndPackageModel;
use vstd::prelude::*;

verus! {

/// The goods and SKU lookups of the service.
pub struct GoodsService {}

/// `r` is SKU `sku` with the pictures and package card last recorded for
/// its goods, or with none where nothing is recorded.
pub open spec fn sku_with_package_matches(
    r: SKUModelDto,
    sku: SKUModelWithoutImageAndPackageDto,
    packages: Seq<GoodsImagesAndPackageModel>,
) -> bool {
    &&& r.id == sku.id
    &&& r.sku_no == sku.sku_no
    &&& r.customer_no == sku.customer_no
    &&& r.name == sku.name
    &&& r.goods_no == sku.goods_no
    &&& r.goods_id == sku.goods_id
    &&& r.plating == sku.plating
    &&& r.color == sku.color
    &&& r.color2 == sku.color2
    &&& r.notes == sku.notes
    &&& match last_package(packages, sku.goods_id) {
        Some(p) => r.images@ == p.images@ && r.image_des == p.image_des && r.package_card
            == p.package_card && r.package_card_des == p.package_card_des,
        None => r.images@.len() == 0 && r.image_des@.len() == 0 && r.package_card@.len() == 0
            && r.package_card_des@.len() == 0,
    }
}

/// `r` is style `goods` with the pictures and package card last recorded
/// for it (none where nothing is recorded), and no SKUs.
pub open spec fn goods_with_package_matches(
    r: GoodsDto,
    goods: GoodsModel,
    packages: Seq<GoodsImagesAndPackageModel>,
) -> bool {
    &&& r.id == goods.id
    &&& r.goods_no == goods.goods_no
    &&& r.customer_no == goods.customer_no
    &&& r.name == goods.name
    &&& r.plating == goods.plating
    &&& r.notes == goods.notes
    &&& r.count == 0
    &&& r.skus@.len() == 0
    &&& match last_package(packages, goods.id) {
        Some(p) => r.images@ == p.images@ && r.package_card == p.package_card,
        None => r.images@.len() == 0 && r.package_card@.len() == 0,
    }
}

/// "有商品未找到": no picture or package card is recorded for a style.
pub fn goods_package_missing_err() -> (r: crate::error::ERPError)
    ensures
        r@ == crate::error::ERPErrorView::NotFound("有商品未找到"@),
{
    crate::error::ERPError::NotFound(String::from_str("有商品未找到"))
}

impl GoodsService {
    pub fn new() -> (r: GoodsService)
        ensures
            r == (GoodsService {}),
    {
        GoodsService {}
    }

    /// Each style with the pictures and package card last recorded for it.
    pub fn goods_with_packages(goods: Vec<GoodsModel>, packages: &Vec<GoodsImagesAndPackageModel>) -> (r: Vec<
        GoodsDto,
    >)
        ensures
            r@.len() == goods@.len(),
            forall|i: int|
                0 <= i < r@.len() ==> goods_with_package_matches(#[trigger] r@[i], goods@[i], packages@),
    {
        let ghost orig = goods@;
        let total = goods.len();
        let mut rest = goods;
        let mut r: Vec<GoodsDto> = Vec::new();
        let mut k: usize = 0;
        while rest.len() > 0
            invariant
                total == orig.len(),
                k + rest@.len() == orig.len(),
                rest@ == orig.skip(k as int),
                r@.len() == k,
                forall|i: int|
                    0 <= i < k ==> goods_with_package_matches(#[trigger] r@[i], orig[i], packages@),
            decreases rest@.len(),
        {
            let g = rest.remove(0);
            assert(g == orig[k as int]);
            assert(rest@ =~= orig.skip(k + 1));
            let p = package_for(packages, g.id);
            let d = GoodsDto::from_goods_and_images_package(g, p);
            r.push(d);
            k = k + 1;
        }
        r
    }

    /// Each SKU with the pictures and package card last recorded for its
    /// goods.
    pub fn skus_with_packages(
        skus: Vec<SKUModelWithoutImageAndPackageDto>,
        packages: &Vec<GoodsImagesAndPackageModel>,
    ) -> (r: Vec<SKUModelDto>)
        ensures
            r@.len() == skus@.len(),
            forall|i: int|
                0 <= i < r@.len() ==> sku_with_package_matches(#[trigger] r@[i], skus@[i], packages@),
    {
        let ghost orig = skus@;
        let total = skus.len();
        let mut rest = skus;
        let mut r: Vec<SKUModelDto> = Vec::new();
        let mut k: usize = 0;
        while rest.len() > 0
            invariant
                total == orig.len(),
                k + rest@.len() == orig.len(),
                rest@ == orig.skip(k as int),
                r@.len() == k,
                forall|i: int|
                    0 <= i < k ==> sku_with_package_matches(#[trigger] r@[i], orig[i], packages@),
            decreases rest@.len(),
        {
            let s = rest.remove(0);
            assert(s == orig[k as int]);
            assert(rest@ =~= orig.skip(k + 1));
            let p = package_for(packages, s.goods_id);
            let d = SKUModelDto::from_sku_and_images_package(s, p);
            r.push(d);
            k = k + 1;
        }
        r
    }

    /// The goods ids of the SKUs, each run of equal ids kept once.
    pub fn goods_ids_of_skus(skus: &Vec<SKUModelWithoutImageAndPackageDto>) -> (r: Vec<i32>)
        ensures
            r@ == dedup_seq(skus@.map_values(|s: SKUModelWithoutImageAndPackageDto| s.goods_id)),
    {
        let ghost ids = skus@.map_values(|s: SKUModelWithoutImageAndPackageDto| s.goods_id);
        let mut r: Vec<i32> = Vec::new();
        let mut i: usize = 0;
        assert(ids.take(0) =~= Seq::<i32>::empty());
        while i < skus.len()
            invariant
                ids == skus@.map_values(|s: SKUModelWithoutImageAndPackageDto| s.goods_id),
                i <= skus@.len(),
                r@ == dedup_seq(ids.take(i as int)),
                i > 0 ==> r@.len() > 0 && r@.last() == ids[i - 1],
            decreases skus.len() - i,
        {
            assert(ids.take(i + 1).drop_last() =~= ids.take(i as int));
            assert(ids.take(i + 1).last() == ids[i as int]);
            let g = skus[i].goods_id;
            if i == 0 || skus[i - 1].goods_id != g {
                r.push(g);
            }
            proof {
                if i > 0 {
                    assert(ids.take(i + 1)[i - 1] == ids[i - 1]);
                }
            }
            i = i + 1;
        }
        assert(ids.take(skus@.len() as int) =~= ids);
        r
    }
}

} // verus!
