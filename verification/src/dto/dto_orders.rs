//! What the service tells about orders, their goods and items, and the
//! production progress on them.
use crate::common::datetime::Date;
use crate::dto::dto_progress::OneProgress;
use crate::dto::step_count::{entries_map, keys_ascending, StepIndexCount};
use crate::model::customer::CustomerModel;
use crate::common::string::{clone_opt_string, clone_strings};
use crate::model::order::{opt_view, strings_view, GoodsImagesAndPackageModel, OrderModel};
use vstd::prelude::*;

verus! {

/// An order as listed.
#[derive(Debug)]
pub struct OrderDto {
    pub id: i32,
    pub customer_no: String,
    pub order_no: String,
    pub order_date: Date,
    pub delivery_date: Option<Date>,
    pub is_return_order: bool,
    pub is_urgent: bool,
    pub is_special: bool,
    pub special_customer: String,
    pub build_by: i32,
}

impl OrderDto {
    /// The order, with the customer number taken from `customer`.
    pub fn from(order: OrderModel, customer: CustomerModel) -> (r: OrderDto)
        ensures
            r.id == order.id,
            r.customer_no == customer.customer_no,
            r.order_no == order.order_no,
            r.order_date == order.order_date,
            r.delivery_date == order.delivery_date,
            r.is_return_order == order.is_return_order,
            r.is_urgent == order.is_urgent,
            r.is_special == order.is_special,
            r.special_customer == order.special_customer,
            r.build_by == order.build_by,
    {
        OrderDto {
            id: order.id,
            customer_no: customer.customer_no,
            order_no: order.order_no,
            order_date: order.order_date,
            delivery_date: order.delivery_date,
            is_return_order: order.is_return_order,
            is_urgent: order.is_urgent,
            is_special: order.is_special,
            special_customer: order.special_customer,
            build_by: order.build_by,
        }
    }

    pub fn from_only(order: OrderModel) -> (r: OrderDto)
        ensures
            r.id == order.id,
            r.customer_no == order.customer_no,
            r.order_no == order.order_no,
            r.order_date == order.order_date,
            r.delivery_date == order.delivery_date,
            r.is_return_order == order.is_return_order,
            r.is_urgent == order.is_urgent,
            r.is_special == order.is_special,
            r.special_customer == order.special_customer,
            r.build_by == order.build_by,
    {
        OrderDto {
            id: order.id,
            customer_no: order.customer_no,
            order_no: order.order_no,
            order_date: order.order_date,
            delivery_date: order.delivery_date,
            is_return_order: order.is_return_order,
            is_urgent: order.is_urgent,
            is_special: order.is_special,
            special_customer: order.special_customer,
            build_by: order.build_by,
        }
    }
}

/// How many items stand at one (step, index).
#[derive(Debug, Clone, Copy, PartialEq, Eq, Structural)]
pub struct StepIndexCountUF {
    pub step: i32,
    pub index: i32,
    pub count: i32,
}

/// The counts as (step, index, count) triples.
pub open spec fn ufs_view(v: Seq<StepIndexCountUF>) -> Seq<(i32, i32, i32)> {
    v.map_values(|u: StepIndexCountUF| (u.step, u.index, u.count))
}

impl StepIndexCountUF {
    /// The counts, one per (step, index), by ascending step and then index.
    pub fn from_step_index_count(step_index_count: StepIndexCount) -> (r: Vec<StepIndexCountUF>)
        requires
            step_index_count.wf(),
        ensures
            keys_ascending(ufs_view(r@)),
            entries_map(ufs_view(r@)) == step_index_count@,
            r@.len() == step_index_count@.dom().len(),
    {
        proof {
            step_index_count.lemma_entries();
        }
        let entries = step_index_count.sorted_entries();
        let mut r: Vec<StepIndexCountUF> = Vec::new();
        let mut i: usize = 0;
        while i < entries.len()
            invariant
                i <= entries@.len(),
                ufs_view(r@) == entries@.take(i as int),
            decreases entries.len() - i,
        {
            let e = entries[i];
            let ghost old_r = r@;
            let u = StepIndexCountUF { step: e.0, index: e.1, count: e.2 };
            r.push(u);
            assert(ufs_view(r@) =~= ufs_view(old_r).push((u.step, u.index, u.count)));
            assert(entries@.take(i + 1) =~= entries@.take(i as int).push(entries@[i as int]));
            i = i + 1;
            assert(ufs_view(r@) =~= entries@.take(i as int));
        }
        assert(entries@.take(i as int) =~= entries@);
        r
    }
}

/// An order with how far its items have come.
#[derive(Debug)]
pub struct OrderWithStepsDto {
    pub id: i32,
    pub customer_no: String,
    pub order_no: String,
    pub order_date: Date,
    pub delivery_date: Option<Date>,
    pub is_return_order: bool,
    pub is_urgent: bool,
    pub is_special: bool,
    pub build_by: i32,
    pub special_customer: String,
    pub done_count: i32,
    pub exception_count: i32,
    pub total_count: i32,
    pub steps: Vec<StepIndexCountUF>,
}

impl OrderWithStepsDto {
    pub fn from_order_dto_and_steps(
        order: OrderDto,
        steps: StepIndexCount,
        done_count: i32,
        exception_count: i32,
        total_count: i32,
    ) -> (r: OrderWithStepsDto)
        requires
            steps.wf(),
        ensures
            r.id == order.id,
            r.customer_no == order.customer_no,
            r.order_no == order.order_no,
            r.order_date == order.order_date,
            r.delivery_date == order.delivery_date,
            r.is_return_order == order.is_return_order,
            r.is_urgent == order.is_urgent,
            r.is_special == order.is_special,
            r.build_by == order.build_by,
            r.special_customer == order.special_customer,
            r.done_count == done_count,
            r.exception_count == exception_count,
            r.total_count == total_count,
            keys_ascending(ufs_view(r.steps@)),
            entries_map(ufs_view(r.steps@)) == steps@,
    {
        OrderWithStepsDto {
            id: order.id,
            customer_no: order.customer_no,
            order_no: order.order_no,
            order_date: order.order_date,
            delivery_date: order.delivery_date,
            is_return_order: order.is_return_order,
            is_urgent: order.is_urgent,
            is_special: order.is_special,
            build_by: order.build_by,
            special_customer: order.special_customer,
            done_count,
            exception_count,
            total_count,
            steps: StepIndexCountUF::from_step_index_count(steps),
        }
    }
}

/// An item of an order goods, with its SKU's colour and number.
#[derive(Debug)]
pub struct OrderGoodsItemDto {
    pub id: i32,
    pub order_id: i32,
    pub order_goods_id: i32,
    pub goods_id: i32,
    pub sku_id: i32,
    pub sku_no: Option<String>,
    pub color: String,
    pub count: i32,
    pub unit: Option<String>,
    pub unit_price: Option<i32>,
    pub total_price: Option<i32>,
    pub notes_images: Vec<String>,
    pub notes: String,
}

/// An item of an order goods with its texts taken as sequences.
pub struct OrderGoodsItemView {
    pub id: i32,
    pub order_id: i32,
    pub order_goods_id: i32,
    pub goods_id: i32,
    pub sku_id: i32,
    pub sku_no: Option<Seq<char>>,
    pub color: Seq<char>,
    pub count: i32,
    pub unit: Option<Seq<char>>,
    pub unit_price: Option<i32>,
    pub total_price: Option<i32>,
    pub notes_images: Seq<Seq<char>>,
    pub notes: Seq<char>,
}

impl View for OrderGoodsItemDto {
    type V = OrderGoodsItemView;

    open spec fn view(&self) -> OrderGoodsItemView {
        OrderGoodsItemView {
            id: self.id,
            order_id: self.order_id,
            order_goods_id: self.order_goods_id,
            goods_id: self.goods_id,
            sku_id: self.sku_id,
            sku_no: opt_view(self.sku_no),
            color: self.color@,
            count: self.count,
            unit: opt_view(self.unit),
            unit_price: self.unit_price,
            total_price: self.total_price,
            notes_images: strings_view(self.notes_images),
            notes: self.notes@,
        }
    }
}

/// An item of an order with its goods, without pictures.
#[derive(Debug)]
pub struct OrderPlainItemWithoutImagesPackageDto {
    pub id: i32,
    pub order_id: i32,
    pub goods_id: i32,
    pub goods_no: String,
    pub name: String,
    pub order_goods_id: i32,
    pub sku_id: i32,
    pub sku_no: Option<String>,
    pub color: String,
    pub count: i32,
    pub unit: Option<String>,
    pub unit_price: Option<i32>,
    pub total_price: Option<i32>,
    pub notes_images: Vec<String>,
    pub notes: String,
}

/// An item of an order with its goods and their pictures.
#[derive(Debug)]
pub struct OrderPlainItemDto {
    pub id: i32,
    pub order_id: i32,
    pub goods_id: i32,
    pub goods_no: String,
    pub name: String,
    pub images: Vec<String>,
    pub image_des: String,
    pub package_card: String,
    pub package_card_des: String,
    pub order_goods_id: i32,
    pub sku_id: i32,
    pub sku_no: Option<String>,
    pub color: String,
    pub count: i32,
    pub unit: Option<String>,
    pub unit_price: Option<i32>,
    pub total_price: Option<i32>,
    pub notes_images: Vec<String>,
    pub notes: String,
}

impl OrderPlainItemDto {
    pub fn from_sku_and_images_package(
        sku: OrderPlainItemWithoutImagesPackageDto,
        images_package: GoodsImagesAndPackageModel,
    ) -> (r: OrderPlainItemDto)
        ensures
            r.id == sku.id,
            r.order_id == sku.order_id,
            r.goods_id == sku.goods_id,
            r.goods_no == sku.goods_no,
            r.name == sku.name,
            r.images == images_package.images,
            r.image_des == images_package.image_des,
            r.package_card == images_package.package_card,
            r.package_card_des == images_package.package_card_des,
            r.order_goods_id == sku.order_goods_id,
            r.sku_id == sku.sku_id,
            r.sku_no == sku.sku_no,
            r.color == sku.color,
            r.count == sku.count,
            r.unit == sku.unit,
            r.unit_price == sku.unit_price,
            r.total_price == sku.total_price,
            r.notes_images == sku.notes_images,
            r.notes == sku.notes,
    {
        OrderPlainItemDto {
            id: sku.id,
            order_id: sku.order_id,
            goods_id: sku.goods_id,
            goods_no: sku.goods_no,
            name: sku.name,
            images: images_package.images,
            image_des: images_package.image_des,
            package_card: images_package.package_card,
            package_card_des: images_package.package_card_des,
            order_goods_id: sku.order_goods_id,
            sku_id: sku.sku_id,
            sku_no: sku.sku_no,
            color: sku.color,
            count: sku.count,
            unit: sku.unit,
            unit_price: sku.unit_price,
            total_price: sku.total_price,
            notes_images: sku.notes_images,
            notes: sku.notes,
        }
    }
}

/// An item of an order with where its production stands.
#[derive(Debug)]
pub struct OrderPlainItemWithCurrentStepDto {
    pub id: i32,
    pub order_id: i32,
    pub goods_id: i32,
    pub goods_no: String,
    pub name: String,
    pub images: Vec<String>,
    pub package_card: String,
    pub package_card_des: String,
    pub order_goods_id: i32,
    pub sku_id: i32,
    pub sku_no: Option<String>,
    pub color: String,
    pub count: i32,
    pub unit: Option<String>,
    pub unit_price: Option<i32>,
    pub total_price: Option<i32>,
    pub notes: String,
    pub is_next_action: bool,
    pub current_step: i32,
    pub current_index: i32,
    pub current_notes: String,
}

impl OrderPlainItemWithCurrentStepDto {
    pub fn from(
        item: OrderPlainItemDto,
        is_next_action: bool,
        current_step: i32,
        current_index: i32,
        current_notes: &str,
    ) -> (r: OrderPlainItemWithCurrentStepDto)
        ensures
            r.id == item.id,
            r.order_id == item.order_id,
            r.goods_id == item.goods_id,
            r.goods_no == item.goods_no,
            r.name == item.name,
            r.images == item.images,
            r.package_card == item.package_card,
            r.package_card_des == item.package_card_des,
            r.order_goods_id == item.order_goods_id,
            r.sku_id == item.sku_id,
            r.sku_no == item.sku_no,
            r.color == item.color,
            r.count == item.count,
            r.unit == item.unit,
            r.unit_price == item.unit_price,
            r.total_price == item.total_price,
            r.notes == item.notes,
            r.is_next_action == is_next_action,
            r.current_step == current_step,
            r.current_index == current_index,
            r.current_notes@ == current_notes@,
    {
        OrderPlainItemWithCurrentStepDto {
            id: item.id,
            order_id: item.order_id,
            goods_id: item.goods_id,
            goods_no: item.goods_no,
            name: item.name,
            images: item.images,
            package_card: item.package_card,
            package_card_des: item.package_card_des,
            order_goods_id: item.order_goods_id,
            sku_id: item.sku_id,
            sku_no: item.sku_no,
            color: item.color,
            count: item.count,
            unit: item.unit,
            unit_price: item.unit_price,
            total_price: item.total_price,
            notes: item.notes,
            is_next_action,
            current_step,
            current_index,
            current_notes: String::from_str(current_notes),
        }
    }
}

/// An item of an order goods with all its progress marks.
#[derive(Debug)]
pub struct OrderGoodsItemWithStepsDto {
    pub id: i32,
    pub order_id: i32,
    pub goods_id: i32,
    pub order_goods_id: i32,
    pub sku_id: i32,
    pub sku_no: Option<String>,
    pub color: String,
    pub count: i32,
    pub unit: Option<String>,
    pub unit_price: Option<i32>,
    pub total_price: Option<i32>,
    pub notes_images: Vec<String>,
    pub notes: String,
    pub is_next_action: bool,
    pub current_step: i32,
    pub steps: Vec<OneProgress>,
}

impl OrderGoodsItemWithStepsDto {
    pub fn from(
        ogid: OrderGoodsItemDto,
        steps: Vec<OneProgress>,
        is_next_action: bool,
        current_step: i32,
    ) -> (r: OrderGoodsItemWithStepsDto)
        ensures
            r.id == ogid.id,
            r.order_id == ogid.order_id,
            r.goods_id == ogid.goods_id,
            r.order_goods_id == ogid.order_goods_id,
            r.sku_id == ogid.sku_id,
            r.sku_no == ogid.sku_no,
            r.color == ogid.color,
            r.count == ogid.count,
            r.unit == ogid.unit,
            r.unit_price == ogid.unit_price,
            r.total_price == ogid.total_price,
            r.notes_images == ogid.notes_images,
            r.notes == ogid.notes,
            r.is_next_action == is_next_action,
            r.current_step == current_step,
            r.steps == steps,
    {
        OrderGoodsItemWithStepsDto {
            id: ogid.id,
            order_id: ogid.order_id,
            goods_id: ogid.goods_id,
            order_goods_id: ogid.order_goods_id,
            sku_id: ogid.sku_id,
            sku_no: ogid.sku_no,
            color: ogid.color,
            count: ogid.count,
            unit: ogid.unit,
            unit_price: ogid.unit_price,
            total_price: ogid.total_price,
            notes_images: ogid.notes_images,
            notes: ogid.notes,
            is_next_action,
            current_step,
            steps,
        }
    }
}

/// An item with its marks, texts taken as sequences.
pub struct ItemWithStepsView {
    pub item: OrderGoodsItemView,
    pub is_next_action: bool,
    pub current_step: i32,
    pub steps: Seq<OneProgress>,
}

impl View for OrderGoodsItemWithStepsDto {
    type V = ItemWithStepsView;

    open spec fn view(&self) -> ItemWithStepsView {
        ItemWithStepsView {
            item: OrderGoodsItemView {
                id: self.id,
                order_id: self.order_id,
                order_goods_id: self.order_goods_id,
                goods_id: self.goods_id,
                sku_id: self.sku_id,
                sku_no: opt_view(self.sku_no),
                color: self.color@,
                count: self.count,
                unit: opt_view(self.unit),
                unit_price: self.unit_price,
                total_price: self.total_price,
                notes_images: strings_view(self.notes_images),
                notes: self.notes@,
            },
            is_next_action: self.is_next_action,
            current_step: self.current_step,
            steps: self.steps@,
        }
    }
}

/// Items with marks taken by their views.
pub open spec fn items_with_steps_view(v: Seq<OrderGoodsItemWithStepsDto>) -> Seq<ItemWithStepsView> {
    v.map_values(|i: OrderGoodsItemWithStepsDto| i@)
}

/// An equal copy of a list of progress marks.
pub fn clone_marks(v: &Vec<OneProgress>) -> (r: Vec<OneProgress>)
    ensures
        r@ == v@,
{
    let mut r: Vec<OneProgress> = Vec::new();
    let mut i: usize = 0;
    while i < v.len()
        invariant
            i <= v@.len(),
            r@ == v@.take(i as int),
        decreases v.len() - i,
    {
        r.push(v[i].clone());
        i = i + 1;
        assert(r@ =~= v@.take(i as int));
    }
    assert(v@.take(v@.len() as int) =~= v@);
    r
}

impl Clone for OrderGoodsItemWithStepsDto {
    fn clone(&self) -> (r: Self)
        ensures
            r@ == self@,
    {
        OrderGoodsItemWithStepsDto {
            id: self.id,
            order_id: self.order_id,
            goods_id: self.goods_id,
            order_goods_id: self.order_goods_id,
            sku_id: self.sku_id,
            sku_no: clone_opt_string(&self.sku_no),
            color: self.color.clone(),
            count: self.count,
            unit: clone_opt_string(&self.unit),
            unit_price: self.unit_price,
            total_price: self.total_price,
            notes_images: clone_strings(&self.notes_images),
            notes: self.notes.clone(),
            is_next_action: self.is_next_action,
            current_step: self.current_step,
            steps: clone_marks(&self.steps),
        }
    }
}

/// A style on an order, with its goods number and name.
#[derive(Debug)]
pub struct OrderGoodsDto {
    pub id: i32,
    pub order_id: i32,
    pub goods_id: i32,
    pub goods_no: String,
    pub name: String,
    pub images: Vec<String>,
    pub image_des: String,
    pub package_card: String,
    pub package_card_des: String,
}

/// A style on an order with its items and how far they have come.
#[derive(Debug)]
pub struct OrderGoodsWithStepsWithItemStepDto {
    pub id: i32,
    pub order_id: i32,
    pub goods_id: i32,
    pub goods_no: String,
    pub name: String,
    pub images: Vec<String>,
    pub image_des: String,
    pub package_card: String,
    pub package_card_des: String,
    pub is_next_action: bool,
    /// Only meaningful where `is_next_action` holds.
    pub current_step: i32,
    pub current_index: i32,
    pub steps: Vec<StepIndexCountUF>,
    pub items: Vec<OrderGoodsItemWithStepsDto>,
}

impl OrderGoodsWithStepsWithItemStepDto {
    pub fn from_order_with_goods_and_steps_and_items(
        order_goods: OrderGoodsDto,
        steps: StepIndexCount,
        items: Vec<OrderGoodsItemWithStepsDto>,
        is_next_action: bool,
        current_step: i32,
        current_index: i32,
    ) -> (r: OrderGoodsWithStepsWithItemStepDto)
        requires
            steps.wf(),
        ensures
            r.id == order_goods.id,
            r.order_id == order_goods.order_id,
            r.goods_id == order_goods.goods_id,
            r.goods_no == order_goods.goods_no,
            r.name == order_goods.name,
            r.images == order_goods.images,
            r.image_des == order_goods.image_des,
            r.package_card == order_goods.package_card,
            r.package_card_des == order_goods.package_card_des,
            r.is_next_action == is_next_action,
            r.current_step == current_step,
            r.current_index == current_index,
            keys_ascending(ufs_view(r.steps@)),
            entries_map(ufs_view(r.steps@)) == steps@,
            r.items == items,
    {
        OrderGoodsWithStepsWithItemStepDto {
            id: order_goods.id,
            order_id: order_goods.order_id,
            goods_id: order_goods.goods_id,
            goods_no: order_goods.goods_no,
            name: order_goods.name,
            images: order_goods.images,
            image_des: order_goods.image_des,
            package_card: order_goods.package_card,
            package_card_des: order_goods.package_card_des,
            is_next_action,
            current_step,
            current_index,
            steps: StepIndexCountUF::from_step_index_count(steps),
            items,
        }
    }
}

} // verus!
