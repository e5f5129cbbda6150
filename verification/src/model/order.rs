//! Orders, the goods and items on them, and the rows read from order
//! spreadsheets.
use crate::common::datetime::Date;
use crate::common::string::{clone_opt_string, clone_strings};
use vstd::prelude::*;

verus! {

/// A row of the `orders` table.
#[derive(Debug)]
pub struct OrderModel {
    pub id: i32,
    pub customer_no: String,
    pub order_no: String,
    pub order_date: Date,
    pub delivery_date: Option<Date>,
    pub is_urgent: bool,
    pub is_return_order: bool,
    pub is_special: bool,
    pub special_customer: String,
    pub build_by: i32,
}

impl Clone for OrderModel {
    fn clone(&self) -> (r: Self)
        ensures
            r == *self,
    {
        OrderModel {
            id: self.id,
            customer_no: self.customer_no.clone(),
            order_no: self.order_no.clone(),
            order_date: self.order_date,
            delivery_date: self.delivery_date,
            is_urgent: self.is_urgent,
            is_return_order: self.is_return_order,
            is_special: self.is_special,
            special_customer: self.special_customer.clone(),
            build_by: self.build_by,
        }
    }
}

/// A row of the `order_goods` table: one style of goods on one order.
#[derive(Debug)]
pub struct OrderGoodsModel {
    pub id: i32,
    pub index: i32,
    pub images: Vec<String>,
    pub image_des: String,
    pub package_card: String,
    pub package_card_des: String,
    pub order_id: i32,
    pub goods_id: i32,
}

/// A style on an order, with its texts taken as character sequences.
pub struct OrderGoodsView {
    pub id: i32,
    pub index: i32,
    pub images: Seq<Seq<char>>,
    pub image_des: Seq<char>,
    pub package_card: Seq<char>,
    pub package_card_des: Seq<char>,
    pub order_id: i32,
    pub goods_id: i32,
}

impl View for OrderGoodsModel {
    type V = OrderGoodsView;

    open spec fn view(&self) -> OrderGoodsView {
        OrderGoodsView {
            id: self.id,
            index: self.index,
            images: strings_view(self.images),
            image_des: self.image_des@,
            package_card: self.package_card@,
            package_card_des: self.package_card_des@,
            order_id: self.order_id,
            goods_id: self.goods_id,
        }
    }
}

/// The pictures and packaging last recorded for a style of goods.
#[derive(Debug)]
pub struct GoodsImagesAndPackageModel {
    pub images: Vec<String>,
    pub image_des: String,
    pub package_card: String,
    pub package_card_des: String,
    pub goods_id: i32,
}

impl Clone for GoodsImagesAndPackageModel {
    fn clone(&self) -> (r: Self)
        ensures
            r.images@ == self.images@,
            r.image_des == self.image_des,
            r.package_card == self.package_card,
            r.package_card_des == self.package_card_des,
            r.goods_id == self.goods_id,
    {
        GoodsImagesAndPackageModel {
            images: clone_strings(&self.images),
            image_des: self.image_des.clone(),
            package_card: self.package_card.clone(),
            package_card_des: self.package_card_des.clone(),
            goods_id: self.goods_id,
        }
    }
}

/// A row of the `order_items` table: one SKU on one order.
#[derive(Debug)]
pub struct OrderItemModel {
    pub id: i32,
    pub order_goods_id: i32,
    pub order_id: i32,
    pub sku_id: i32,
    pub count: i32,
    pub unit: Option<String>,
    pub unit_price: Option<i32>,
    pub total_price: Option<i32>,
    pub notes_images: Vec<String>,
    pub notes: String,
}

/// An item of an order, with its texts taken as character sequences.
pub struct OrderItemView {
    pub id: i32,
    pub order_goods_id: i32,
    pub order_id: i32,
    pub sku_id: i32,
    pub count: i32,
    pub unit: Option<Seq<char>>,
    pub unit_price: Option<i32>,
    pub total_price: Option<i32>,
    pub notes_images: Seq<Seq<char>>,
    pub notes: Seq<char>,
}

impl View for OrderItemModel {
    type V = OrderItemView;

    open spec fn view(&self) -> OrderItemView {
        OrderItemView {
            id: self.id,
            order_goods_id: self.order_goods_id,
            order_id: self.order_id,
            sku_id: self.sku_id,
            count: self.count,
            unit: opt_view(self.unit),
            unit_price: self.unit_price,
            total_price: self.total_price,
            notes_images: strings_view(self.notes_images),
            notes: self.notes@,
        }
    }
}

/// The style of goods that a group of spreadsheet rows describes.
#[derive(Debug)]
pub struct ExcelOrderGoods {
    pub index: i32,
    pub goods_no: String,
    pub images: Vec<String>,
    pub image_des: Option<String>,
    pub name: String,
    pub plating: String,
    pub package_card: Option<String>,
    pub package_card_des: Option<String>,
}

/// A style read from a spreadsheet, with its texts as character sequences.
pub struct ExcelOrderGoodsView {
    pub index: i32,
    pub goods_no: Seq<char>,
    pub images: Seq<Seq<char>>,
    pub image_des: Option<Seq<char>>,
    pub name: Seq<char>,
    pub plating: Seq<char>,
    pub package_card: Option<Seq<char>>,
    pub package_card_des: Option<Seq<char>>,
}

impl View for ExcelOrderGoods {
    type V = ExcelOrderGoodsView;

    open spec fn view(&self) -> ExcelOrderGoodsView {
        ExcelOrderGoodsView {
            index: self.index,
            goods_no: self.goods_no@,
            images: strings_view(self.images),
            image_des: opt_view(self.image_des),
            name: self.name@,
            plating: self.plating@,
            package_card: opt_view(self.package_card),
            package_card_des: opt_view(self.package_card_des),
        }
    }
}

impl Clone for ExcelOrderGoods {
    fn clone(&self) -> (r: Self)
        ensures
            r@ == self@,
    {
        ExcelOrderGoods {
            index: self.index,
            goods_no: self.goods_no.clone(),
            images: clone_strings(&self.images),
            image_des: clone_opt_string(&self.image_des),
            name: self.name.clone(),
            plating: self.plating.clone(),
            package_card: clone_opt_string(&self.package_card),
            package_card_des: clone_opt_string(&self.package_card_des),
        }
    }
}

/// The per-colour part of a spreadsheet row.
#[derive(Debug)]
pub struct ExcelOrderItems {
    pub color: String,
    pub color_2: Option<String>,
    pub size: Option<String>,
    pub barcode: Option<String>,
    pub count: i32,
    pub purchase_price: Option<i32>,
    pub unit: Option<String>,
    pub unit_price: Option<i32>,
    pub total_price: Option<i32>,
    pub notes: Option<String>,
}

/// A style of goods together with the spreadsheet rows of its colours.
#[derive(Debug)]
pub struct ExcelOrderGoodsWithItems {
    pub goods: ExcelOrderGoods,
    pub items: Vec<OrderItemExcel>,
}

/// A style with its rows, texts taken as character sequences.
pub struct GoodsGroupView {
    pub goods: ExcelOrderGoodsView,
    pub items: Seq<OrderItemExcelView>,
}

impl View for ExcelOrderGoodsWithItems {
    type V = GoodsGroupView;

    open spec fn view(&self) -> GoodsGroupView {
        GoodsGroupView { goods: self.goods@, items: items_view(self.items@) }
    }
}

pub open spec fn groups_view(v: Seq<ExcelOrderGoodsWithItems>) -> Seq<GoodsGroupView> {
    v.map_values(|g: ExcelOrderGoodsWithItems| g@)
}

/// An imported order spreadsheet: the header, its goods and whether the
/// order was already known.
#[derive(Debug)]
pub struct ExcelOrderV2 {
    pub info: OrderInfo,
    pub items: Vec<ExcelOrderGoodsWithItems>,
    pub exists: bool,
}

/// An imported order spreadsheet as a flat list of rows.
#[derive(Debug)]
pub struct ExcelOrder {
    pub info: OrderInfo,
    pub items: Vec<OrderItemExcel>,
    pub exists: bool,
}

/// The header of an order spreadsheet.
#[derive(Debug)]
pub struct OrderInfo {
    pub customer_no: String,
    pub order_no: String,
    pub order_date: Date,
    pub delivery_date: Option<Date>,
    pub is_return_order: bool,
    pub is_urgent: bool,
    pub is_special: bool,
    pub special_customer: String,
}

/// An order header with its texts taken as character sequences.
pub struct OrderInfoView {
    pub customer_no: Seq<char>,
    pub order_no: Seq<char>,
    pub order_date: Date,
    pub delivery_date: Option<Date>,
    pub is_return_order: bool,
    pub is_urgent: bool,
    pub is_special: bool,
    pub special_customer: Seq<char>,
}

impl View for OrderInfo {
    type V = OrderInfoView;

    open spec fn view(&self) -> OrderInfoView {
        OrderInfoView {
            customer_no: self.customer_no@,
            order_no: self.order_no@,
            order_date: self.order_date,
            delivery_date: self.delivery_date,
            is_return_order: self.is_return_order,
            is_urgent: self.is_urgent,
            is_special: self.is_special,
            special_customer: self.special_customer@,
        }
    }
}

impl OrderInfo {
    /// The header before any cell has been read.
    pub open spec fn default_view() -> OrderInfoView {
        OrderInfoView {
            customer_no: Seq::empty(),
            order_no: Seq::empty(),
            order_date: Date::spec_epoch(),
            delivery_date: None,
            is_return_order: false,
            is_urgent: false,
            is_special: false,
            special_customer: Seq::empty(),
        }
    }
}

impl Default for OrderInfo {
    fn default() -> (r: Self)
        ensures
            r@ == OrderInfo::default_view(),
    {
        let r = OrderInfo {
            customer_no: String::new(),
            order_no: String::new(),
            order_date: Date::epoch(),
            delivery_date: None,
            is_return_order: false,
            is_urgent: false,
            is_special: false,
            special_customer: String::new(),
        };
        assert(r@ =~= OrderInfo::default_view());
        r
    }
}

/// One row of an order spreadsheet.
#[derive(Debug)]
pub struct OrderItemExcel {
    pub index: i32,
    pub package_card: Option<String>,
    pub package_card_des: Option<String>,
    pub goods_no: String,
    pub sku_no: Option<String>,
    pub images: Vec<String>,
    pub image_des: Option<String>,
    pub name: String,
    pub plating: String,
    pub color: String,
    pub color_2: Option<String>,
    pub size: Option<String>,
    pub barcode: Option<String>,
    pub count: i32,
    pub purchase_price: Option<i32>,
    pub unit: Option<String>,
    pub unit_price: Option<i32>,
    pub total_price: Option<i32>,
    pub notes_images: Vec<String>,
    pub notes: Option<String>,
}

/// The character sequences of an optional text.
pub open spec fn opt_view(o: Option<String>) -> Option<Seq<char>> {
    match o {
        Some(s) => Some(s@),
        None => None,
    }
}

/// The character sequences of a list of texts.
pub open spec fn strings_view(v: Vec<String>) -> Seq<Seq<char>> {
    v@.map_values(|s: String| s@)
}

/// A spreadsheet row with its texts taken as character sequences.
pub struct OrderItemExcelView {
    pub index: i32,
    pub package_card: Option<Seq<char>>,
    pub package_card_des: Option<Seq<char>>,
    pub goods_no: Seq<char>,
    pub sku_no: Option<Seq<char>>,
    pub images: Seq<Seq<char>>,
    pub image_des: Option<Seq<char>>,
    pub name: Seq<char>,
    pub plating: Seq<char>,
    pub color: Seq<char>,
    pub color_2: Option<Seq<char>>,
    pub size: Option<Seq<char>>,
    pub barcode: Option<Seq<char>>,
    pub count: i32,
    pub purchase_price: Option<i32>,
    pub unit: Option<Seq<char>>,
    pub unit_price: Option<i32>,
    pub total_price: Option<i32>,
    pub notes_images: Seq<Seq<char>>,
    pub notes: Option<Seq<char>>,
}

impl View for OrderItemExcel {
    type V = OrderItemExcelView;

    open spec fn view(&self) -> OrderItemExcelView {
        OrderItemExcelView {
            index: self.index,
            package_card: opt_view(self.package_card),
            package_card_des: opt_view(self.package_card_des),
            goods_no: self.goods_no@,
            sku_no: opt_view(self.sku_no),
            images: strings_view(self.images),
            image_des: opt_view(self.image_des),
            name: self.name@,
            plating: self.plating@,
            color: self.color@,
            color_2: opt_view(self.color_2),
            size: opt_view(self.size),
            barcode: opt_view(self.barcode),
            count: self.count,
            purchase_price: self.purchase_price,
            unit: opt_view(self.unit),
            unit_price: self.unit_price,
            total_price: self.total_price,
            notes_images: strings_view(self.notes_images),
            notes: opt_view(self.notes),
        }
    }
}

impl OrderItemExcel {
    /// A row before any cell has been read into it.
    pub open spec fn default_view() -> OrderItemExcelView {
        OrderItemExcelView {
            index: 0,
            package_card: None,
            package_card_des: None,
            goods_no: Seq::empty(),
            sku_no: None,
            images: Seq::empty(),
            image_des: None,
            name: Seq::empty(),
            plating: Seq::empty(),
            color: Seq::empty(),
            color_2: None,
            size: None,
            barcode: None,
            count: 0,
            purchase_price: None,
            unit: None,
            unit_price: None,
            total_price: None,
            notes_images: Seq::empty(),
            notes: None,
        }
    }
}

impl Default for OrderItemExcel {
    fn default() -> (r: Self)
        ensures
            r@ == OrderItemExcel::default_view(),
    {
        let r = OrderItemExcel {
            index: 0,
            package_card: None,
            package_card_des: None,
            goods_no: String::new(),
            sku_no: None,
            images: Vec::new(),
            image_des: None,
            name: String::new(),
            plating: String::new(),
            color: String::new(),
            color_2: None,
            size: None,
            barcode: None,
            count: 0,
            purchase_price: None,
            unit: None,
            unit_price: None,
            total_price: None,
            notes_images: Vec::new(),
            notes: None,
        };
        assert(strings_view(r.images) =~= Seq::empty());
        assert(strings_view(r.notes_images) =~= Seq::empty());
        assert(r@ =~= OrderItemExcel::default_view());
        r
    }
}

impl Clone for OrderItemExcel {
    fn clone(&self) -> (r: Self)
        ensures
            r@ == self@,
    {
        OrderItemExcel {
            index: self.index,
            package_card: clone_opt_string(&self.package_card),
            package_card_des: clone_opt_string(&self.package_card_des),
            goods_no: self.goods_no.clone(),
            sku_no: clone_opt_string(&self.sku_no),
            images: clone_strings(&self.images),
            image_des: clone_opt_string(&self.image_des),
            name: self.name.clone(),
            plating: self.plating.clone(),
            color: self.color.clone(),
            color_2: clone_opt_string(&self.color_2),
            size: clone_opt_string(&self.size),
            barcode: clone_opt_string(&self.barcode),
            count: self.count,
            purchase_price: self.purchase_price,
            unit: clone_opt_string(&self.unit),
            unit_price: self.unit_price,
            total_price: self.total_price,
            notes_images: clone_strings(&self.notes_images),
            notes: clone_opt_string(&self.notes),
        }
    }
}

/// A row of the `order_item_materials` table.
#[derive(Debug)]
pub struct OrderItemMaterialModel {
    pub id: i32,
    pub order_id: i32,
    pub order_item_id: i32,
    pub name: String,
    pub color: String,
    pub single: Option<i32>,
    pub count: i32,
    pub total: Option<i32>,
    pub stock: Option<i32>,
    pub debt: Option<i32>,
    pub notes: Option<String>,
}

/// The rows of a list, each taken by its view.
pub open spec fn items_view(v: Seq<OrderItemExcel>) -> Seq<OrderItemExcelView> {
    v.map_values(|it: OrderItemExcel| it@)
}

/// How many rows of `items` carry the goods number `g`.
pub open spec fn count_goods_no(items: Seq<OrderItemExcelView>, g: Seq<char>) -> nat
    decreases items.len(),
{
    if items.len() == 0 {
        0
    } else {
        count_goods_no(items.drop_last(), g) + if items.last().goods_no == g {
            1nat
        } else {
            0nat
        }
    }
}

/// Among the first `n` rows, the non-empty goods number carried by the
/// most rows of `items` (the earliest one on a tie) and that number of rows.
pub open spec fn best_goods_no(items: Seq<OrderItemExcelView>, n: int) -> (Seq<char>, nat)
    decreases n,
{
    if n <= 0 {
        (Seq::empty(), 0)
    } else {
        let b = best_goods_no(items, n - 1);
        let g = items[n - 1].goods_no;
        if g.len() > 0 && count_goods_no(items, g) > b.1 {
            (g, count_goods_no(items, g))
        } else {
            b
        }
    }
}

proof fn lemma_count_occurs(items: Seq<OrderItemExcelView>, g: Seq<char>)
    requires
        count_goods_no(items, g) > 0,
    ensures
        exists|j: int| 0 <= j < items.len() && (#[trigger] items[j]).goods_no == g,
    decreases items.len(),
{
    if items.last().goods_no != g {
        lemma_count_occurs(items.drop_last(), g);
        let j = choose|j: int| 0 <= j < items.drop_last().len() && (#[trigger] items.drop_last()[j]).goods_no == g;
        assert(items[j] == items.drop_last()[j]);
    } else {
        assert(items[items.len() - 1] == items.last());
    }
}

proof fn lemma_best_goods_no(items: Seq<OrderItemExcelView>, n: int)
    requires
        0 <= n <= items.len(),
    ensures
        best_goods_no(items, n).0.len() > 0 ==> best_goods_no(items, n).1 == count_goods_no(
            items,
            best_goods_no(items, n).0,
        ),
        best_goods_no(items, n).0.len() == 0 ==> best_goods_no(items, n).1 == 0,
        forall|j: int|
            0 <= j < n && (#[trigger] items[j]).goods_no.len() > 0 ==> count_goods_no(
                items,
                items[j].goods_no,
            ) <= best_goods_no(items, n).1,
    decreases n,
{
    if n > 0 {
        lemma_best_goods_no(items, n - 1);
    }
}

/// The goods number a group of rows is filed under is carried by at least
/// as many of its rows as any other non-empty goods number; it is empty
/// only when no row carries one.
pub proof fn lemma_picked_goods_no_most_common(items: Seq<OrderItemExcelView>, g: Seq<char>)
    requires
        g.len() > 0,
    ensures
        count_goods_no(items, g) <= count_goods_no(items, picked_goods_no(items)),
        picked_goods_no(items).len() == 0 ==> count_goods_no(items, g) == 0,
{
    lemma_best_goods_no(items, items.len() as int);
    let b = best_goods_no(items, items.len() as int);
    if count_goods_no(items, g) > 0 {
        lemma_count_occurs(items, g);
        let j = choose|j: int| 0 <= j < items.len() && (#[trigger] items[j]).goods_no == g;
        assert(count_goods_no(items, items[j].goods_no) <= b.1);
    }
}

/// The goods number that a group of rows is filed under.
pub open spec fn picked_goods_no(items: Seq<OrderItemExcelView>) -> Seq<char> {
    best_goods_no(items, items.len() as int).0
}

/// A style with only its goods number known.
pub open spec fn goods_init(goods_no: Seq<char>) -> ExcelOrderGoodsView {
    ExcelOrderGoodsView {
        index: 0,
        goods_no,
        images: Seq::empty(),
        image_des: None,
        name: Seq::empty(),
        plating: Seq::empty(),
        package_card: None,
        package_card_des: None,
    }
}

/// Each property of the style is taken from the first row that has it.
pub open spec fn absorb(g: ExcelOrderGoodsView, it: OrderItemExcelView) -> ExcelOrderGoodsView {
    ExcelOrderGoodsView {
        index: if g.index == 0 && it.index > 0 {
            it.index
        } else {
            g.index
        },
        goods_no: g.goods_no,
        images: if g.images.len() == 0 && it.images.len() > 0 {
            it.images
        } else {
            g.images
        },
        image_des: if g.image_des is None && it.image_des is Some {
            it.image_des
        } else {
            g.image_des
        },
        name: if g.name.len() == 0 && it.name.len() > 0 {
            it.name
        } else {
            g.name
        },
        plating: if g.plating.len() == 0 && it.plating.len() > 0 {
            it.plating
        } else {
            g.plating
        },
        package_card: if g.package_card is None && it.package_card is Some {
            it.package_card
        } else {
            g.package_card
        },
        package_card_des: if g.package_card_des is None && it.package_card_des is Some {
            it.package_card_des
        } else {
            g.package_card_des
        },
    }
}

pub open spec fn absorb_all(g: ExcelOrderGoodsView, items: Seq<OrderItemExcelView>) -> ExcelOrderGoodsView
    decreases items.len(),
{
    if items.len() == 0 {
        g
    } else {
        absorb(absorb_all(g, items.drop_last()), items.last())
    }
}

/// The style that a group of rows describes.
pub open spec fn picked_goods(items: Seq<OrderItemExcelView>) -> ExcelOrderGoodsView {
    absorb_all(goods_init(picked_goods_no(items)), items)
}

/// The first packaging picture and description among the rows.
pub open spec fn first_package(items: Seq<OrderItemExcelView>) -> (Option<Seq<char>>, Option<Seq<char>>)
    decreases items.len(),
{
    if items.len() == 0 {
        (None, None)
    } else {
        let p = first_package(items.drop_last());
        let it = items.last();
        (
            if p.0 is None && it.package_card is Some {
                it.package_card
            } else {
                p.0
            },
            if p.1 is None && it.package_card_des is Some {
                it.package_card_des
            } else {
                p.1
            },
        )
    }
}

pub open spec fn seq_or_empty(o: Option<Seq<char>>) -> Seq<char> {
    match o {
        Some(s) => s,
        None => Seq::empty(),
    }
}

fn count_goods_no_exec(items: &[OrderItemExcel], g: &String) -> (r: usize)
    ensures
        r as nat == count_goods_no(items_view(items@), g@),
{
    let mut c: usize = 0;
    let mut i: usize = 0;
    while i < items.len()
        invariant
            i <= items@.len(),
            c as nat == count_goods_no(items_view(items@).take(i as int), g@),
            c <= i,
        decreases items.len() - i,
    {
        assert(items_view(items@).take(i + 1).drop_last() =~= items_view(items@).take(i as int));
        if items[i].goods_no == *g {
            c = c + 1;
        }
        i = i + 1;
    }
    assert(items_view(items@).take(items@.len() as int) =~= items_view(items@));
    c
}

impl OrderItemExcel {
    /// The goods number that most rows carry, leaving empty ones aside
    /// (the earliest such number on a tie); the empty string when no row
    /// has one.
    pub fn pick_up_goods_no(items: &[OrderItemExcel]) -> (r: Option<String>)
        ensures
            r is Some,
            r.unwrap()@ == picked_goods_no(items_view(items@)),
    {
        let ghost iv = items_view(items@);
        let mut best = String::new();
        let mut best_count: usize = 0;
        let mut i: usize = 0;
        while i < items.len()
            invariant
                iv == items_view(items@),
                i <= items@.len(),
                (best@, best_count as nat) == best_goods_no(iv, i as int),
            decreases items.len() - i,
        {
            if items[i].goods_no.unicode_len() > 0 {
                let c = count_goods_no_exec(items, &items[i].goods_no);
                if c > best_count {
                    best = items[i].goods_no.clone();
                    best_count = c;
                }
            }
            i = i + 1;
        }
        Some(best)
    }

    /// The style of a group of rows: its goods number, and each other
    /// property from the first row that has it.
    pub fn pick_up_excel_goods(items: &Vec<OrderItemExcel>) -> (r: ExcelOrderGoods)
        ensures
            r@ == picked_goods(items_view(items@)),
    {
        let ghost iv = items_view(items@);
        let goods_no = match OrderItemExcel::pick_up_goods_no(items.as_slice()) {
            Some(g) => g,
            None => String::new(),
        };
        let mut goods = ExcelOrderGoods {
            index: 0,
            goods_no,
            images: Vec::new(),
            image_des: None,
            name: String::new(),
            plating: String::new(),
            package_card: None,
            package_card_des: None,
        };
        assert(strings_view(goods.images) =~= Seq::empty());
        assert(goods@ =~= goods_init(picked_goods_no(iv)));
        assert(iv.take(0) =~= Seq::<OrderItemExcelView>::empty());
        let mut i: usize = 0;
        while i < items.len()
            invariant
                iv == items_view(items@),
                i <= items@.len(),
                goods@ == absorb_all(goods_init(picked_goods_no(iv)), iv.take(i as int)),
            decreases items.len() - i,
        {
            let item = &items[i];
            if goods.index == 0 && item.index > 0 {
                goods.index = item.index;
            }
            if goods.images.len() == 0 && item.images.len() > 0 {
                goods.images = clone_strings(&item.images);
            }
            if goods.image_des.is_none() && item.image_des.is_some() {
                goods.image_des = clone_opt_string(&item.image_des);
            }
            if goods.name.unicode_len() == 0 && item.name.unicode_len() > 0 {
                goods.name = item.name.clone();
            }
            if goods.plating.unicode_len() == 0 && item.plating.unicode_len() > 0 {
                goods.plating = item.plating.clone();
            }
            if goods.package_card.is_none() && item.package_card.is_some() {
                goods.package_card = clone_opt_string(&item.package_card);
            }
            if goods.package_card_des.is_none() && item.package_card_des.is_some() {
                goods.package_card_des = clone_opt_string(&item.package_card_des);
            }
            assert(iv.take(i + 1).drop_last() =~= iv.take(i as int));
            assert(goods@ =~= absorb(
                absorb_all(goods_init(picked_goods_no(iv)), iv.take(i as int)),
                iv[i as int],
            ));
            i = i + 1;
        }
        assert(iv.take(items@.len() as int) =~= iv);
        goods
    }

    /// The first packaging picture and the first packaging description
    /// among the rows, each the empty string when no row has one.
    pub fn pick_up_package(items: &Vec<OrderItemExcel>) -> (r: (String, String))
        ensures
            r.0@ == seq_or_empty(first_package(items_view(items@)).0),
            r.1@ == seq_or_empty(first_package(items_view(items@)).1),
    {
        let ghost iv = items_view(items@);
        let mut package_card: Option<String> = None;
        let mut package_card_des: Option<String> = None;
        let mut i: usize = 0;
        while i < items.len()
            invariant
                iv == items_view(items@),
                i <= items@.len(),
                (opt_view(package_card), opt_view(package_card_des)) == first_package(
                    iv.take(i as int),
                ),
            decreases items.len() - i,
        {
            if package_card.is_none() && items[i].package_card.is_some() {
                package_card = clone_opt_string(&items[i].package_card);
            }
            if package_card_des.is_none() && items[i].package_card_des.is_some() {
                package_card_des = clone_opt_string(&items[i].package_card_des);
            }
            assert(iv.take(i + 1).drop_last() =~= iv.take(i as int));
            i = i + 1;
        }
        assert(iv.take(items@.len() as int) =~= iv);
        let a = match package_card {
            Some(s) => s,
            None => String::new(),
        };
        let b = match package_card_des {
            Some(s) => s,
            None => String::new(),
        };
        (a, b)
    }
}

} // verus!
