use erp_api::excel::process_order_excel_goods::{
    goods_nos_of, goods_to_add, order_goods_ids_of, order_goods_to_add, order_items_to_add,
    skus_to_add_by_color,
};
use erp_api::excel::process_order_excel_goods_no_with_sku_no::skus_to_add_by_sku_no;
use erp_api::common::assoc::{text_id_or_zero, text_ids};
use erp_api::model::goods::SKUModel;
use erp_api::model::order::{ExcelOrderGoods, ExcelOrderGoodsWithItems, OrderGoodsModel, OrderItemExcel};

fn row(goods_no: &str, color: &str, sku_no: Option<&str>, count: i32) -> OrderItemExcel {
    let mut it = OrderItemExcel::default();
    it.goods_no = goods_no.to_string();
    it.color = color.to_string();
    it.sku_no = sku_no.map(|s| s.to_string());
    it.count = count;
    it
}

fn style(index: i32, goods_no: &str, rows: Vec<OrderItemExcel>) -> ExcelOrderGoodsWithItems {
    ExcelOrderGoodsWithItems {
        goods: ExcelOrderGoods {
            index,
            goods_no: goods_no.to_string(),
            images: vec!["img".to_string()],
            image_des: None,
            name: "n".to_string(),
            plating: "p".to_string(),
            package_card: Some("pc".to_string()),
            package_card_des: None,
        },
        items: rows,
    }
}

fn sku(id: i32, goods_id: i32, color: &str, sku_no: &str) -> SKUModel {
    SKUModel {
        id,
        goods_id,
        sku_no: sku_no.to_string(),
        color: color.to_string(),
        color2: String::new(),
        notes: None,
    }
}

fn groups() -> Vec<ExcelOrderGoodsWithItems> {
    vec![
        style(1, "A", vec![row("A", "红", Some("A-R"), 2), row("A", "蓝", None, 3)]),
        style(2, "B", vec![row("B", "黑", None, 1)]),
    ]
}

#[test]
fn unknown_goods_are_added() {
    let gs = groups();
    assert_eq!(goods_nos_of(&gs), vec!["A".to_string(), "B".to_string()]);
    let known = vec![("A".to_string(), 11)];
    let add = goods_to_add(&gs, &known);
    assert_eq!(add.len(), 1);
    assert_eq!(add[0].goods_no, "B");
    let mut all = known.clone();
    all.push(("B".to_string(), 12));
    all.push(("A".to_string(), 13));
    assert_eq!(text_id_or_zero(&all, &"A".to_string()), 13);
    assert_eq!(text_id_or_zero(&all, &"C".to_string()), 0);
    assert_eq!(text_ids(&all), vec![13, 12]);
}

#[test]
fn unknown_colours_become_skus() {
    let gs = groups();
    let known = vec![("A".to_string(), 11), ("B".to_string(), 12)];
    let skus = vec![sku(100, 11, "红", "A-R")];
    let add = skus_to_add_by_color(&gs, &known, &skus);
    assert_eq!(add.len(), 2);
    assert_eq!((add[0].goods_id, add[0].color.as_str()), (11, "蓝"));
    assert_eq!((add[1].goods_id, add[1].color.as_str()), (12, "黑"));
    assert_eq!(add[0].id, 0);
    let by_no = skus_to_add_by_sku_no(&gs, &known, &skus);
    // rows without a SKU number count as the empty number, unknown here
    assert_eq!(by_no.len(), 2);
    assert_eq!(by_no[0].sku_no, "");
}

#[test]
fn order_goods_and_items_are_added_once() {
    let gs = groups();
    let known = vec![("A".to_string(), 11), ("B".to_string(), 12)];
    let existing = vec![OrderGoodsModel {
        id: 50,
        index: 1,
        images: vec![],
        image_des: String::new(),
        package_card: String::new(),
        package_card_des: String::new(),
        order_id: 9,
        goods_id: 11,
    }];
    let add = order_goods_to_add(&gs, &known, &existing, 2, 9);
    assert_eq!(add.len(), 1);
    assert_eq!(add[0].goods_id, 12);
    assert_eq!(add[0].package_card, "pc");
    assert_eq!(add[0].images, vec!["img".to_string()]);
    assert!(order_goods_to_add(&gs, &known, &existing, 1, 9).is_empty());
    let mut all_og = existing;
    all_og.push(OrderGoodsModel {
        id: 51,
        index: 2,
        images: vec![],
        image_des: String::new(),
        package_card: String::new(),
        package_card_des: String::new(),
        order_id: 9,
        goods_id: 12,
    });
    assert_eq!(order_goods_ids_of(&all_og), vec![50, 51]);
    let skus = vec![sku(100, 11, "红", "A-R"), sku(101, 11, "蓝", ""), sku(102, 12, "黑", "")];
    let items = order_items_to_add(&gs, &known, &skus, &all_og, &vec![100], 9);
    assert_eq!(items.len(), 2);
    assert_eq!((items[0].order_goods_id, items[0].sku_id, items[0].count), (50, 101, 3));
    assert_eq!((items[1].order_goods_id, items[1].sku_id), (51, 102));
    assert_eq!(items[0].unit, Some(String::new()));
    assert_eq!(items[0].unit_price, Some(0));
}

#[test]
fn a_second_import_adds_no_goods_or_skus() {
    let gs = groups();
    let mut known = vec![("A".to_string(), 11)];
    let new_goods = goods_to_add(&gs, &known);
    // the store gives the new style an id
    for (i, g) in new_goods.iter().enumerate() {
        known.push((g.goods_no.clone(), 20 + i as i32));
    }
    assert!(goods_to_add(&gs, &known).is_empty());

    let mut skus = vec![sku(100, 11, "红", "A-R")];
    let new_skus = skus_to_add_by_color(&gs, &known, &skus);
    assert_eq!(new_skus.len(), 2);
    for (i, s) in new_skus.iter().enumerate() {
        skus.push(sku(200 + i as i32, s.goods_id, &s.color, &s.sku_no));
    }
    assert!(skus_to_add_by_color(&gs, &known, &skus).is_empty());
}

#[test]
fn a_second_import_adds_no_order_goods_or_items() {
    let gs = groups();
    let known = vec![("A".to_string(), 11), ("B".to_string(), 12)];
    let mut order_goods: Vec<OrderGoodsModel> = vec![];
    let new_og = order_goods_to_add(&gs, &known, &order_goods, 2, 9);
    assert_eq!(new_og.len(), 2);
    for (i, mut og) in new_og.into_iter().enumerate() {
        og.id = 60 + i as i32;
        order_goods.push(og);
    }
    // with no goods count to stop at, the styles still find their order goods
    assert!(order_goods_to_add(&gs, &known, &order_goods, 3, 9).is_empty());

    let skus = vec![sku(100, 11, "红", "A-R"), sku(101, 11, "蓝", ""), sku(102, 12, "黑", "")];
    let mut held: Vec<i32> = vec![];
    let new_items = order_items_to_add(&gs, &known, &skus, &order_goods, &held, 9);
    assert_eq!(new_items.len(), 3);
    held.extend(new_items.iter().map(|it| it.sku_id));
    assert!(order_items_to_add(&gs, &known, &skus, &order_goods, &held, 9).is_empty());
}
