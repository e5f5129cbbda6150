use erp_api::common::datetime::{Date, Timestamp};
use erp_api::dto::dto_orders::{OrderDto, OrderGoodsDto, OrderGoodsItemDto, StepIndexCountUF};
use erp_api::dto::dto_progress::OneProgress;
use erp_api::dto::step_count::StepIndexCount;
use erp_api::handler::order_items::{order_goods_dtos, progresses_fit};
use erp_api::handler::routes_order::{
    check_names_order, check_order_deletable, check_order_update, order_ref, orders_by_date,
    orders_with_steps, ListParam, OrderRef, UpdateOrderItemParam,
};
use erp_api::handler::ListParamTrait;
use erp_api::model::order::OrderModel;
use std::collections::HashMap;

fn list_param() -> ListParam {
    ListParam {
        page: None,
        page_size: None,
        customer_no: None,
        order_no: None,
        order_date_start: None,
        order_date_end: None,
        delivery_date_start: None,
        delivery_date_end: None,
        is_return_order: None,
        is_urgent: None,
        is_special: None,
        build_by: None,
        sorter_field: None,
        sorter_order: None,
    }
}

#[test]
fn order_listing_defaults() {
    let p = list_param();
    assert_eq!(p.to_pagination_sql(), "select * from orders order by id desc offset 0 limit 50;");
    assert_eq!(p.to_count_sql(), "select count(1) from orders");
}

#[test]
fn order_listing_with_conditions() {
    let mut p = list_param();
    p.customer_no = Some("L1".to_string());
    p.is_urgent = Some(true);
    p.is_special = Some(false);
    p.build_by = Some(3);
    p.order_date_start = Some("2023-01-01".to_string());
    p.order_date_end = Some("2023-02-01".to_string());
    p.delivery_date_start = Some("2023-03-01".to_string());
    p.sorter_field = Some("order_date".to_string());
    p.sorter_order = Some("ascend".to_string());
    p.page = Some(2);
    p.page_size = Some(10);
    let w = " where customer_no='L1' and is_urgent=true and build_by=3 and order_date>='2023-01-01' and order_date<='2023-02-01'";
    assert_eq!(
        p.to_pagination_sql(),
        format!("select * from orders{} order by order_date asc offset 10 limit 10;", w)
    );
    assert_eq!(p.to_count_sql(), format!("select count(1) from orders{}", w));
}

#[test]
fn order_item_sqls() {
    let p = UpdateOrderItemParam {
        id: None,
        order_id: Some(2),
        goods_id: None,
        sku_id: Some(7),
        count: 5,
        unit: None,
        unit_price: Some(3),
        total_price: None,
    };
    assert_eq!(
        p.to_insert_sql(),
        "insert into order_items (order_id,sku_id,goods_id,count,unit,unit_price) values (2,7,0,5,'',3)"
    );
    let q = UpdateOrderItemParam {
        id: Some(9),
        order_id: None,
        goods_id: None,
        sku_id: None,
        count: -1,
        unit: Some("个".to_string()),
        unit_price: None,
        total_price: Some(40),
    };
    assert_eq!(q.to_update_sql(), "update order_items set count=-1,unit='个',total_price=40 where id=9");
}

#[test]
fn order_refusals_and_references() {
    assert!(check_order_deletable(0).is_ok());
    assert_eq!(
        check_order_deletable(2).unwrap_err().message(),
        "该订单已经有流程数据，删除不合法"
    );
    assert!(matches!(order_ref(Some(3), &None), OrderRef::Id(3)));
    match order_ref(Some(0), &Some("NO1".to_string())) {
        OrderRef::OrderNo(n) => assert_eq!(n, "NO1"),
        OrderRef::Id(_) => panic!("expected an order number"),
    }
    assert!(check_names_order(None, &Some(String::new())).is_err());
    assert!(check_names_order(Some(1), &None).is_ok());
    assert_eq!(check_order_update(false, false, "x").unwrap_err().message(), "Not Found: \"该订单不存在\"");
    assert_eq!(check_order_update(true, true, "N9").unwrap_err().message(), "订单号#N9已存在");
    assert!(check_order_update(true, false, "N9").is_ok());
}

fn order(id: i32, y: i32, m: u32, d: u32) -> OrderModel {
    OrderModel {
        id,
        customer_no: "L1".to_string(),
        order_no: format!("NO{}", id),
        order_date: Date { year: y, month: m, day: d },
        delivery_date: None,
        is_urgent: false,
        is_return_order: false,
        is_special: false,
        special_customer: String::new(),
        build_by: 0,
    }
}

#[test]
fn orders_are_grouped_by_day_latest_first() {
    let orders = vec![order(1, 2023, 1, 5), order(2, 2023, 3, 1), order(3, 2023, 1, 5), order(4, 2022, 12, 31)];
    let groups = orders_by_date(&orders);
    assert_eq!(groups.len(), 3);
    assert_eq!(groups[0].date, Date { year: 2023, month: 3, day: 1 });
    assert_eq!(groups[1].date, Date { year: 2023, month: 1, day: 5 });
    assert_eq!(groups[1].orders.iter().map(|o| o.id).collect::<Vec<i32>>(), vec![1, 3]);
    assert_eq!(groups[2].orders[0].id, 4);
}

#[test]
fn step_counts_come_out_ascending() {
    let mut c = StepIndexCount::new();
    c.add_one(3, 1);
    c.add_one(1, 2);
    c.add_one(3, 0);
    c.add_one(1, 2);
    assert_eq!(c.get(1, 2), Some(2));
    assert_eq!(c.get(2, 2), None);
    assert_eq!(c.len(), 3);
    assert!(c.only_key().is_none());
    let ufs = StepIndexCountUF::from_step_index_count(c);
    let triples: Vec<(i32, i32, i32)> = ufs.iter().map(|u| (u.step, u.index, u.count)).collect();
    assert_eq!(triples, vec![(1, 2, 2), (3, 0, 1), (3, 1, 1)]);
}

fn mark(id: i32, item: i32, step: i32, index: i32, done: bool) -> OneProgress {
    OneProgress {
        id,
        order_item_id: item,
        step,
        index,
        account_id: 1,
        account_name: "a".to_string(),
        department: "d".to_string(),
        done,
        notes: String::new(),
        dt: Timestamp { secs: 0, nanos: 0 },
    }
}

fn og_item(id: i32, ogid: i32) -> OrderGoodsItemDto {
    OrderGoodsItemDto {
        id,
        order_id: 1,
        order_goods_id: ogid,
        goods_id: 10,
        sku_id: 100 + id,
        sku_no: None,
        color: "红".to_string(),
        count: 1,
        unit: None,
        unit_price: None,
        total_price: None,
        notes_images: vec![],
        notes: String::new(),
    }
}

fn og(id: i32) -> OrderGoodsDto {
    OrderGoodsDto {
        id,
        order_id: 1,
        goods_id: 10,
        goods_no: "A".to_string(),
        name: "n".to_string(),
        images: vec![],
        image_des: String::new(),
        package_card: String::new(),
        package_card_des: String::new(),
    }
}

#[test]
fn styles_with_items_at_one_step_are_marked_together() {
    let items = vec![og_item(1, 7), og_item(2, 7), og_item(3, 8)];
    let marks = vec![mark(1, 1, 2, 2, true), mark(2, 2, 2, 2, true), mark(3, 3, 1, 1, false)];
    let account_steps = vec![3];
    let out = order_goods_dtos(vec![og(7), og(8), og(9)], items, &marks, &account_steps);
    assert_eq!(out.len(), 3);
    // both items of style 7 completed step 2: the style is marked next at step 3
    assert_eq!(out[0].items.len(), 2);
    assert_eq!(out[0].current_step, 3);
    assert!(out[0].is_next_action);
    assert_eq!(out[0].steps.len(), 1);
    assert_eq!((out[0].steps[0].step, out[0].steps[0].index, out[0].steps[0].count), (2, 2, 2));
    assert_eq!(out[0].items[0].current_step, 3);
    assert!(out[0].items[0].is_next_action);
    // style 8 stands at step 1
    assert_eq!(out[1].current_step, 1);
    assert!(!out[1].is_next_action);
    // style 9 has no items
    assert_eq!(out[2].items.len(), 0);
    assert_eq!(out[2].current_step, 0);
    assert!(!out[2].is_next_action);
}

#[test]
fn styles_with_items_at_different_steps_have_no_common_step() {
    let items = vec![og_item(1, 7), og_item(2, 7)];
    let marks = vec![mark(1, 1, 2, 1, false)];
    let out = order_goods_dtos(vec![og(7)], items, &marks, &vec![1, 2]);
    assert_eq!(out[0].current_step, 0);
    assert!(!out[0].is_next_action);
    assert_eq!(out[0].steps.len(), 2);
    // the unmarked item stands at (1, 0), the other at (2, 1)
    assert_eq!((out[0].steps[0].step, out[0].steps[0].index), (1, 0));
    assert_eq!((out[0].steps[1].step, out[0].steps[1].index), (2, 1));
    assert_eq!(out[0].items[1].current_step, 1);
    assert!(out[0].items[1].is_next_action);
}

#[test]
fn orders_get_their_counts() {
    let dto = OrderDto {
        id: 5,
        customer_no: "L1".to_string(),
        order_no: "NO5".to_string(),
        order_date: Date { year: 2023, month: 1, day: 1 },
        delivery_date: None,
        is_return_order: false,
        is_urgent: false,
        is_special: false,
        special_customer: String::new(),
        build_by: 0,
    };
    let mut steps = HashMap::new();
    let mut c = StepIndexCount::new();
    c.add_one(1, 0);
    steps.insert(5, c);
    let mut done = HashMap::new();
    done.insert(5, 2);
    let out = orders_with_steps(vec![dto], &steps, &done, &HashMap::new(), &HashMap::new());
    assert_eq!(out[0].done_count, 2);
    assert_eq!(out[0].total_count, 0);
    assert_eq!(out[0].steps.len(), 1);
    assert_eq!(out[0].steps[0].count, 1);
}

#[test]
fn marks_fit_unless_a_last_one_completes_the_last_step() {
    assert!(progresses_fit(&vec![]));
    assert!(progresses_fit(&vec![mark(1, 5, i32::MAX, 1, false), mark(2, 6, 2, 2, true)]));
    assert!(progresses_fit(&vec![mark(1, 5, i32::MAX, 2, true), mark(2, 5, 1, 1, false)]));
    assert!(!progresses_fit(&vec![mark(1, 5, 1, 1, false), mark(2, 5, i32::MAX, 1, true)]));
    assert!(!progresses_fit(&vec![mark(1, 6, i32::MAX, 2, false)]));
}
