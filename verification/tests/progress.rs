use erp_api::common::datetime::Timestamp;
use erp_api::handler::routes_progress::{
    check_revoke_permission, check_step_permission, goods_current_step, item_current_step,
    mark_missing_err, mark_target, mark_target_missing_err, progress_rows, progress_steps_fit,
    MarkProgressParam, MarkTarget,
};
use erp_api::model::progress::ProgressModel;

fn p(id: i32, item: i32, step: i32, index: i32) -> ProgressModel {
    ProgressModel {
        id,
        order_item_id: item,
        step,
        index,
        account_id: 1,
        done: index == 2,
        notes: String::new(),
        dt: Timestamp { secs: 1, nanos: 0 },
    }
}

#[test]
fn a_mark_needs_a_target_and_an_index() {
    let none = MarkProgressParam { order_goods_id: None, order_item_id: Some(0), index: 1, notes: String::new() };
    assert_eq!(mark_target(&none).unwrap_err().message(), "parameter lost: \"order_goods_id/order_item_id\"");
    let no_index = MarkProgressParam { order_goods_id: Some(3), order_item_id: None, index: 0, notes: String::new() };
    assert_eq!(mark_target(&no_index).unwrap_err().message(), "请选择正确的流程");
    let goods = MarkProgressParam { order_goods_id: Some(3), order_item_id: Some(4), index: 1, notes: String::new() };
    assert_eq!(mark_target(&goods).unwrap(), MarkTarget::Goods(3));
    let item = MarkProgressParam { order_goods_id: None, order_item_id: Some(4), index: 2, notes: String::new() };
    assert_eq!(mark_target(&item).unwrap(), MarkTarget::Item(4));
}

#[test]
fn next_step_of_an_item() {
    assert_eq!(item_current_step(&None), 1);
    assert_eq!(item_current_step(&Some(p(1, 1, 3, 1))), 3);
    assert_eq!(item_current_step(&Some(p(1, 1, 3, 2))), 4);
}

#[test]
fn all_items_of_a_style_must_stand_at_one_step() {
    let marks = vec![p(1, 10, 1, 2), p(2, 11, 2, 1)];
    assert_eq!(goods_current_step(&vec![10, 11], &marks).unwrap(), 2);
    // item 12 has no mark and stands at step 1
    assert_eq!(
        goods_current_step(&vec![10, 11, 12], &marks).unwrap_err().message(),
        "该产品的所有颜色，不在同一个流程下，请单独处理"
    );
    assert_eq!(
        goods_current_step(&vec![], &marks).unwrap_err().message(),
        "Not Found: \"该商品下无添加任何颜色/款式\""
    );
}

#[test]
fn permissions_follow_the_account_steps() {
    assert!(check_step_permission(&vec![1, 2], 2).is_ok());
    assert_eq!(
        check_step_permission(&vec![1, 2], 3).unwrap_err().message(),
        "当前的状态并不是你可以修改的"
    );
    assert_eq!(check_revoke_permission(&vec![], 1).unwrap_err().message(), "无操作权限");
}

#[test]
fn one_mark_per_item() {
    let rows = progress_rows(&vec![5, 6], 3, 2, 9, &"ok".to_string(), Timestamp { secs: 7, nanos: 1 });
    assert_eq!(rows.len(), 2);
    assert_eq!(rows[1].order_item_id, 6);
    assert_eq!(rows[0].step, 3);
    assert!(rows[0].done);
    assert_eq!(rows[0].account_id, 9);
    assert_eq!(rows[0].notes, "ok");
    assert_eq!(rows[0].dt, Timestamp { secs: 7, nanos: 1 });
}

#[test]
fn where_the_items_of_orders_stand() {
    let item_orders = vec![(10, 1), (11, 1), (12, 2)];
    let latest = vec![p(1, 10, 2, 1)];
    let m = ProgressModel::progress_status(&vec![1, 2, 3], &item_orders, &latest);
    assert_eq!(m.len(), 3);
    let o1 = m.get(&1).unwrap();
    assert_eq!(o1.get(2, 1), Some(1));
    assert_eq!(o1.get(1, 0), Some(1));
    assert_eq!(m.get(&2).unwrap().get(1, 0), Some(1));
    assert_eq!(m.get(&3).unwrap().len(), 0);
    let none = ProgressModel::progress_status(&vec![1], &vec![], &latest);
    assert_eq!(none.len(), 0);
}

#[test]
fn only_a_finished_last_mark_at_the_last_step_overflows() {
    assert!(progress_steps_fit(&vec![]));
    assert!(progress_steps_fit(&vec![p(1, 10, i32::MAX, 1), p(2, 11, 3, 2)]));
    // a later mark on the same item replaces the finished one
    assert!(progress_steps_fit(&vec![p(1, 10, i32::MAX, 2), p(2, 10, 1, 1)]));
    assert!(!progress_steps_fit(&vec![p(1, 10, 1, 1), p(2, 10, i32::MAX, 2)]));
}

#[test]
fn unknown_marks_and_targets_are_reported() {
    assert_eq!(mark_missing_err().message(), "Not Found: \"该流程不存在\"");
    assert_eq!(mark_target_missing_err().message(), "Not Found: \"订单商品不存在\"");
}
