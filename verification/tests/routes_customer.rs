use erp_api::handler::routes_customer::{
    check_customer_update, customer_exists_err, customer_not_found_err, CreateCustomerParam,
    ListCustomerParam, UpdateCustomerParam,
};
use erp_api::handler::ListParamTrait;

#[test]
fn routes_customer_test() {}

#[test]
fn customer_listing_sql() {
    let p = ListCustomerParam {
        name: Some("张".to_string()),
        customer_no: Some("L1".to_string()),
        page: Some(2),
        page_size: None,
    };
    assert_eq!(
        p.to_pagination_sql(),
        "select * from customers  where name like '%张%' and customer_no='L1' order by id desc offset 50 limit 50;"
    );
    assert_eq!(
        p.to_count_sql(),
        "select count(1) from customers  where name like '%张%' and customer_no='L1';"
    );
    let all = ListCustomerParam { name: None, customer_no: None, page: None, page_size: None };
    assert_eq!(all.to_count_sql(), "select count(1) from customers ;");
}

#[test]
fn create_customer_sql() {
    let p = CreateCustomerParam {
        customer_no: "L9".to_string(),
        name: Some("n".to_string()),
        address: None,
        phone: Some("1".to_string()),
        notes: None,
    };
    assert_eq!(
        p.to_sql(),
        "insert into customers (customer_no, name, address, phone, notes) values ('L9', 'n', '', '1', '')"
    );
}

#[test]
fn update_customer_sql() {
    let p = UpdateCustomerParam {
        id: 4,
        customer_no: "L9".to_string(),
        name: "n".to_string(),
        address: Some(String::new()),
        phone: None,
        notes: Some("x".to_string()),
    };
    assert_eq!(
        p.to_sql(),
        "update customers set customer_no='L9',name='n',address='',notes='x' where id = 4;"
    );
}

#[test]
fn customer_refusals() {
    assert_eq!(customer_exists_err("L1").message(), "data already exists: \"客户ID#L1已存在\"");
    assert_eq!(customer_not_found_err(7).message(), "Not Found: \"Customer#7\"");
    assert!(check_customer_update("L1", "L1", true).is_ok());
    assert!(check_customer_update("L1", "L2", false).is_ok());
    let e = check_customer_update("L1", "L2", true).unwrap_err();
    assert_eq!(e.message(), "collision: L2 已存在");
}
