use erp_api::dto::dto_account::AccountDto;
use erp_api::dto::dto_customer::CustomerDto;
use erp_api::dto::dto_goods::{GoodsDto, SKUModelDto, SKUModelWithoutImageAndPackageDto};
use erp_api::handler::order_items::{goods_ids_of_items, plain_items_with_steps};
use erp_api::dto::dto_orders::OrderPlainItemWithoutImagesPackageDto;
use erp_api::handler::routes_login::{account_sql, check_login, department_sql};
use erp_api::handler::routes_stats::{all_goods_known, goods_stats, item_stats};
use erp_api::middleware::auth::account_id_of_cookie;
use erp_api::model::account::{AccountModel, DepartmentModel};
use erp_api::model::customer::CustomerModel;
use erp_api::model::goods::{GoodsModel, SKUModel};
use erp_api::model::order::GoodsImagesAndPackageModel;
use erp_api::model::progress::ProgressModel;
use erp_api::common::datetime::Timestamp;
use erp_api::service::goods_service::GoodsService;

fn account() -> AccountModel {
    AccountModel {
        id: 3,
        name: "张三".to_string(),
        account: "zs".to_string(),
        password: "pw".to_string(),
        department_id: 8,
    }
}

#[test]
fn login_checks_the_password() {
    assert_eq!(check_login(None, "pw").unwrap_err().message(), "Not Found: \"账号不存在\"");
    assert_eq!(check_login(Some(account()), "px").unwrap_err().message(), "密码错误");
    assert_eq!(check_login(Some(account()), "pw").unwrap().id, 3);
    assert_eq!(account_sql("zs"), "select * from accounts where account='zs'");
    assert_eq!(department_sql(8), "select * from departments where id=8");
    let dto = AccountDto::from(account(), DepartmentModel { id: 8, name: "生产".to_string() });
    assert_eq!((dto.id, dto.department_id, dto.department.as_str()), (3, 8, "生产"));
}

#[test]
fn the_cookie_names_the_account() {
    assert_eq!(account_id_of_cookie(Some("42")).unwrap(), 42);
    assert_eq!(account_id_of_cookie(Some("x1")).unwrap(), 0);
    assert_eq!(account_id_of_cookie(None).unwrap_err().message(), "not authorized");
}

#[test]
fn customers_show_missing_texts_as_empty() {
    let c = CustomerModel {
        id: 1,
        customer_no: "L1".to_string(),
        name: "n".to_string(),
        address: None,
        phone: Some("123".to_string()),
        notes: None,
    };
    let d = CustomerDto::from(c);
    assert_eq!(d.address, "");
    assert_eq!(d.phone, "123");
}

fn package(goods_id: i32, card: &str) -> GoodsImagesAndPackageModel {
    GoodsImagesAndPackageModel {
        images: vec![format!("img{}", goods_id)],
        image_des: "d".to_string(),
        package_card: card.to_string(),
        package_card_des: "pd".to_string(),
        goods_id,
    }
}

fn bare_sku(id: i32, goods_id: i32) -> SKUModelWithoutImageAndPackageDto {
    SKUModelWithoutImageAndPackageDto {
        id,
        sku_no: format!("S{}", id),
        customer_no: "L1".to_string(),
        name: "n".to_string(),
        goods_no: "G".to_string(),
        goods_id,
        plating: "p".to_string(),
        color: "c".to_string(),
        color2: String::new(),
        notes: None,
    }
}

#[test]
fn skus_get_the_last_package_of_their_goods() {
    let skus = vec![bare_sku(1, 7), bare_sku(2, 7), bare_sku(3, 8)];
    assert_eq!(GoodsService::goods_ids_of_skus(&skus), vec![7, 8]);
    let packages = vec![package(7, "old"), package(7, "new")];
    let out = GoodsService::skus_with_packages(skus, &packages);
    assert_eq!(out[0].package_card, "new");
    assert_eq!(out[0].images, vec!["img7".to_string()]);
    assert_eq!(out[2].package_card, "");
    assert!(out[2].images.is_empty());
    let goods = vec![GoodsModel {
        id: 7,
        customer_no: "L1".to_string(),
        goods_no: "G".to_string(),
        name: "n".to_string(),
        plating: "p".to_string(),
        notes: String::new(),
        images: vec![],
        package_card: String::new(),
    }];
    let g = GoodsService::goods_with_packages(goods, &packages);
    assert_eq!(g[0].package_card, "new");
    assert_eq!(g[0].count, 0);
}

fn sku_dto(id: i32, goods_id: i32) -> SKUModelDto {
    SKUModelDto {
        id,
        sku_no: format!("S{}", id),
        customer_no: "L1".to_string(),
        name: "n".to_string(),
        goods_no: "G".to_string(),
        goods_id,
        images: vec![],
        image_des: String::new(),
        package_card: String::new(),
        package_card_des: String::new(),
        plating: String::new(),
        color: "c".to_string(),
        color2: String::new(),
        notes: None,
    }
}

fn goods_dto(id: i32) -> GoodsDto {
    GoodsDto::from(
        GoodsModel {
            id,
            customer_no: "L1".to_string(),
            goods_no: "G".to_string(),
            name: "n".to_string(),
            plating: "p".to_string(),
            notes: String::new(),
            images: vec![],
            package_card: String::new(),
        },
        vec![SKUModel { id: 1, goods_id: id, sku_no: String::new(), color: "c".to_string(), color2: String::new(), notes: None }],
    )
}

#[test]
fn returned_goods_statistics() {
    let goods = vec![goods_dto(7)];
    assert_eq!(goods[0].count, 1);
    let skus = vec![sku_dto(1, 7), sku_dto(2, 8), sku_dto(3, 7)];
    let goods_rows = vec![(7, (4, 20))];
    assert!(all_goods_known(&goods_rows, &goods));
    assert!(!all_goods_known(&vec![(7, (1, 1)), (8, (1, 1))], &goods));
    let sku_rows = vec![(3, (2, 9)), (9, (1, 1))];
    let stats = goods_stats(&goods_rows, &goods, &skus, &sku_rows);
    assert_eq!(stats.len(), 1);
    assert_eq!((stats[0].count, stats[0].sum), (4, 20));
    assert_eq!(stats[0].skus.len(), 2);
    assert_eq!((stats[0].skus[0].sku.id, stats[0].skus[0].count), (1, 0));
    assert_eq!((stats[0].skus[1].sku.id, stats[0].skus[1].count, stats[0].skus[1].sum), (3, 2, 9));
    let items = item_stats(&sku_rows, &skus);
    // SKU 9 is unknown and left out
    assert_eq!(items.len(), 1);
    assert_eq!((items[0].sku.id, items[0].count), (3, 2));
}

#[test]
fn plain_items_carry_where_they_stand() {
    let it = |id: i32, goods_id: i32| OrderPlainItemWithoutImagesPackageDto {
        id,
        order_id: 1,
        goods_id,
        goods_no: "G".to_string(),
        name: "n".to_string(),
        order_goods_id: 5,
        sku_id: 9,
        sku_no: None,
        color: "c".to_string(),
        count: 1,
        unit: None,
        unit_price: None,
        total_price: None,
        notes_images: vec![],
        notes: String::new(),
    };
    let items = vec![it(1, 7), it(2, 7), it(3, 8), it(4, 7)];
    assert_eq!(goods_ids_of_items(&items), vec![7, 8, 7]);
    let progresses = vec![ProgressModel {
        id: 1,
        order_item_id: 2,
        step: 4,
        index: 1,
        account_id: 1,
        done: false,
        notes: "late".to_string(),
        dt: Timestamp { secs: 0, nanos: 0 },
    }];
    let out = plain_items_with_steps(items, &vec![package(7, "pc")], &progresses, &vec![1]);
    assert_eq!((out[0].current_step, out[0].current_index), (1, 0));
    assert!(out[0].is_next_action);
    assert_eq!(out[0].package_card, "pc");
    assert_eq!((out[1].current_step, out[1].current_index, out[1].current_notes.as_str()), (4, 1, "late"));
    assert!(!out[1].is_next_action);
    assert_eq!(out[2].package_card, "");
}
