use erp_api::handler::routes_goods::{
    goods_dtos_with_skus, skus_of_goods_sql, CreateSKUParam, ListGoodsParam, ListSKUsParam,
    SearchSkusParam, UpdateSKUParam,
};
use erp_api::handler::sql::join_i32s;
use erp_api::model::goods::{GoodsModel, SKUModel};
use erp_api::handler::ListParamTrait;

#[test]
fn routes_goods_test() {
    let params = ListGoodsParam {
        goods_no: Some("goods_no".to_string()),
        page: None,
        page_size: None,
    };
    let sql = params.to_pagination_sql();
    let count_sql = params.to_count_sql();
    assert_eq!(
        "select * from goods where goods_no='goods_no' offset 0 limit 50;",
        sql.as_str()
    );
    assert_eq!(
        "select count(1) from goods where goods_no='goods_no';",
        count_sql.as_str()
    );
}

#[test]
fn goods_listing_without_goods_no_has_no_where() {
    let params = ListGoodsParam { goods_no: Some(String::new()), page: Some(3), page_size: Some(20) };
    assert_eq!(params.to_pagination_sql(), "select * from goods offset 40 limit 20;");
    assert_eq!(params.to_count_sql(), "select count(1) from goods");
}

#[test]
fn goods_listing_negative_offset() {
    let params = ListGoodsParam { goods_no: None, page: Some(0), page_size: Some(7) };
    assert_eq!(params.to_pagination_sql(), "select * from goods offset -7 limit 7;");
}

#[test]
fn sku_search_sql() {
    let p = SearchSkusParam { key: "A1".to_string(), page: Some(2), page_size: Some(10) };
    let sql = p.to_pagination_sql();
    assert!(sql.contains("and g.goods_no like '%A1%' or s.sku_no like '%A1%'"));
    assert!(sql.ends_with(" order by id desc offset 10 limit 10;"));
    let count = p.to_count_sql();
    assert!(count.starts_with("\n            select count(1)\n"));
    assert!(count.contains("like '%A1%' or s.sku_no like '%A1%'"));
}

#[test]
fn sku_listing_sql() {
    let p = ListSKUsParam {
        goods_no: Some("G".to_string()),
        sku_no: None,
        color: Some("红".to_string()),
        customer_no: Some("L1001".to_string()),
        page: None,
        page_size: None,
    };
    let sql = p.to_pagination_sql();
    assert!(sql.ends_with(
        " and g.goods_no like '%G%' and s.color like '%红%' and g.customer_no = 'L1001' order by s.id desc offset 0 limit 50;"
    ));
    let count = p.to_count_sql();
    assert!(count.ends_with(" and g.goods_no like '%G%' and s.color like '%红%' and g.customer_no = 'L1001'"));
}

#[test]
fn create_sku_sql() {
    let p = CreateSKUParam { goods_id: 12, plating: None, color: "蓝".to_string(), notes: None };
    assert_eq!(
        p.to_sql(),
        "insert into skus (goods_id, color, notes) values (12, '蓝', '')"
    );
}

#[test]
fn update_sku_sqls() {
    let p = UpdateSKUParam {
        id: 5,
        name: Some("n".to_string()),
        image: None,
        goods_id: 9,
        goods_no: Some(String::new()),
        sku_no: None,
        color: Some("c".to_string()),
        plating: Some("p".to_string()),
        notes: None,
    };
    let sqls = p.to_sqls();
    assert_eq!(sqls.len(), 2);
    assert_eq!(sqls[0], "update goods set  name='n' , plating='p'  where id = 9");
    assert_eq!(sqls[1], "update skus set  color = 'c'  where id = 5");
    let q = UpdateSKUParam {
        id: 5,
        name: None,
        image: None,
        goods_id: 9,
        goods_no: None,
        sku_no: None,
        color: None,
        plating: None,
        notes: None,
    };
    assert_eq!(q.to_sqls(), vec![String::new(), String::new()]);
}

#[test]
fn sku_collision_message() {
    let e = erp_api::handler::routes_goods::sku_collision_err(3, "黑");
    assert_eq!(e.message(), "collision: 已经有了ID为3,颜色为:'黑'的产品了");
}

fn goods(id: i32, no: &str) -> GoodsModel {
    GoodsModel {
        id,
        customer_no: "L1".to_string(),
        goods_no: no.to_string(),
        name: "n".to_string(),
        plating: "p".to_string(),
        notes: String::new(),
        images: vec![],
        package_card: String::new(),
    }
}

fn sku(id: i32, goods_id: i32, color: &str) -> SKUModel {
    SKUModel {
        id,
        goods_id,
        sku_no: String::new(),
        color: color.to_string(),
        color2: String::new(),
        notes: None,
    }
}

#[test]
fn numbers_are_joined_in_decimal() {
    assert_eq!(join_i32s(&vec![3, -12, 0], ","), "3,-12,0");
    assert_eq!(join_i32s(&vec![], ","), "");
}

#[test]
fn skus_of_listed_goods_are_queried_by_id() {
    let gs = vec![goods(3, "A"), goods(-1, "B")];
    assert_eq!(skus_of_goods_sql(&gs), "select * from skus where goods_id in (3,-1);");
}

#[test]
fn each_style_gets_its_own_skus() {
    let gs = vec![goods(1, "A"), goods(2, "B"), goods(3, "C")];
    let skus = vec![sku(10, 2, "红"), sku(11, 1, "蓝"), sku(12, 2, "白")];
    let dtos = goods_dtos_with_skus(gs, &skus);
    assert_eq!(dtos.len(), 3);
    assert_eq!(dtos[0].goods_no, "A");
    assert_eq!(dtos[0].count, 1);
    assert_eq!(dtos[0].skus[0].id, 11);
    assert_eq!(dtos[1].count, 2);
    assert_eq!(dtos[1].skus[0].id, 10);
    assert_eq!(dtos[1].skus[1].id, 12);
    assert_eq!(dtos[2].count, 0);
    assert!(dtos[2].skus.is_empty());
}
