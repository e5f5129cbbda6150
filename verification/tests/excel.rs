use erp_api::common::datetime::Date;
use erp_api::excel::excel_order_info::{parse_order_info, try_parse_order_info};
use erp_api::excel::excel_order_parser::{
    check_order_info, parse_order_items, template_missing_err, try_parse_order_items,
};
use erp_api::excel::order_template_1::checking_order_items_excel_1;
use erp_api::excel::parse_order_template_1::parse_order_excel_t1;
use erp_api::excel::parse_order_template_2::parse_order_excel_t2;
use erp_api::excel::parse_order_template_3::checking_order_items_excel_3;
use erp_api::excel::parse_order_template_4::parse_order_excel_t4;
use erp_api::excel::sheet::Sheet;
use erp_api::model::order::{OrderInfo, OrderItemExcel};

fn cell(s: &str) -> Option<String> {
    Some(s.to_string())
}

fn row(cols: usize, vals: &[&str]) -> Vec<Option<String>> {
    let mut r: Vec<Option<String>> = vals.iter().map(|v| cell(v)).collect();
    while r.len() < cols {
        r.push(None);
    }
    r
}

/// A layout-1 sheet: header rows 1..=6, item rows from row 7.
fn t1_sheet(second_index: &str) -> Sheet {
    let cols = 12usize;
    let mut cells = vec![
        row(cols, &["客户：L1001"]),
        row(cols, &["单号:NO1"]),
        row(cols, &["订货日期:2023-05-01"]),
        row(cols, &["交货日期：2023/06/02"]),
        row(cols, &["加急"]),
        row(cols, &["序号"]),
    ];
    cells.push(row(
        cols,
        &["1", "", "A 1", "", " 吊坠 ", "gold", "红 色", "10", "pcs", "5", "50", "note"],
    ));
    cells.push(row(cols, &[second_index, "", "", "", "", "", "蓝", "3"]));
    let mut images = vec![vec![0usize; cols]; 8];
    images[6][3] = 1;
    images[6][1] = 1;
    Sheet { cols: cols as u32, rows: 8, cells, images }
}

#[test]
fn order_header_is_read_from_the_first_rows() {
    let sheet = t1_sheet("1");
    let info = parse_order_info(&sheet);
    assert_eq!(info.customer_no, "L1001");
    assert_eq!(info.order_no, "NO1");
    assert_eq!(info.order_date, Date { year: 2023, month: 5, day: 1 });
    assert_eq!(info.delivery_date, Some(Date { year: 2023, month: 6, day: 2 }));
    assert!(info.is_urgent);
    assert!(!info.is_return_order);
    assert!(check_order_info(&info).is_ok());
}

#[test]
fn unreadable_order_date_is_reported() {
    let mut sheet = t1_sheet("1");
    sheet.cells[2][0] = cell("订货日期:someday");
    assert!(try_parse_order_info(&sheet).is_none());
}

#[test]
fn header_without_numbers_is_refused() {
    let info = OrderInfo::default();
    assert_eq!(
        check_order_info(&info).unwrap_err().message(),
        "客户编号未找到，请检查一下excel表格"
    );
    let mut info = OrderInfo::default();
    info.customer_no = "L1".to_string();
    assert_eq!(
        check_order_info(&info).unwrap_err().message(),
        "订单编号未找到，请检查一下excel表格"
    );
    assert_eq!(template_missing_err("L1").message(), "请先配置L1需要使用什么模版");
}

#[test]
fn layout_one_groups_rows_into_styles() {
    let sheet = t1_sheet("1");
    let reading = parse_order_excel_t1(&sheet);
    let groups = reading.result.unwrap();
    assert_eq!(groups.len(), 1);
    let g = &groups[0];
    assert_eq!(g.goods.goods_no, "A1");
    assert_eq!(g.goods.index, 1);
    assert_eq!(g.goods.name, "吊坠");
    assert_eq!(g.items.len(), 2);
    assert_eq!(g.items[0].color, "红色");
    assert_eq!(g.items[0].count, 10);
    assert_eq!(g.items[0].unit_price, Some(5));
    assert_eq!(g.items[1].color, "蓝");
    assert_eq!(g.items[1].count, 3);
    // the second row starts as a copy of the first
    assert_eq!(g.items[1].name, "吊坠");
    assert_eq!(g.items[0].images, vec!["https://erp.ligulfzhou.com/file//sku/A1.png".to_string()]);
    assert_eq!(
        g.items[0].package_card,
        Some("https://erp.ligulfzhou.com/file//package/A1.png".to_string())
    );
    assert_eq!(reading.downloads.len(), 2);
    assert_eq!(reading.downloads[0].path, "/home/debian/data/file//sku/A1.png");
    assert_eq!((reading.downloads[0].col, reading.downloads[0].row), (4, 7));
    assert_eq!(reading.downloads[1].path, "/home/debian/data/file//package/A1.png");
}

#[test]
fn layout_one_stops_at_a_row_without_sequence_number() {
    let sheet = t1_sheet("");
    let reading = parse_order_excel_t1(&sheet);
    assert_eq!(
        reading.result.unwrap_err().message(),
        "第8行可能有空行，因为没有读到index的数据"
    );
    // the pictures of the rows read before are still stored
    assert_eq!(reading.downloads.len(), 2);
}

#[test]
fn templates_dispatch_to_their_readers() {
    let sheet = t1_sheet("2");
    let reading = parse_order_items(&sheet, 1, "NO1");
    let groups = reading.result.unwrap();
    assert_eq!(groups.len(), 2);
    assert_eq!(groups[0].goods.index, 1);
    assert_eq!(groups[1].goods.index, 2);
    // the second row keeps the goods number of the first
    assert_eq!(groups[1].goods.goods_no, "A1");
    // an unknown template is read as template 1
    let other = parse_order_items(&sheet, 9, "NO1");
    assert_eq!(other.result.unwrap().len(), 2);
}

#[test]
fn layout_two_names_rows_by_sku_number() {
    let cols = 12usize;
    let mut cells = vec![row(cols, &[]); 6];
    cells.push(row(cols, &["3", "", "S-1", "", "n", "p", "红", "2"]));
    let mut images = vec![vec![0usize; cols]; 7];
    images[6][3] = 2;
    let sheet = Sheet { cols: cols as u32, rows: 7, cells, images };
    let reading = parse_order_excel_t2(&sheet);
    let m = reading.result.unwrap();
    let rows = m.get(&3).unwrap();
    assert_eq!(rows.len(), 1);
    assert_eq!(rows[0].sku_no, Some("S-1".to_string()));
    assert_eq!(rows[0].images.len(), 2);
    assert_eq!(rows[0].images[1], "https://erp.ligulfzhou.com/file//sku/-1.png");
    assert_eq!(reading.downloads.len(), 2);
    assert_eq!(reading.downloads[1].nth, 1);
}

#[test]
fn layout_four_names_pictures_with_the_order_number() {
    let cols = 15usize;
    let mut cells = vec![row(cols, &[]); 6];
    cells.push(row(cols, &["1", "", "S1", "G1", "红", "M", "", "n"]));
    let mut images = vec![vec![0usize; cols]; 7];
    images[6][6] = 1;
    images[6][14] = 1;
    let sheet = Sheet { cols: cols as u32, rows: 7, cells, images };
    let reading = parse_order_excel_t4(&sheet, "NO9");
    let m = reading.result.unwrap();
    let rows = m.get(&1).unwrap();
    assert_eq!(rows[0].images, vec!["https://erp.ligulfzhou.com/file//sku/G1-0-NO9.png".to_string()]);
    assert_eq!(
        rows[0].notes_images,
        vec!["https://erp.ligulfzhou.com/file//notes/G1-0-NO9.png".to_string()]
    );
    assert_eq!(reading.downloads.len(), 2);
}

fn item(index: i32, goods_no: &str, color: &str) -> OrderItemExcel {
    let mut it = OrderItemExcel::default();
    it.index = index;
    it.goods_no = goods_no.to_string();
    it.color = color.to_string();
    it
}

#[test]
fn shared_sequence_numbers_are_refused() {
    let ok = vec![item(1, "A", "红"), item(1, "A", "蓝"), item(2, "B", "红")];
    assert!(checking_order_items_excel_1(&ok).is_ok());
    assert!(checking_order_items_excel_3(&ok).is_ok());
    let mixed = vec![item(1, "A", "红"), item(1, "B", "蓝")];
    assert_eq!(
        checking_order_items_excel_1(&mixed).unwrap_err().message(),
        "Excel内序号#1可能重复,或者有多余总计的行"
    );
    let repeated = vec![item(1, "A", "红"), item(2, "A", "红")];
    assert_eq!(
        checking_order_items_excel_3(&repeated).unwrap_err().message(),
        "A+红可能有重复，或者有多余的总计的行"
    );
}

#[test]
fn the_most_common_goods_number_names_a_style() {
    let items = vec![item(1, "", "红"), item(1, "B", "蓝"), item(1, "A", "黑"), item(1, "A", "白")];
    assert_eq!(OrderItemExcel::pick_up_goods_no(&items), Some("A".to_string()));
    let goods = OrderItemExcel::pick_up_excel_goods(&items);
    assert_eq!(goods.goods_no, "A");
    assert_eq!(goods.index, 1);
}

#[test]
fn checked_reading_matches_the_plain_one() {
    let sheet = t1_sheet("1");
    let plain = parse_order_items(&sheet, 1, "NO1");
    let checked = try_parse_order_items(&sheet, 1, "NO1").unwrap();
    let a = plain.result.unwrap();
    let b = checked.result.unwrap();
    assert_eq!(a.len(), b.len());
    assert_eq!(a[0].goods.goods_no, b[0].goods.goods_no);
    assert_eq!(plain.downloads.len(), checked.downloads.len());
}

#[test]
fn checked_reading_gives_up_on_a_row_without_identifier() {
    let cols = 12usize;
    let mut cells = vec![row(cols, &[]); 6];
    cells.push(row(cols, &["3"]));
    let images = vec![vec![0usize; cols]; 7];
    let sheet = Sheet { cols: cols as u32, rows: 7, cells, images };
    assert!(try_parse_order_items(&sheet, 3, "NO1").is_none());
}
