use erp_api::common::datetime::{parse_date, Date};
use erp_api::common::db::sorter_order_to_db_sorter_order;
use erp_api::common::string::{common_prefix, is_empty_string_vec, remove_whitespace_str, remove_whitespace_string};
use erp_api::error::ERPError;
use erp_api::handler::routes_upload::{
    check_not_imported, check_upload_saved, excel_dir_path, excel_file_name, file_in_dir, image_dir_path,
    image_file_name, image_url, upload_type, Moment,
};
use erp_api::text::{i32_to_string, parse_i32, str_contains, trim_to_string};

#[test]
fn whitespace_is_removed_everywhere() {
    assert_eq!(remove_whitespace_str(" a b\tc\n\u{3000}d "), "abcd");
    let mut s = String::from(" x y ");
    remove_whitespace_string(&mut s);
    assert_eq!(s, "xy");
    // removing again changes nothing
    assert_eq!(remove_whitespace_str(&s), s);
    assert_eq!(trim_to_string("  a b  "), "a b");
}

#[test]
fn numbers_read_back_as_written() {
    for x in [0, 7, -7, 42, i32::MAX, i32::MIN, -1000000] {
        assert_eq!(parse_i32(&i32_to_string(x)), Some(x));
        assert_eq!(i32_to_string(x), x.to_string());
    }
    assert_eq!(parse_i32("+12"), Some(12));
    assert_eq!(parse_i32("2147483648"), None);
    assert_eq!(parse_i32("1.5"), None);
    assert_eq!(parse_i32(""), None);
}

#[test]
fn dates_in_either_form() {
    assert_eq!(parse_date("2023-05-01"), Some(Date { year: 2023, month: 5, day: 1 }));
    assert_eq!(parse_date("2023/5/1"), Some(Date { year: 2023, month: 5, day: 1 }));
    assert_eq!(parse_date("2023-02-30"), None);
    assert_eq!(parse_date("tomorrow"), None);
}

#[test]
fn small_string_helpers() {
    assert_eq!(common_prefix(vec!["ab", "ac"]), "");
    assert!(is_empty_string_vec(&vec!["", ""]));
    assert!(!is_empty_string_vec(&vec!["", "a"]));
    assert!(str_contains("订货日期:2023", "日期"));
    assert!(!str_contains("abc", "abd"));
    assert_eq!(sorter_order_to_db_sorter_order("ascend"), "asc");
    assert_eq!(sorter_order_to_db_sorter_order("descend"), "desc");
    assert_eq!(sorter_order_to_db_sorter_order("whatever"), "desc");
}

#[test]
fn error_texts() {
    assert_eq!(ERPError::LoginFail.message(), "login failed");
    assert_eq!(ERPError::Failed("x".to_string()).message(), "x");
    assert_eq!(ERPError::AlreadyExists("a\"b".to_string()).message(), "data already exists: \"a\\\"b\"");
    assert_eq!(ERPError::ConvertFailed("type".to_string()).message(), "Param type conversion Failed: \"type\"");
    assert_eq!(ERPError::Collision("c".to_string()).message(), "collision: c");
}

#[test]
fn upload_names_come_from_the_time() {
    let t = Moment { year: 2024, month: 3, day: 9, hour: 14, minute: 5, second: 0 };
    assert_eq!(excel_dir_path(t), "/home/debian/data/file/20240309");
    assert_eq!(excel_file_name(t), "20240309140500.xlsx");
    assert_eq!(image_dir_path(t), "/home/debian/data/file/images/20240309");
    assert_eq!(image_file_name(t), "20240309140500.png");
    assert_eq!(image_url("x.png"), "https://erp.ligulfzhou.com/file/images/x.png");
    assert_eq!(file_in_dir("/a", "b"), "/a/b");
    assert_eq!(upload_type("2").unwrap(), 2);
    assert_eq!(upload_type("two").unwrap_err().message(), "Param type conversion Failed: \"type\"");
    assert_eq!(check_upload_saved("").unwrap_err().message(), "save excel file failed");
    assert!(check_upload_saved("/a").is_ok());
    assert_eq!(check_not_imported(true).unwrap_err().message(), "data already exists: \"订单已经导入\"");
}
