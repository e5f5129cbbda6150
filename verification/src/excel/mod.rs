pub mod columns;
pub mod sheet;
pub mod rows;
pub mod grouping;
pub mod reading;
pub mod order_template_1;
pub mod order_template_4;
pub mod order_umya_excel;
pub mod parse_order_template_1;
pub mod parse_order_template_2;
pub mod parse_order_template_3;
pub mod parse_order_template_4;
pub mod excel_order_info;
pub mod process_order_excel_goods;
pub mod process_order_excel_goods_no_with_sku_no;
pub mod excel_order_parser;
