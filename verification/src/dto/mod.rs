pub mod dto_account;
pub mod dto_customer;
pub mod dto_goods;
pub mod dto_orders;
pub mod dto_progress;
pub mod dto_stats;
pub mod step_count;
