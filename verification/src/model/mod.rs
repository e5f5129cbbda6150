pub mod account;
pub mod customer;
pub mod goods;
pub mod item;
pub mod order;
pub mod progress;
pub mod sku;
