pub mod datetime;
pub mod string;
pub mod assoc;
pub mod db;
