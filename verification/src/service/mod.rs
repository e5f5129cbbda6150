pub mod goods_service;
