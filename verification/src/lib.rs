//! Verified core of an ERP back end: text helpers, SQL text builders,
//! order spreadsheet interpretation and production-progress bookkeeping.
use vstd::prelude::*;

pub mod common;
pub mod constants;
pub mod dto;
pub mod error;
pub mod excel;
pub mod handler;
pub mod middleware;
pub mod model;
pub mod service;
pub mod text;

verus! {

} // verus!
