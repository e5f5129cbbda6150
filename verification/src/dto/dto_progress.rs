//! A progress mark as the service shows it.
use crate::common::datetime::Timestamp;
use vstd::prelude::*;

verus! {

/// A progress mark with the name and department of who made it.
#[derive(Debug)]
pub struct OneProgress {
    pub id: i32,
    pub order_item_id: i32,
    pub step: i32,
    pub index: i32,
    pub account_id: i32,
    pub account_name: String,
    pub department: String,
    pub done: bool,
    pub notes: String,
    pub dt: Timestamp,
}

impl Clone for OneProgress {
    fn clone(&self) -> (r: Self)
        ensures
            r == *self,
    {
        OneProgress {
            id: self.id,
            order_item_id: self.order_item_id,
            step: self.step,
            index: self.index,
            account_id: self.account_id,
            account_name: self.account_name.clone(),
            department: self.department.clone(),
            done: self.done,
            notes: self.notes.clone(),
            dt: self.dt,
        }
    }
}

} // verus!
