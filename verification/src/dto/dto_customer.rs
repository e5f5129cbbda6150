//! What the service tells about a customer.
use crate::common::string::opt_or_empty;
use crate::model::customer::CustomerModel;
use vstd::prelude::*;

verus! {

/// A customer with every missing text given as the empty string.
#[derive(Debug)]
pub struct CustomerDto {
    pub id: i32,
    pub customer_no: String,
    pub name: String,
    pub address: String,
    pub phone: String,
    pub notes: String,
}

fn or_empty(v: Option<String>) -> (r: String)
    ensures
        r@ == opt_or_empty(v),
{
    match v {
        Some(s) => s,
        None => String::new(),
    }
}

impl CustomerDto {
    pub fn from(customer: CustomerModel) -> (r: CustomerDto)
        ensures
            r.id == customer.id,
            r.customer_no == customer.customer_no,
            r.name == customer.name,
            r.address@ == opt_or_empty(customer.address),
            r.phone@ == opt_or_empty(customer.phone),
            r.notes@ == opt_or_empty(customer.notes),
    {
        CustomerDto {
            id: customer.id,
            customer_no: customer.customer_no,
            name: customer.name,
            address: or_empty(customer.address),
            phone: or_empty(customer.phone),
            notes: or_empty(customer.notes),
        }
    }
}

} // verus!
