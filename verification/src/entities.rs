//! The tables of the example schema.
use vstd::prelude::*;

verus! {

/// A row of the `CUSTOMERS` table, keyed by `CUSTOMER_ID`, with the
/// columns `EMAIL_ADDRESS` and `FULL_NAME`.
#[derive(Debug)]
pub struct CustomersStruct {
    id: i32,
    email: Option<String>,
    name: String,
}

/// The key of an order line.
#[derive(Debug)]
pub struct OrderId {
    order_id: i32,
    line_item_id: i32,
}

} // verus!
