//! Plain data records of the storefront: the rows producers and
//! status readers exchange around the queue.  Persistence for these
//! lives outside the library; the queue consumes only identifiers.

use vstd::prelude::*;

verus! {

/// A customer account row.
#[derive(Clone, Debug)]
pub struct Customer {
    pub cid: i64,
    pub mid: i32,
    pub email: String,
    pub firstname: Option<String>,
    pub lastname: Option<String>,
    /// Unix timestamp.
    pub created_gmt: i64,
    pub modified_gmt: i64,
    pub passhash: Option<String>,
    pub passsalt: Option<String>,
}

/// An order row; `order_total` is in cents.
#[derive(Clone, Debug)]
pub struct Order {
    pub orderid: String,
    pub mid: i32,
    /// Which order pool the order currently sits in.
    pub pool: String,
    /// The customer's `cid`.
    pub customer: i64,
    pub created_gmt: i64,
    pub modified_gmt: i64,
    pub order_total: i32,
}

/// A customer address row.
#[derive(Clone, Debug)]
pub struct CustomerAddress {
    pub id: i32,
    pub cid: i32,
    pub mid: i32,
    /// Address label, e.g. shipping vs. billing.
    pub label: String,
    pub firstname: String,
    pub lastname: String,
    pub company: String,
    pub address1: String,
    pub address2: String,
    pub city: String,
    pub state: String,
    pub zip: String,
    pub country: String,
    pub phone: String,
}

} // verus!
