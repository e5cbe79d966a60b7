//! The messages of the event feed. In JSON an account carries its fields as
//! `ID` and `NAME`, an order as `i` and `s`; an event names its kind under
//! `e` (`account` or `order`), with the message's fields beside it in
//! `Event` and under `data` in `EventInside`.

use vstd::prelude::*;

verus! {

#[derive(Debug)]
pub struct Account {
    pub id: u64,
    pub name: String,
}

#[derive(Debug)]
pub struct Order {
    pub id: u64,
    pub symbol: String,
}

/// An event whose message fields stand beside its kind.
#[derive(Debug)]
pub enum Event {
    Account(Box<Account>),
    Order(Box<Order>),
}

/// An event whose message fields stand under `data`.
#[derive(Debug)]
pub enum EventInside {
    Account(Box<Account>),
    Order(Box<Order>),
}

} // verus!
