//! Subscriptions of chats to addresses.
use vstd::prelude::*;

verus! {

#[derive(Debug)]
pub struct NewSubscription {
    pub chat_id: i64,
    pub address: String,
}

#[derive(Debug, Clone, Copy, PartialEq, Eq, Structural)]
pub struct SubId(pub i64);

#[derive(Debug)]
pub struct Subscription {
    pub id: i64,
    pub chat_id: i64,
    pub address: String,
}

} // verus!
