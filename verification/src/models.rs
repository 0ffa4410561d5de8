//! Core data types of the order domain.
//!
//! Identities are carried as the 128-bit value of a UUID, timestamps as
//! seconds, and product prices in minor currency units, so that every field
//! the core logic reads is a plain value with exact semantics.

use vstd::prelude::*;

verus! {

/// Delivery state of an order: `InProgress` is assigned at creation and is
/// only ever followed by `Finished`; the transition never runs backwards.
#[derive(Clone, Copy, PartialEq, Eq, Structural, Debug)]
pub enum OrderStatus {
    InProgress,
    Finished,
}

/// The failure taxonomy of the core. `AddedToQueue` is a control-flow signal
/// (the matching service queued the user instead of assigning a courier),
/// not a fault; the rest are user-visible denials and state violations.
#[derive(Clone, Copy, PartialEq, Eq, Structural, Debug)]
pub enum OrderError {
    Forbidden,
    EmptyBucket,
    AlreadyRated,
    AlreadyFinished,
    RatingWindowExpired,
    AddedToQueue,
    UpstreamUnavailable,
    NotFound,
}

impl OrderError {
    /// The user-visible message of each failure.
    pub open spec fn message_spec(self) -> Seq<char> {
        match self {
            OrderError::Forbidden => "Forbidden"@,
            OrderError::EmptyBucket => "Empty bucket"@,
            OrderError::AlreadyRated => "This order already rated"@,
            OrderError::AlreadyFinished => "This order already finished"@,
            OrderError::RatingWindowExpired => "not available anymore"@,
            OrderError::AddedToQueue => "Added to queue"@,
            OrderError::UpstreamUnavailable => "upstream unavailable"@,
            OrderError::NotFound => "not found"@,
        }
    }

    pub fn message(&self) -> (r: String)
        ensures
            r@ == self.message_spec(),
    {
        match self {
            OrderError::Forbidden => "Forbidden".to_owned(),
            OrderError::EmptyBucket => "Empty bucket".to_owned(),
            OrderError::AlreadyRated => "This order already rated".to_owned(),
            OrderError::AlreadyFinished => "This order already finished".to_owned(),
            OrderError::RatingWindowExpired => "not available anymore".to_owned(),
            OrderError::AddedToQueue => "Added to queue".to_owned(),
            OrderError::UpstreamUnavailable => "upstream unavailable".to_owned(),
            OrderError::NotFound => "not found".to_owned(),
        }
    }
}

/// A product as read by the core: price is in minor currency units.
#[derive(Debug)]
pub struct ProductInfo {
    pub uuid: u128,
    pub name: String,
    pub price: u64,
    pub product_type: String,
    pub restaurant: String,
}

impl Clone for ProductInfo {
    fn clone(&self) -> (r: Self)
        ensures
            r == *self,
    {
        ProductInfo {
            uuid: self.uuid,
            name: self.name.clone(),
            price: self.price,
            product_type: self.product_type.clone(),
            restaurant: self.restaurant.clone(),
        }
    }
}

/// Fields of a product to be created; the store assigns the identity.
pub struct CreateProduct {
    pub name: String,
    pub price: u64,
    pub product_type: String,
    pub restaurant: String,
}

/// A partial product update: only the fields that are present change.
pub struct UpdateProduct {
    pub name: Option<String>,
    pub price: Option<u64>,
    pub product_type: Option<String>,
    pub restaurant: Option<String>,
}

/// One row of a user's bucket. Repeated adds of the same product create
/// repeated rows; the bucket does not merge them.
#[derive(Clone, Copy, PartialEq, Eq, Structural, Debug)]
pub struct BucketItem {
    pub user_uuid: u128,
    pub product_uuid: u128,
    pub amount: i16,
}

/// One line of a placed order, snapshotted from the bucket at checkout.
#[derive(Clone, Copy, PartialEq, Eq, Structural, Debug)]
pub struct OrderItem {
    pub order_uuid: u128,
    pub product_uuid: u128,
    pub amount: i16,
}

/// An order as read by the core. `rating` moves from `None` to `Some` at
/// most once; `updated_at` tracks the latest storage write, in seconds.
#[derive(Debug)]
pub struct OrderInfo {
    pub uuid: u128,
    pub user_uuid: u128,
    pub courier_uuid: u128,
    pub rating: Option<i16>,
    pub status: OrderStatus,
    pub updated_at: i64,
    pub address: String,
}

impl Clone for OrderInfo {
    fn clone(&self) -> (r: Self)
        ensures
            r == *self,
    {
        OrderInfo {
            uuid: self.uuid,
            user_uuid: self.user_uuid,
            courier_uuid: self.courier_uuid,
            rating: self.rating,
            status: self.status,
            updated_at: self.updated_at,
            address: self.address.clone(),
        }
    }
}

/// Fields of an order to be created; the store assigns identity, initial
/// status and timestamps.
pub struct CreateOrder {
    pub user_uuid: u128,
    pub courier_uuid: u128,
    pub address: String,
}

/// The matching service's answer to a queue-status poll.
#[derive(Debug)]
pub struct OrderQueueInfo {
    pub status: String,
    pub avg_waiting_time: i32,
}

impl Clone for OrderQueueInfo {
    fn clone(&self) -> (r: Self)
        ensures
            r == *self,
    {
        OrderQueueInfo {
            status: self.status.clone(),
            avg_waiting_time: self.avg_waiting_time,
        }
    }
}

} // verus!
