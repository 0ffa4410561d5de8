//! Order-orchestration core of a delivery platform.
//!
//! The crate turns a user's shopping bucket into a placed order, coordinates
//! courier assignment with an external matching service, tracks an order
//! through its delivery states, computes a courier's weighted reputation
//! score, and fans courier-status events out to subscribed clients — all
//! gated by a role-based access policy.

pub mod broker;
pub mod coordinator;
pub mod handlers;
pub mod models;
pub mod policy;
pub mod rating;
pub mod sorting;
pub mod store;
pub mod supervision;
pub mod sys;
