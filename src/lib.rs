//! A trigger-started price sampler that fans every sample out to all
//! connected subscribers.

pub mod event;
pub mod trigger;
pub mod price;
pub mod sampler;
pub mod hub;
pub mod station;
pub mod session;
