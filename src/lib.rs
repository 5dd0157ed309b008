use vstd::prelude::*;

pub mod broker;
pub mod config;
pub mod consumer;
pub mod hosting;
pub mod order;
pub mod poll;
pub mod record;
pub mod render;
pub mod request;
pub mod snapshot;
pub mod statuses;
pub mod text;

verus! {
} // verus!
