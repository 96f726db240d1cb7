//! Runtime logic of a device control agent: subnet-scoped address discovery,
//! storage health aggregation, preferences document mutation and command
//! dispatch.

pub mod address;
pub mod json;
pub mod config;
pub mod health;
pub mod command;
