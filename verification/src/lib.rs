//! Request building, reply decoding and run planning for the Boomerang event store.

pub mod adapter;
pub mod append;
pub mod event;
pub mod image;
pub mod json;
pub mod laws;
pub mod manager;
pub mod metadata;
pub mod number;
pub mod proto;
pub mod query;
pub mod read;
pub mod text;
