//! The concurrency core of an HTTP client: the decisions of a background
//! worker that multiplexes many transfers over one polling loop, and the
//! message protocol by which producer threads reach it.
//!
//! The worker's state is a [`table::TokenTable`] of active transfers and a
//! close flag. Every decision the worker takes is a function of that state
//! and one event; the functions here take those decisions and say, in their
//! contracts, exactly what they change.

pub mod agent;
pub mod handle;
pub mod lifecycle;
pub mod message;
pub mod table;
