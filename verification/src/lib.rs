//! A worker that keeps a catalog of tracked games and starts clip-fetch jobs
//! for them.
//!
//! The catalog and its three mutations live in [`catalog`], the recency
//! window of a fetch in [`window`], the fetch job in [`job`], the five
//! remote operations in [`service`], the statuses they fail with in
//! [`status`], and what the operations owe each other in [`laws`].

pub mod catalog;
pub mod job;
pub mod laws;
pub mod service;
pub mod status;
mod table;
pub mod window;
