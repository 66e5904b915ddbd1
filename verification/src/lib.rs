//! Core of a chat-bot reminder service: free-form timestamp parsing,
//! reminder lifecycle (create / follow / unfollow), a next-due cache,
//! and the periodic delivery sweep, all specified and verified.
#![verifier::loop_isolation(false)]

pub mod cache;
pub mod calendar;
pub mod datetime;
pub mod lifecycle;
pub mod errors;
pub mod offset;
pub mod pages;
pub mod parse;
pub mod relative;
pub mod scan;
pub mod store;
pub mod sweep;

pub use errors::Error;
