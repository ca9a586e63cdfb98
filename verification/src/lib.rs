//! Core of a minimal public message board: an append-only message store with
//! cursor-based pagination, a sliding-window rate limiter guarding the write
//! path, a validation policy for inbound messages, and the access surface
//! that composes them for request handlers.

pub mod args;
mod clock;
pub mod database;
pub mod git_info;
pub mod html;
pub mod integration;
pub mod limiter;
pub mod surface;
