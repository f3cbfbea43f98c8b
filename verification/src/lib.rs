//! The request pipeline of a small HTTP service, without the transport.
//!
//! Every request meets three stages in a fixed order: a sliding-window
//! rate limiter keyed by the client's address ([`limiter`]), an API-key
//! check for the paths under one prefix ([`auth`]), and the route table
//! ([`pipeline`], which also composes the three). Two routes answer with a
//! stream that is produced item by item with a pause between items
//! ([`stream`]); the others answer at once ([`handlers`]).
//!
//! Nothing here waits, locks or touches a socket. The caller keeps the one
//! `RateLimiter` behind a lock, reads the monotonic clock, sleeps for the
//! pauses that the streams ask for, and stops pulling when the client is
//! gone.
//!
//! Instants and durations are plain `u64` nanoseconds. An instant counts
//! from an origin that the caller fixes once, such as the start of the
//! process.

pub mod identity;
pub mod limiter;
pub mod text;
pub mod buffer;
pub mod auth;
pub mod stream;
pub mod pipeline;
pub mod handlers;
mod ambient;
