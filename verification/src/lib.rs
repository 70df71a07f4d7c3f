//! A bounded-concurrency task-dispatch engine and the pure logic of the
//! programs built around it.
//!
//! The heart of the crate is [`pool`], a verified model of a fixed-size
//! worker pool fed from an unbounded queue: construction, submission, the
//! worker consume loop, and drain-on-teardown, each with a contract. The
//! remaining modules hold the verified logic of the pool's consumer
//! programs: an address-book store with two command-line front ends,
//! blog-post review workflows, a telemetry client configuration, the
//! length-prefixed wire framing shared by the telemetry client and server,
//! and two small text utilities.

pub mod addressbook;
pub mod addressbook_1;
pub mod blog;
pub mod blog_enum;
pub mod blog_types;
pub mod book;
pub mod client;
mod fib;
mod piglatin;
pub mod pool;
pub mod text;
pub mod timestamp;
pub mod wire;

pub use fib::fib;
pub use piglatin::pig_latin;
