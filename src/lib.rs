//! A counter-increment command (`INCR` / `INCRBY`) for a Redis-style front end
//! over a key-value store with a transactional and a raw execution mode.
//!
//! The library holds the command value, its argument validation, the decimal
//! encoding of stored counters, and the execution engine as a state machine that
//! a driver feeds with the store's answers.
pub mod command;
pub mod decimal;
pub mod engine;
pub mod frame;
pub mod laws;
pub mod reply;

pub use command::IncrBy;
