//! Live countdown broadcasting with a registry of connected clients.
//!
//! - `registry`: the set of clients that are currently streaming.
//! - `countdown`: the countdown of one connection, as a state machine that a
//!   driver feeds with the result of each enqueue.
//! - `answers`: whether a submitted answer is accepted, and the client count.
//! - `decimal`: the decimal text of an integer.
//! - `lifecycle`: whole runs of countdown tasks, and what holds of them.

pub mod answers;
pub mod countdown;
pub mod decimal;
pub mod lifecycle;
pub mod registry;
