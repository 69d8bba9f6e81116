//! Reliable delivery of newsletter issues.
//!
//! A queue of pending deliveries, one task per issue and recipient, is drained
//! by workers. Each worker claims one task at a time, validates the stored
//! address, hands the issue to a delivery client and then either deletes the
//! task or reschedules it with a jittered exponential backoff.
//!
//! - [`address`]: the recipient validator.
//! - [`backoff`]: the retry scheduler.
//! - [`clock`]: instants, and the wall clock.
//! - [`task`]: queue tasks and issues.
//! - [`cycle`]: one claim cycle of a worker, as a state machine. The code that
//!   talks to the database and to the mail provider feeds it events and
//!   carries out the actions it asks for. [`cycle_laws`] holds what is true of
//!   every run of it.
//! - [`store`]: an in-memory queue and issue store with the claim discipline
//!   of the relational one. [`store_laws`] holds what is true of it whatever
//!   its workers do.
//! - [`carry`]: whole cycles on the in-memory store, with [`carry_laws`].
//! - [`routes`]: the rules behind the web pages.

pub mod address;
pub mod backoff;
pub mod carry;
pub mod carry_laws;
pub mod clock;
pub mod cycle;
pub mod cycle_laws;
pub mod routes;
pub mod store;
pub mod store_laws;
pub mod task;
