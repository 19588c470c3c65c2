//! A layer-7 load balancer core: a shared pool of upstream servers with
//! liveness tracking, uniform selection with failover, an active health
//! checker's decision logic, a sliding-window rate limiter, and the
//! per-connection request-handling state machine. The byte-level HTTP codec
//! and all socket work live outside this crate; the functions here take and
//! return plain values and carry full contracts.
//!
//! Beside the balancer stand the decision parts of a few companion
//! programs of the same codebase: a process debugger's command and address
//! parsing and its breakpoint-byte arithmetic, a word-guessing game's
//! board logic, and small vector utilities.

pub mod debugger;
pub mod handler;
pub mod health;
pub mod hangman;
pub mod pool;
pub mod select;
pub mod vecops;
