//! Connection/session lifecycle engine for a long-lived authenticated
//! connection to a federated real-time messaging network.
//!
//! The library covers session acquisition (fresh login versus resumption of a
//! previously persisted session), a continuous incremental-synchronization
//! loop with failure accounting and bounded retry, and a per-flow interactive
//! device-verification handshake with an auto-confirm/timeout policy, plus
//! the room to-do lists the bot manages and their snapshot storage.
//!
//! All I/O (network, disk, clocks, randomness) is performed by the
//! surrounding application; this crate holds the data model and every
//! decision, each with a verified contract.

pub mod acquire;
pub mod clock;
pub mod codec;
pub mod commands;
pub mod config;
pub mod entropy;
pub mod monitor;
pub mod session;
pub mod storage;
pub mod sync;
pub mod tasks;
pub mod text;
pub mod todo;
pub mod verification;
