//! Message routing within a process: a registry of local recipients, and the broker and the
//! clients around it.
//!
//! - [`broker_core::registry`] keeps who receives the messages to an address. Recipients are
//!   registered for exact addresses and for wildcard patterns, and no address ever has two.
//! - [`broker_core::transport`] finds the channel to a recipient.
//! - [`protocol`] is the layout of messages in bytes.
//! - [`client`] subscribes, publishes and matches replies with requests.
//! - [`broker`] holds the configuration and the registry of a process.
//!
//! The state of the broker is a plain value here. Functions that change it take it by mutable
//! reference, and waiting, tasks and locks are left to the program around the library.

/// Core of the message broker.
pub mod broker;
/// Registry and delivery.
pub mod broker_core;
/// Clients of the broker.
pub mod client;
/// Configuration.
pub mod config;
/// Errors of the broker.
pub mod error;
/// Message protocol.
pub mod protocol;
mod text;
