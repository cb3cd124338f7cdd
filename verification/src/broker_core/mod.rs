//! Registry and delivery.

/// Registry of local recipients.
pub mod registry;
/// Message delivery.
pub mod transport;
