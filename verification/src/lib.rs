//! An addressed, append-only message store with gated reads.
//!
//! Anyone may deposit a message into any recipient's inbox; reading an inbox
//! requires proving authorization for that recipient, either with a viewing
//! key (a self-set shared secret) or with a signed permit scoped to this
//! contract instance.

pub mod contract;
pub mod gate;
pub mod msg;
pub mod state;
pub mod store;
