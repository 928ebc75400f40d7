//! A rendezvous/signaling broker: two untrusted parties (a host and a
//! client) exchange a handful of connection-setup messages through named,
//! secret-gated mailboxes, without either party holding a persistent
//! connection to the broker.

pub mod errors;
pub mod frames;
pub mod handlers;
pub mod laws;
pub mod random_util;
pub mod redis_helper;
pub mod req_helpers;
pub mod table;
pub mod text;

pub use errors::AuthOutcome;
pub use errors::BrokerError;
