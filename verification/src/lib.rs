//! A verified bridge core: it decodes device "online" notifications from a
//! message bus, and persists the latest online state per device through an
//! idempotent upsert against a store model.
//!
//! The crate covers the message-processing pipeline: payload decoding against
//! the wire grammar, the create-or-update semantics of the online record, and
//! the receive/reconnect loop's decision logic. Transport and the real
//! document store are external collaborators driven from outside the library.

pub mod codec;
pub mod message_error;
pub mod models;
pub mod notification;
pub mod online;
pub mod payload_trait;
pub mod pipeline;
pub mod store;
pub mod topic;
