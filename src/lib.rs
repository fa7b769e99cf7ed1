//! Subscriptions to topic-based push notification streams: key normalization,
//! the server-sent-event frame parser, dispatch of decoded messages, the
//! per-subscription reconnect state machine and the subscription registry.

pub mod key;
pub mod message;
pub mod registry;
pub mod sse;
pub mod worker;

