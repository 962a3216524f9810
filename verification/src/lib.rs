//! An in-process cache of Discord data, with typed resource identifiers,
//! a permission calculator, and validation helpers for interaction commands.
//!
//! The centerpiece is the cache engine: a multi-table resource store keyed by
//! snowflake identifiers, secondary indexes that keep parent/child
//! relationships consistent, a bounded per-channel message window, and an
//! event dispatcher that turns every inbound gateway event into a sequence of
//! store mutations.

pub mod cache;
pub mod channel;
pub mod config;
pub mod dispatch;
pub mod event_aggregate;
pub mod event_channel;
pub mod event_guild;
pub mod event_interaction;
pub mod event_member;
pub mod event_message;
pub mod event_voice;
pub mod gateway;
pub mod guild;
pub mod id;
mod index;
pub mod laws;
pub mod model;
pub mod oauth;
pub mod permission;
pub mod ratelimit;
pub mod request;
pub mod stats;
pub mod store;
pub mod user;
mod util;
pub mod voice;
