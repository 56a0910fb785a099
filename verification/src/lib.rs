//! Core orchestration logic for a bridge between a federated room-based chat
//! network ("Matrix side") and a centralized team-chat service ("Slack side").
//!
//! The crate holds the decision logic of the bridge: event routing, relation
//! resolution against the mapping store, the provisioning approval protocol,
//! per-destination send ordering, the presence relay state machine, the TTL
//! mapping cache and the realtime-transport frame handling. Network I/O, the
//! persistent store backends and the markup text-conversion collaborator live
//! outside the library and drive it through plain values.

pub mod admin;
pub mod blocker;
pub mod bridge;
pub mod cache;
pub mod clock;
pub mod config;
pub mod embed;
pub mod emoji;
pub mod errors;
pub mod events;
pub mod formatting;
pub mod logic;
pub mod matrix;
pub mod matrix_commands;
pub mod media;
pub mod message_flow;
pub mod models;
pub mod parsers;
pub mod presence;
pub mod provisioning;
pub mod queue;
pub mod seq_lemmas;
pub mod slack;
pub mod slack_commands;
pub mod store;
pub mod text;
pub mod transport;
pub mod user_sync;
