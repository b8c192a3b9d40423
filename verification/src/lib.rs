//! A policy-driven routing gateway for chat-completion requests.
//!
//! The crate holds the decision logic of the gateway: the configuration
//! model, the complexity scorer, the router that orders candidate providers,
//! the response-cache rules, the in-memory state store and the request
//! pipeline. All amounts are integers: prices are millionths of a currency
//! unit, scorer weights and boundaries are thousandths, scores are
//! millionths.

pub mod cache;
pub mod config;
pub mod handlers;
pub mod message;
pub mod pipeline;
pub mod router;
pub mod scorer;
pub mod state;
pub mod stats;
pub mod text;
