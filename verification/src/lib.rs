//! Nova: verified core logic of a microservice framework.
//!
//! The crate holds the decision-making parts of the framework: error
//! classification, configuration layering, resilience state machines,
//! CQRS / event-sourcing stores, saga orchestration, service discovery
//! registries, validation helpers and response shaping.

pub mod error;
pub mod text;
pub mod saga;
pub mod resilience_store;
pub mod config;
pub mod resilience;
pub mod json;
pub mod json_text;
pub mod cqrs;
pub mod event_sourcing;
pub mod discovery;
pub mod backends;
pub mod keyed;
pub mod sql;
pub mod distributed;
pub mod state;
pub mod models;
pub mod openapi;
pub mod middleware;
pub mod runtime;
pub mod observability;
pub mod response;
pub mod validation;
