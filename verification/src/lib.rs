//! Realtime push gateway: authentication, channel naming, delivery planning
//! and the payment-side helpers that feed it.

pub mod auth;
pub mod claims;
pub mod error;
pub mod config;
pub mod headers;
pub mod text;
pub mod token;
pub mod metrics;
pub mod push;
pub mod grpc;
pub mod ws;
pub mod payments;
pub mod laws;
