//! Entitlement gateway: bearer-credential checks against a rotating key set,
//! a per-account subscription state machine driven by billing events, and
//! tier-scoped usage quotas with strict ownership checks.

pub mod text;
pub mod models;
pub mod errors;
pub mod store;
pub mod webhook;
pub mod jwks;
pub mod token;
pub mod gate;
pub mod guard;
