//! Collaborative document hub: workspaces of versioned, lockable documents
//! with threaded comments, a change-event bus and a creation rate limiter.
//!
//! The coordination layer — advisory TTL locks, the append-only version log,
//! the line diff engine, event fan-out and the fixed-window rate limiter — is
//! verified. Storage, HTTP transport and markdown rendering are outside
//! collaborators reached through narrow trusted wrappers.

pub mod text;

pub mod lock;

pub mod rate_limit;

pub mod diff;

pub mod store;

pub mod auth;

pub mod events;

pub mod api;

