//! Tenant-aware authentication and session-rotation core for a multi-tenant
//! institutional platform.
//!
//! The crate covers token issuance and verification, refresh-session rotation
//! with reuse detection, permission-snapshot computation, tenant resolution
//! with an in-memory cache, and the field-level cryptographic helpers that
//! protect personally identifying lookup keys. All I/O (data store, HTTP,
//! clock, environment) stays outside: callers hand in plain values such as
//! fetched rows and the current Unix time, and get plain values back.

pub mod access;
pub mod claims;
pub mod codec;
pub mod config;
pub mod cookies;
pub mod crypto;
pub mod dashboard;
pub mod errors;
pub mod flow;
pub mod menu;
pub mod rbac;
pub mod session;
pub mod tenant;
pub mod token;
