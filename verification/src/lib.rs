//! Identity and session resolution for a content-platform backend.
//!
//! The crate decides, per request, who is asking and what that caller is
//! currently entitled to see: it derives a best-effort geographic origin
//! from untrusted proxy headers, validates the session credential while
//! explicitly rejecting the deprecated legacy format, loads the caller's
//! user record, and merges subscription, newsletter and settings state
//! into one identity-summary response.

pub mod endpoint;
pub mod entitlement;
pub mod geo;
pub mod session;
pub mod store;
