//! The policy side of the Lua plugin host: quotas, scope gating, session state,
//! manifests, and the checks applied to host API calls.
pub mod bridge;
pub mod chain;
pub mod convert;
pub mod crypto;
pub mod host;
pub mod manifest;
pub mod quota;
pub mod scope;
pub mod session;
