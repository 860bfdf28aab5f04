//! String boundary for a set of native operations: every call takes UTF-8
//! strings and returns one UTF-8 string holding a JSON envelope, either
//! `{"ok":"..."}` or `{"err":"..."}`.
//!
//! The envelope encoding (including JSON string escaping), the rendering of
//! failures, and the two interface-description operations are defined and
//! verified here; the interface-description parser itself is an outside
//! collaborator reached through a trusted wrapper.

pub mod candid;
pub mod envelope;
pub mod normalize;

pub use candid::parse_func_candid;
pub use candid::parse_service_candid;
pub use envelope::JellyResult;
pub use envelope::wrap_outcome;
pub use normalize::link_error_payload;
pub use normalize::marshal_error;
