//! Core of a line-protocol language server: message framing, the decoding of
//! JSON envelopes into typed requests and notifications, the resolution of
//! editor positions into source spans, and the session logic that turns each
//! message into replies and effects on the backend collaborators.

pub mod framing;
pub mod resolve;
pub mod json;
pub mod message;
pub mod reply;
pub mod session;
pub mod encode;
