//! Typed shapes of the daemon's JSON-RPC protocol.  The shapes carry plain
//! values only; a JSON payload that the client never interprets travels as
//! its serialized text.

pub mod auth;
pub mod completion;
pub mod envelope;
pub mod git;
pub mod health;
pub mod policy;
pub mod projects;
pub mod session;
pub mod turn;
