//! Headless state models and typed protocol shapes of the tau desktop client.
//!
//! Everything here is window- and transport-free: the GUI maps its events to
//! the actions of these models, and the daemon adapter translates between the
//! wire and the typed values below.

pub mod account;
pub mod backend;
pub mod chat;
pub mod composer;
pub mod feed;
pub mod input;
pub mod operations;
pub mod order;
pub mod picker;
pub mod preferences;
pub mod projects;
pub mod segments;
pub mod proto;
pub mod sessions;
pub mod shell;
pub mod text;
pub mod theme;

pub mod view;
