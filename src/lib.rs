//! A chat-driven registry of projects: which channel each project lives in,
//! its repository and tracker references, who owns it, and which chat
//! identities are linked to which external usernames.

pub mod search;
pub mod manifest;
pub mod registry;
pub mod command;
pub mod store;
pub mod laws;
