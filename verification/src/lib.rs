//! The session, wallet and subscription logic of the wallet application actor.
pub mod app;
pub mod json;
pub mod registry;
pub mod state;
pub mod types;
pub mod laws;
