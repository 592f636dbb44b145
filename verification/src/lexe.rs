//! The Lexe backend: a managed Lightning node, BOLT11 only.

pub mod answer_laws;
pub mod backend;
pub mod client;
pub mod database;
pub mod events;
pub mod laws;
pub mod settings;
pub mod wallet;
