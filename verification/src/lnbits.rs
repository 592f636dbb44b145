//! The LNbits backend: a wallet of an LNbits instance, BOLT11 only.

pub mod answer_laws;
pub mod backend;
pub mod error;
pub mod events;
pub mod laws;
pub mod settings;
