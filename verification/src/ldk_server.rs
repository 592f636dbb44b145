//! The LDK Server backend: BOLT11 invoices and BOLT12 offers.

pub mod answer_laws;
pub mod backend;
pub mod correlator;
pub mod error;
pub mod events;
pub mod flow_laws;
pub mod known_laws;
pub mod laws;
pub mod payments;
pub mod request_laws;
pub mod run_laws;
pub mod settings;
pub mod stream_laws;
