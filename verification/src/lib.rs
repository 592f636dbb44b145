//! Lightning payment processors for Cashu mints.
//!
//! The crate holds the decisions of three payment backends: LDK Server, Lexe
//! and LNbits. Each backend turns what its node reports into the answers a
//! mint expects, and every answer is stated as a contract and proved.

mod clock;
pub mod encoding;
pub mod encoding_laws;
pub mod invoice;
pub mod ldk_server;
pub mod lexe;
pub mod lnbits;
pub mod payment;
pub mod payment_laws;
pub mod server;
pub mod server_laws;
pub mod text;
pub mod text_laws;
pub mod textmap;

